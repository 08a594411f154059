use vstd::prelude::*;
use crate::date::{spec_parse_date, unix_timestamp, parse_date, timestamp};
use crate::decimal::{Decimal, value_le, lemma_le_total, lemma_le_trans};
use crate::errors::AppError;
use crate::rates::{spec_lookup, lookup_rate, lemma_lookup_wf, rates_wf};

verus! {

broadcast use vstd::seq_lib::group_to_multiset_ensures;

/// A date range of quotes: one snapshot-like entry per day the provider
/// returned, keyed by the day's ISO date string.
pub struct ConversionSeries {
    pub amount: Decimal,
    pub base: String,
    pub start_date: Vec<u8>,
    pub end_date: Vec<u8>,
    pub rates: Vec<(Vec<u8>, Vec<(String, Decimal)>)>,
}

impl ConversionSeries {
    pub open spec fn wf(self) -> bool {
        &&& self.amount.wf()
        &&& forall|i: int| 0 <= i < self.rates@.len() ==> rates_wf((#[trigger] self.rates@[i]).1@)
    }
}

/// One plotted sample: the day's Unix timestamp against the day's rate.
#[derive(Clone, Copy, Debug, PartialEq, Eq, Structural)]
pub struct PlotPoint {
    pub x: i64,
    pub y: Decimal,
}

/// What projecting a series yields, entry by entry in series order: the
/// first entry whose date key does not parse makes the whole projection
/// `InvalidDateError`; the first parseable entry without the target code
/// makes it `MissingRateError`; otherwise every entry becomes a point.
pub open spec fn spec_project(
    entries: Seq<(Vec<u8>, Vec<(String, Decimal)>)>,
    code: Seq<char>,
) -> Result<Seq<PlotPoint>, AppError>
    decreases entries.len(),
{
    if entries.len() == 0 {
        Ok(Seq::empty())
    } else {
        match spec_parse_date(entries[0].0@) {
            Option::None => Err(AppError::InvalidDateError),
            Option::Some(d) => match spec_lookup(entries[0].1@, code) {
                Option::None => Err(AppError::MissingRateError),
                Option::Some(v) => match spec_project(entries.drop_first(), code) {
                    Ok(rest) => Ok(
                        seq![PlotPoint { x: unix_timestamp(d) as i64, y: v }] + rest,
                    ),
                    Err(e) => Err(e),
                },
            },
        }
    }
}

/// Points in chronological order of their timestamps.
pub open spec fn sorted_by_x(s: Seq<PlotPoint>) -> bool {
    forall|i: int, j: int| 0 <= i < j < s.len() ==> s[i].x <= s[j].x
}

/// The same points, in chronological order: series mappings carry no
/// defined iteration order, so the projection sorts by timestamp for a
/// deterministic rendering.
pub fn sorted_by_timestamp(points: Vec<PlotPoint>) -> (r: Vec<PlotPoint>)
    ensures
        sorted_by_x(r@),
        r@.to_multiset() == points@.to_multiset(),
        r@.len() == points@.len(),
{
    let mut rem = points;
    let mut out: Vec<PlotPoint> = Vec::new();
    proof {
        assert(out@.to_multiset().add(rem@.to_multiset()) =~= points@.to_multiset());
    }
    while rem.len() > 0
        invariant
            out@.to_multiset().add(rem@.to_multiset()) == points@.to_multiset(),
            out@.len() + rem@.len() == points@.len(),
            sorted_by_x(out@),
            forall|a: int, b: int|
                0 <= a < out@.len() && 0 <= b < rem@.len() ==> out@[a].x <= rem@[b].x,
        decreases rem@.len(),
    {
        let mut j: usize = 0;
        let mut k: usize = 1;
        while k < rem.len()
            invariant
                0 <= j < k <= rem@.len(),
                rem@.len() > 0,
                forall|t: int| 0 <= t < k ==> rem@[j as int].x <= (#[trigger] rem@[t]).x,
            decreases rem@.len() - k,
        {
            if rem[k].x < rem[j].x {
                j = k;
            }
            k = k + 1;
        }
        let ghost old_out = out@;
        let ghost old_rem = rem@;
        let m = rem.remove(j);
        out.push(m);
        proof {
            assert(old_rem.contains(m));
            assert(old_rem.to_multiset().count(m) > 0);
            assert(out@.to_multiset().add(rem@.to_multiset()) =~= old_out.to_multiset().add(
                old_rem.to_multiset(),
            ));
        }
    }
    out
}

/// The rectangle the chart spans.
#[derive(Clone, Copy, Debug, PartialEq, Eq, Structural)]
pub struct Bounds {
    pub min_x: i64,
    pub max_x: i64,
    pub min_y: Decimal,
    pub max_y: Decimal,
}

/// Axis bounds over a point sequence: the least and greatest timestamp,
/// and the least and greatest rate by rational value. An empty sequence
/// is the user-facing `EmptySeriesError`, never a crash.
pub fn compute_bounds(points: &Vec<PlotPoint>) -> (r: Result<Bounds, AppError>)
    requires
        forall|k: int| 0 <= k < points@.len() ==> (#[trigger] points@[k]).y.wf(),
    ensures
        (match r {
            Ok(b) => {
                &&& points@.len() > 0
                &&& b.min_y.wf()
                &&& b.max_y.wf()
                &&& exists|i: int| 0 <= i < points@.len() && (#[trigger] points@[i]).x == b.min_x
                &&& exists|i: int| 0 <= i < points@.len() && (#[trigger] points@[i]).x == b.max_x
                &&& exists|i: int| 0 <= i < points@.len() && (#[trigger] points@[i]).y == b.min_y
                &&& exists|i: int| 0 <= i < points@.len() && (#[trigger] points@[i]).y == b.max_y
                &&& forall|i: int|
                    0 <= i < points@.len() ==> b.min_x <= (#[trigger] points@[i]).x <= b.max_x
                &&& forall|i: int|
                    0 <= i < points@.len() ==> b.min_y.le((#[trigger] points@[i]).y)
                        && points@[i].y.le(b.max_y)
            },
            Err(e) => points@.len() == 0 && e matches AppError::EmptySeriesError,
        }),
{
    if points.len() == 0 {
        return Err(AppError::EmptySeriesError);
    }
    let first = points[0];
    let mut min_x = first.x;
    let mut max_x = first.x;
    let mut min_y = first.y;
    let mut max_y = first.y;
    let n = points.len();
    let mut i: usize = 1;
    while i < n
        invariant
            1 <= i <= n,
            n == points@.len(),
            forall|k: int| 0 <= k < points@.len() ==> (#[trigger] points@[k]).y.wf(),
            min_y.wf(),
            max_y.wf(),
            exists|k: int| 0 <= k < i && (#[trigger] points@[k]).x == min_x,
            exists|k: int| 0 <= k < i && (#[trigger] points@[k]).x == max_x,
            exists|k: int| 0 <= k < i && (#[trigger] points@[k]).y == min_y,
            exists|k: int| 0 <= k < i && (#[trigger] points@[k]).y == max_y,
            forall|k: int| 0 <= k < i ==> min_x <= (#[trigger] points@[k]).x <= max_x,
            forall|k: int|
                0 <= k < i ==> min_y.le((#[trigger] points@[k]).y) && points@[k].y.le(max_y),
        decreases n - i,
    {
        let p = points[i];
        if p.x < min_x {
            min_x = p.x;
        }
        if p.x > max_x {
            max_x = p.x;
        }
        if !value_le(&min_y, &p.y) {
            proof {
                lemma_le_total(min_y, p.y);
                assert forall|k: int| 0 <= k < i implies p.y.le((#[trigger] points@[k]).y) by {
                    lemma_le_trans(p.y, min_y, points@[k].y);
                }
            }
            min_y = p.y;
        }
        if !value_le(&p.y, &max_y) {
            proof {
                lemma_le_total(p.y, max_y);
                assert forall|k: int| 0 <= k < i implies (#[trigger] points@[k]).y.le(p.y) by {
                    lemma_le_trans(points@[k].y, max_y, p.y);
                }
            }
            max_y = p.y;
        }
        i = i + 1;
    }
    Ok(Bounds { min_x, max_x, min_y, max_y })
}

/// Project a date-keyed rate series into plot points for `code`: each
/// entry's date key becomes a Unix-timestamp x, each entry's rate for
/// `code` the y, and the points come back in chronological order. An
/// empty series yields an empty point sequence.
pub fn project(series: &ConversionSeries, code: &String) -> (r: Result<Vec<PlotPoint>, AppError>)
    requires
        series.wf(),
    ensures
        (match (r, spec_project(series.rates@, code@)) {
            (Ok(v), Ok(s)) => {
                &&& v@.to_multiset() == s.to_multiset()
                &&& v@.len() == s.len()
                &&& sorted_by_x(v@)
                &&& forall|k: int| 0 <= k < v@.len() ==> (#[trigger] v@[k]).y.wf()
            },
            (Err(e1), Err(e2)) => e1 == e2,
            _ => false,
        }),
        series.rates@.len() == 0 ==> (r matches Ok(v) && v@.len() == 0),
{
    let n = series.rates.len();
    let mut points: Vec<PlotPoint> = Vec::new();
    let mut i: usize = 0;
    proof {
        assert(series.rates@.skip(0) =~= series.rates@);
        if spec_project(series.rates@, code@) is Ok {
            assert(points@ + spec_project(series.rates@, code@)->Ok_0 =~= spec_project(
                series.rates@,
                code@,
            )->Ok_0);
        }
    }
    while i < n
        invariant
            0 <= i <= n,
            n == series.rates@.len(),
            series.wf(),
            points@.len() == i,
            forall|k: int| 0 <= k < points@.len() ==> (#[trigger] points@[k]).y.wf(),
            (match spec_project(series.rates@.skip(i as int), code@) {
                Ok(rest) => spec_project(series.rates@, code@) == Ok::<Seq<PlotPoint>, AppError>(points@ + rest),
                Err(e) => spec_project(series.rates@, code@) == Err::<Seq<PlotPoint>, AppError>(e),
            }),
        decreases n - i,
    {
        let ghost tail = series.rates@.skip(i as int);
        proof {
            assert(tail[0] == series.rates@[i as int]);
            assert(tail.drop_first() =~= series.rates@.skip(i as int + 1));
        }
        let entry_date = parse_date(series.rates[i].0.as_slice());
        let d = match entry_date {
            Option::Some(d) => d,
            Option::None => {
                return Err(AppError::InvalidDateError);
            },
        };
        let looked = lookup_rate(&series.rates[i].1, code);
        let v = match looked {
            Ok(v) => v,
            Err(_) => {
                proof {
                    assert(spec_project(tail, code@) == Err::<Seq<PlotPoint>, AppError>(
                        AppError::MissingRateError,
                    ));
                }
                return Err(AppError::MissingRateError);
            },
        };
        let x = timestamp(&d);
        let ghost old_points = points@;
        points.push(PlotPoint { x, y: v });
        proof {
            lemma_lookup_wf(series.rates@[i as int].1@, code@);
            let pt = PlotPoint { x: unix_timestamp(d) as i64, y: v };
            assert(points@[i as int] == pt);
            match spec_project(series.rates@.skip(i as int + 1), code@) {
                Ok(rest2) => {
                    assert(spec_project(tail, code@) == Ok::<Seq<PlotPoint>, AppError>(seq![pt] + rest2));
                    assert(old_points + (seq![pt] + rest2) =~= points@ + rest2);
                },
                Err(e2) => {
                    assert(spec_project(tail, code@) == Err::<Seq<PlotPoint>, AppError>(e2));
                },
            }
        }
        i = i + 1;
    }
    proof {
        assert(series.rates@.skip(n as int).len() == 0);
        assert(spec_project(series.rates@.skip(n as int), code@) == Ok::<Seq<PlotPoint>, AppError>(Seq::empty()));
        assert(points@ + Seq::<PlotPoint>::empty() =~= points@);
    }
    let sorted = sorted_by_timestamp(points);
    proof {
        assert forall|k: int| 0 <= k < sorted@.len() implies (#[trigger] sorted@[k]).y.wf() by {
            assert(sorted@.to_multiset().count(sorted@[k]) > 0);
        }
    }
    Ok(sorted)
}

} // verus!
