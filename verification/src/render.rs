use vstd::prelude::*;
use vstd::arithmetic::div_mod::{lemma_div_decreases, lemma_div_pos_is_pos};
use crate::date::{Date, digit_byte, spec_format_date, format_date};
use crate::decimal::{Decimal, pow10, pow10_exec};
use crate::errors::AppError;
use crate::projector::{PlotPoint, Bounds, compute_bounds};

verus! {

/// The decimal digits of `n`, most significant first.
pub open spec fn spec_digits(n: int) -> Seq<u8>
    decreases n,
    via spec_digits_decreases
{
    if n < 10 {
        seq![digit_byte(n)]
    } else {
        spec_digits(n / 10).push(digit_byte(n % 10))
    }
}

#[via_fn]
proof fn spec_digits_decreases(n: int) {
    if n >= 10 {
        lemma_div_decreases(n, 10);
        lemma_div_pos_is_pos(n, 10);
    }
}

/// The lowest `width` decimal digits of `n`, zero-padded, most
/// significant first.
pub open spec fn spec_padded(n: int, width: nat) -> Seq<u8>
    decreases width,
{
    if width == 0 {
        Seq::empty()
    } else {
        spec_padded(n / 10, (width - 1) as nat).push(digit_byte(n % 10))
    }
}

/// The display form of a decimal: an optional minus sign, the whole part's
/// digits, and — when the scale is positive — a point and exactly `scale`
/// fraction digits.
pub open spec fn spec_format_decimal(d: Decimal) -> Seq<u8> {
    let a = if d.mantissa < 0 {
        -(d.mantissa as int)
    } else {
        d.mantissa as int
    };
    let whole = a / pow10(d.scale as nat);
    let frac = a % pow10(d.scale as nat);
    let sign: Seq<u8> = if d.mantissa < 0 {
        seq![45u8]
    } else {
        Seq::empty()
    };
    if d.scale == 0 {
        sign + spec_digits(whole)
    } else {
        sign + spec_digits(whole) + seq![46u8] + spec_padded(frac, d.scale as nat)
    }
}

fn push_digits(n: u128, out: &mut Vec<u8>)
    ensures
        final(out)@ == old(out)@ + spec_digits(n as int),
    decreases n,
{
    if n < 10 {
        out.push(48 + n as u8);
        proof {
            assert(out@ =~= old(out)@ + spec_digits(n as int));
        }
    } else {
        push_digits(n / 10, out);
        out.push(48 + (n % 10) as u8);
        proof {
            assert(out@ =~= old(out)@ + spec_digits(n as int));
        }
    }
}

fn push_padded(n: u128, width: u32, out: &mut Vec<u8>)
    ensures
        final(out)@ == old(out)@ + spec_padded(n as int, width as nat),
    decreases width,
{
    if width == 0 {
        proof {
            assert(out@ =~= old(out)@ + spec_padded(n as int, 0));
        }
    } else {
        push_padded(n / 10, width - 1, out);
        out.push(48 + (n % 10) as u8);
        proof {
            assert(out@ =~= old(out)@ + spec_padded(n as int, width as nat));
        }
    }
}

/// Format a decimal for display, exactly as `spec_format_decimal` says.
pub fn format_decimal(d: &Decimal) -> (r: Vec<u8>)
    requires
        d.scale <= 27,
        -1_000_000_000_000_000_000_000_000_000_000 <= d.mantissa
            <= 1_000_000_000_000_000_000_000_000_000_000,
    ensures
        r@ == spec_format_decimal(*d),
{
    let neg = d.mantissa < 0;
    let abs_m: i128 = if neg {
        -d.mantissa
    } else {
        d.mantissa
    };
    let pow = pow10_exec(d.scale);
    let a: u128 = abs_m as u128;
    let p: u128 = pow as u128;
    let whole = a / p;
    let frac = a % p;
    let mut out: Vec<u8> = Vec::new();
    if neg {
        out.push(45);
    }
    push_digits(whole, &mut out);
    if d.scale > 0 {
        out.push(46);
        push_padded(frac, d.scale, &mut out);
        proof {
            assert(out@ =~= spec_format_decimal(*d));
        }
    } else {
        proof {
            assert(out@ =~= spec_format_decimal(*d));
        }
    }
    out
}

/// The first `n` bytes of a label — truncated for display, not rounded.
pub open spec fn spec_truncated(s: Seq<u8>, n: int) -> Seq<u8> {
    if s.len() <= n {
        s
    } else {
        s.subrange(0, n)
    }
}

/// Truncate a rendered label to `n` bytes.
pub fn truncated_label(s: &Vec<u8>, n: usize) -> (r: Vec<u8>)
    ensures
        r@ == spec_truncated(s@, n as int),
{
    let mut out: Vec<u8> = Vec::new();
    let limit = if s.len() <= n {
        s.len()
    } else {
        n
    };
    let mut i: usize = 0;
    while i < limit
        invariant
            0 <= i <= limit,
            limit <= s@.len(),
            out@ =~= s@.subrange(0, i as int),
        decreases limit - i,
    {
        out.push(s[i]);
        proof {
            assert(out@ =~= s@.subrange(0, i as int + 1));
        }
        i = i + 1;
    }
    proof {
        assert(out@ =~= spec_truncated(s@, n as int));
    }
    out
}

/// How many bytes of a rate label the y axis keeps.
pub const Y_LABEL_WIDTH: usize = 6;

/// Everything the chart widget needs: axis bounds, the three date labels
/// on the x axis, and the truncated min/max rate labels on the y axis.
pub struct ChartLayout {
    pub bounds: Bounds,
    pub x_label_start: Vec<u8>,
    pub x_label_mid: Vec<u8>,
    pub x_label_end: Vec<u8>,
    pub y_label_min: Vec<u8>,
    pub y_label_max: Vec<u8>,
}

/// Lay out the chart frame over the projected points: bounds from the
/// least and greatest timestamp and rate, date tick labels for `start`,
/// `mid` and `end`, and min/max rate labels truncated to the fixed display
/// width. An empty point sequence is the user-facing `EmptySeriesError`.
pub fn chart_layout(points: &Vec<PlotPoint>, start: &Date, mid: &Date, end: &Date) -> (r: Result<
    ChartLayout,
    AppError,
>)
    requires
        forall|k: int| 0 <= k < points@.len() ==> (#[trigger] points@[k]).y.wf(),
        start.wf(),
        mid.wf(),
        end.wf(),
    ensures
        (match r {
            Ok(l) => {
                &&& points@.len() > 0
                &&& exists|i: int|
                    0 <= i < points@.len() && (#[trigger] points@[i]).x == l.bounds.min_x
                &&& exists|i: int|
                    0 <= i < points@.len() && (#[trigger] points@[i]).x == l.bounds.max_x
                &&& exists|i: int|
                    0 <= i < points@.len() && (#[trigger] points@[i]).y == l.bounds.min_y
                &&& exists|i: int|
                    0 <= i < points@.len() && (#[trigger] points@[i]).y == l.bounds.max_y
                &&& forall|i: int|
                    0 <= i < points@.len() ==> l.bounds.min_x <= (#[trigger] points@[i]).x
                        <= l.bounds.max_x
                &&& forall|i: int|
                    0 <= i < points@.len() ==> l.bounds.min_y.le((#[trigger] points@[i]).y)
                        && points@[i].y.le(l.bounds.max_y)
                &&& l.x_label_start@ == spec_format_date(*start)
                &&& l.x_label_mid@ == spec_format_date(*mid)
                &&& l.x_label_end@ == spec_format_date(*end)
                &&& l.y_label_min@ == spec_truncated(
                    spec_format_decimal(l.bounds.min_y),
                    Y_LABEL_WIDTH as int,
                )
                &&& l.y_label_max@ == spec_truncated(
                    spec_format_decimal(l.bounds.max_y),
                    Y_LABEL_WIDTH as int,
                )
            },
            Err(e) => points@.len() == 0 && e matches AppError::EmptySeriesError,
        }),
{
    let bounds = match compute_bounds(points) {
        Ok(b) => b,
        Err(_) => {
            return Err(AppError::EmptySeriesError);
        },
    };
    let min_label = format_decimal(&bounds.min_y);
    let max_label = format_decimal(&bounds.max_y);
    Ok(
        ChartLayout {
            bounds,
            x_label_start: format_date(start),
            x_label_mid: format_date(mid),
            x_label_end: format_date(end),
            y_label_min: truncated_label(&min_label, Y_LABEL_WIDTH),
            y_label_max: truncated_label(&max_label, Y_LABEL_WIDTH),
        },
    )
}

} // verus!
