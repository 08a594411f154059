use vstd::prelude::*;
use crate::catalog::{CurrencyCatalog, validate_currency_code};
use crate::date::{Date, spec_month_back, month_back};
use crate::decimal::{Decimal, convert};
use crate::errors::AppError;
use crate::rates::{ConversionSnapshot, spec_lookup, lookup_rate, lemma_lookup_wf};

verus! {

/// The parsed command line: two optional positional codes, an optional
/// amount, and the three flags. Built once from the process arguments and
/// read-only thereafter.
pub struct CliRequest {
    pub from_currency_code: Option<String>,
    pub to_currency_code: Option<String>,
    pub amount: Option<Decimal>,
    pub list: bool,
    pub chart: bool,
    pub invalidate: bool,
}

/// What the run does next: exactly one provider call and one rendering,
/// or an early exit. The caller performs the chosen call and hands the
/// response back to the library.
pub enum Action {
    /// Render the fetched catalog as a code/name listing.
    ListCurrencies,
    /// Fetch the series from `start` to `end` and render the chart.
    RenderChart { from: String, to: String, start: Date, end: Date },
    /// Print the usage hint and exit successfully: a designed non-error
    /// outcome, not a suppressed failure.
    GuidedExit,
    /// Fetch the latest rates for `from` and render the full table.
    RenderFullTable { from: String },
    /// Fetch the latest rates and render the single rate for `to`.
    RenderSingleRate { from: String, to: String },
    /// Fetch the latest rates and render `amount` converted into `to`.
    RenderConversion { from: String, to: String, amount: Decimal },
    /// No documented path reaches this: fail with the internal-state error.
    ReportInternalError,
}

/// The request-routing rules, in their fixed precedence: `list` first,
/// then `chart`, then the guided exit for a missing or invalid base code,
/// then the three conversion shapes, and the defensive fallback last.
pub open spec fn spec_plan(req: CliRequest, catalog: CurrencyCatalog, today: Date) -> Action {
    if req.list {
        Action::ListCurrencies
    } else if req.chart {
        Action::RenderChart {
            from: req.from_currency_code.unwrap(),
            to: req.to_currency_code.unwrap(),
            start: spec_month_back(today),
            end: today,
        }
    } else if req.from_currency_code is None || !catalog.contains_code(
        req.from_currency_code.unwrap()@,
    ) {
        Action::GuidedExit
    } else if req.to_currency_code is None && req.amount is None {
        Action::RenderFullTable { from: req.from_currency_code.unwrap() }
    } else if req.to_currency_code is Some && catalog.contains_code(req.to_currency_code.unwrap()@)
        && req.amount is None {
        Action::RenderSingleRate {
            from: req.from_currency_code.unwrap(),
            to: req.to_currency_code.unwrap(),
        }
    } else if req.to_currency_code is Some && req.amount is Some {
        Action::RenderConversion {
            from: req.from_currency_code.unwrap(),
            to: req.to_currency_code.unwrap(),
            amount: req.amount.unwrap(),
        }
    } else {
        Action::ReportInternalError
    }
}

/// Choose the run's action from the parsed request, the fetched catalog
/// and today's date. The catalog is fetched before this decision whatever
/// branch wins, so a failed catalog fetch is fatal even for branches that
/// never read it.
pub fn plan(req: &CliRequest, catalog: &CurrencyCatalog, today: &Date) -> (r: Action)
    requires
        today.wf(),
        today.year >= 2,
        req.chart ==> req.from_currency_code is Some && req.to_currency_code is Some,
    ensures
        r == spec_plan(*req, *catalog, *today),
{
    if req.list {
        return Action::ListCurrencies;
    }
    if req.chart {
        let from = match &req.from_currency_code {
            Option::Some(f) => f.clone(),
            Option::None => unreached(),
        };
        let to = match &req.to_currency_code {
            Option::Some(t) => t.clone(),
            Option::None => unreached(),
        };
        let start = month_back(today);
        return Action::RenderChart { from, to, start, end: *today };
    }
    let from = match &req.from_currency_code {
        Option::Some(f) => f,
        Option::None => {
            return Action::GuidedExit;
        },
    };
    if !validate_currency_code(from, catalog) {
        return Action::GuidedExit;
    }
    match (&req.to_currency_code, &req.amount) {
        (Option::None, Option::None) => Action::RenderFullTable { from: from.clone() },
        (Option::Some(to), Option::None) => {
            if validate_currency_code(to, catalog) {
                Action::RenderSingleRate { from: from.clone(), to: to.clone() }
            } else {
                Action::ReportInternalError
            }
        },
        (Option::Some(to), Option::Some(amount)) => Action::RenderConversion {
            from: from.clone(),
            to: to.clone(),
            amount: *amount,
        },
        (Option::None, Option::Some(_)) => Action::ReportInternalError,
    }
}

/// Branch precedence: a request with `list` set is answered with the
/// listing, whatever else is set — `chart` included.
pub proof fn lemma_list_takes_precedence(req: CliRequest, catalog: CurrencyCatalog, today: Date)
    requires
        req.list,
    ensures
        spec_plan(req, catalog, today) == Action::ListCurrencies,
{
}

/// A missing or invalid base code, with neither flag set, is the guided
/// exit: no rate fetch happens on that path.
pub proof fn lemma_invalid_base_guided_exit(req: CliRequest, catalog: CurrencyCatalog, today: Date)
    requires
        !req.list,
        !req.chart,
        req.from_currency_code matches Some(f) ==> !catalog.contains_code(f@),
    ensures
        spec_plan(req, catalog, today) == Action::GuidedExit,
{
}

/// The single-rate outcome: the latest snapshot's rate for `to`, or the
/// recoverable `MissingRateError` when the provider returned none.
pub fn single_rate_outcome(snapshot: &ConversionSnapshot, to: &String) -> (r: Result<
    Decimal,
    AppError,
>)
    requires
        snapshot.wf(),
    ensures
        (match r {
            Ok(rate) => spec_lookup(snapshot.rates@, to@) == Some(rate) && rate.wf(),
            Err(e) => spec_lookup(snapshot.rates@, to@) is None && e matches
                AppError::MissingRateError,
        }),
{
    let r = lookup_rate(&snapshot.rates, to);
    proof {
        if spec_lookup(snapshot.rates@, to@) is Some {
            lemma_lookup_wf(snapshot.rates@, to@);
        }
    }
    r
}

/// The conversion outcome: the latest snapshot's rate for `to` and the
/// exact product `amount * rate`, or the `MissingRateError` when the
/// provider returned no rate for `to`.
pub fn conversion_outcome(snapshot: &ConversionSnapshot, to: &String, amount: &Decimal) -> (r:
    Result<(Decimal, Decimal), AppError>)
    requires
        snapshot.wf(),
        amount.wf(),
    ensures
        (match r {
            Ok((rate, exchanged)) => {
                &&& spec_lookup(snapshot.rates@, to@) == Some(rate)
                &&& exchanged.mantissa == amount.mantissa * rate.mantissa
                &&& exchanged.scale == amount.scale + rate.scale
            },
            Err(e) => spec_lookup(snapshot.rates@, to@) is None && e matches
                AppError::MissingRateError,
        }),
{
    let rate = match single_rate_outcome(snapshot, to) {
        Ok(rate) => rate,
        Err(e) => {
            return Err(e);
        },
    };
    let exchanged = convert(amount, &rate);
    Ok((rate, exchanged))
}

} // verus!
