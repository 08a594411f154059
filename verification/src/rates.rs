use vstd::prelude::*;
use crate::decimal::Decimal;
use crate::errors::AppError;

verus! {

/// A single point-in-time quote: one day's rates relative to one base
/// currency.
pub struct ConversionSnapshot {
    pub amount: Decimal,
    pub base: String,
    pub date: Vec<u8>,
    pub rates: Vec<(String, Decimal)>,
}

/// Every rate in a mapping is well-formed.
pub open spec fn rates_wf(rates: Seq<(String, Decimal)>) -> bool {
    forall|i: int| 0 <= i < rates.len() ==> (#[trigger] rates[i]).1.wf()
}

impl ConversionSnapshot {
    pub open spec fn wf(self) -> bool {
        &&& self.amount.wf()
        &&& rates_wf(self.rates@)
    }
}

/// The first rate a mapping holds for `code`, if any.
pub open spec fn spec_lookup(rates: Seq<(String, Decimal)>, code: Seq<char>) -> Option<Decimal>
    decreases rates.len(),
{
    if rates.len() == 0 {
        None
    } else if rates[0].0@ == code {
        Some(rates[0].1)
    } else {
        spec_lookup(rates.drop_first(), code)
    }
}

/// Look up `code` in a rate mapping. The requested rate when the mapping
/// holds the code; the recoverable `MissingRateError` exactly when it does
/// not — never a crash, since a provider need not return every code.
pub fn lookup_rate(rates: &Vec<(String, Decimal)>, code: &String) -> (r: Result<
    Decimal,
    AppError,
>)
    ensures
        (match r {
            Ok(v) => spec_lookup(rates@, code@) == Some(v),
            Err(e) => spec_lookup(rates@, code@) is None && e matches AppError::MissingRateError,
        }),
{
    let n = rates.len();
    let mut i: usize = 0;
    proof {
        assert(rates@.skip(0) =~= rates@);
    }
    while i < n
        invariant
            0 <= i <= n,
            n == rates@.len(),
            spec_lookup(rates@.skip(i as int), code@) == spec_lookup(rates@, code@),
        decreases n - i,
    {
        proof {
            assert(rates@.skip(i as int)[0] == rates@[i as int]);
            assert(rates@.skip(i as int).drop_first() =~= rates@.skip(i as int + 1));
        }
        if rates[i].0 == *code {
            return Ok(rates[i].1);
        }
        i = i + 1;
    }
    proof {
        assert(rates@.skip(n as int).len() == 0);
    }
    Err(AppError::MissingRateError)
}

/// A well-formed mapping hands back a well-formed rate.
pub proof fn lemma_lookup_wf(rates: Seq<(String, Decimal)>, code: Seq<char>)
    requires
        forall|i: int| 0 <= i < rates.len() ==> (#[trigger] rates[i]).1.wf(),
        spec_lookup(rates, code) is Some,
    ensures
        spec_lookup(rates, code).unwrap().wf(),
    decreases rates.len(),
{
    if rates.len() > 0 && rates[0].0@ != code {
        assert(forall|i: int|
            0 <= i < rates.drop_first().len() ==> (#[trigger] rates.drop_first()[i]).1.wf());
        lemma_lookup_wf(rates.drop_first(), code);
    }
}

} // verus!
