use vstd::prelude::*;

verus! {

/// The currency catalog: every code the provider recognizes, paired with
/// its human-readable name. Fetched once per run and read-only after.
pub struct CurrencyCatalog {
    pub entries: Vec<(String, String)>,
}

impl CurrencyCatalog {
    /// Whether `code` is one of the catalog's codes.
    pub open spec fn contains_code(self, code: Seq<char>) -> bool {
        exists|i: int| 0 <= i < self.entries@.len() && self.entries@[i].0@ == code
    }
}

/// A code is valid exactly when it appears among the catalog's keys:
/// a case-sensitive, exact match against the fetched code list.
pub fn validate_currency_code(code: &String, codes: &CurrencyCatalog) -> (r: bool)
    ensures
        r == codes.contains_code(code@),
{
    let n = codes.entries.len();
    let mut i: usize = 0;
    while i < n
        invariant
            0 <= i <= n,
            n == codes.entries@.len(),
            forall|j: int| 0 <= j < i ==> codes.entries@[j].0@ != code@,
        decreases n - i,
    {
        if codes.entries[i].0 == *code {
            return true;
        }
        i = i + 1;
    }
    false
}

} // verus!
