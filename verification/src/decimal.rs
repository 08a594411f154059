use vstd::prelude::*;

verus! {

/// A base-ten fixed-point number standing for `mantissa / 10^scale`.
///
/// Rates and amounts travel through the library in this form, so that
/// conversion arithmetic is exact: multiplying two decimals multiplies the
/// mantissas and adds the scales, with no rounding anywhere.
#[derive(Clone, Copy, Debug, PartialEq, Eq, Structural)]
pub struct Decimal {
    pub mantissa: i128,
    pub scale: u32,
}

/// Ten to the power `e`.
pub open spec fn pow10(e: nat) -> int
    decreases e,
{
    if e == 0 {
        1
    } else {
        10 * pow10((e - 1) as nat)
    }
}

pub proof fn lemma_pow10_pos(e: nat)
    ensures
        1 <= pow10(e),
    decreases e,
{
    if e > 0 {
        lemma_pow10_pos((e - 1) as nat);
    }
}

pub proof fn lemma_pow10_mono(e: nat, f: nat)
    requires
        e <= f,
    ensures
        pow10(e) <= pow10(f),
    decreases f,
{
    if e < f {
        lemma_pow10_mono(e, (f - 1) as nat);
        lemma_pow10_pos((f - 1) as nat);
    }
}

pub proof fn lemma_pow10_bounds(e: nat)
    ensures
        1 <= pow10(e),
        e <= 12 ==> pow10(e) <= 1_000_000_000_000,
{
    lemma_pow10_pos(e);
    if e <= 12 {
        lemma_pow10_mono(e, 12);
        reveal_with_fuel(pow10, 13);
        assert(pow10(12) == 1_000_000_000_000);
    }
}

impl Decimal {
    /// Bounds a provider rate or a user amount stays within; products of two
    /// well-formed decimals remain representable.
    pub open spec fn wf(self) -> bool {
        &&& self.scale <= 12
        &&& -1_000_000_000_000_000 <= self.mantissa <= 1_000_000_000_000_000
    }

    /// The rational values of `self` and `other` are equal: the
    /// cross-multiplied mantissas agree.
    pub open spec fn same_value(self, other: Decimal) -> bool {
        self.mantissa * pow10(other.scale as nat) == other.mantissa * pow10(self.scale as nat)
    }

    /// The rational value of `self` is at most that of `other`.
    pub open spec fn le(self, other: Decimal) -> bool {
        self.mantissa * pow10(other.scale as nat) <= other.mantissa * pow10(self.scale as nat)
    }
}

/// Ten to the power `e`, executable.
pub(crate) fn pow10_exec(e: u32) -> (r: i128)
    requires
        e <= 27,
    ensures
        r == pow10(e as nat),
        1 <= r <= 1_000_000_000_000_000_000_000_000_000,
{
    let mut r: i128 = 1;
    let mut i: u32 = 0;
    proof {
        lemma_pow10_mono(0, 27);
        reveal_with_fuel(pow10, 28);
        assert(pow10(27) == 1_000_000_000_000_000_000_000_000_000);
    }
    while i < e
        invariant
            i <= e,
            e <= 27,
            r == pow10(i as nat),
            pow10(27) == 1_000_000_000_000_000_000_000_000_000,
            1 <= r <= 1_000_000_000_000_000_000_000_000_000,
        decreases e - i,
    {
        proof {
            lemma_pow10_pos((i + 1) as nat);
            lemma_pow10_mono((i + 1) as nat, 27);
        }
        r = r * 10;
        i = i + 1;
    }
    r
}

/// Conversion arithmetic: the result is exactly `amount * rate`, with no
/// rounding — the mantissas multiply and the scales add.
pub fn convert(amount: &Decimal, rate: &Decimal) -> (r: Decimal)
    requires
        amount.wf(),
        rate.wf(),
    ensures
        r.mantissa == amount.mantissa * rate.mantissa,
        r.scale == amount.scale + rate.scale,
{
    proof {
        assert(-1_000_000_000_000_000_000_000_000_000_000 <= amount.mantissa * rate.mantissa
            <= 1_000_000_000_000_000_000_000_000_000_000) by (nonlinear_arith)
            requires
                -1_000_000_000_000_000 <= amount.mantissa <= 1_000_000_000_000_000,
                -1_000_000_000_000_000 <= rate.mantissa <= 1_000_000_000_000_000,
        ;
    }
    Decimal { mantissa: amount.mantissa * rate.mantissa, scale: amount.scale + rate.scale }
}

/// Whether `a`'s rational value is at most `b`'s.
pub fn value_le(a: &Decimal, b: &Decimal) -> (r: bool)
    requires
        a.wf(),
        b.wf(),
    ensures
        r == a.le(*b),
{
    let pa = pow10_exec(b.scale);
    let pb = pow10_exec(a.scale);
    proof {
        lemma_pow10_bounds(a.scale as nat);
        lemma_pow10_bounds(b.scale as nat);
        assert(-1_000_000_000_000_000_000_000_000_000 <= a.mantissa * pow10(b.scale as nat)
            <= 1_000_000_000_000_000_000_000_000_000) by (nonlinear_arith)
            requires
                -1_000_000_000_000_000 <= a.mantissa <= 1_000_000_000_000_000,
                1 <= pow10(b.scale as nat) <= 1_000_000_000_000,
        ;
        assert(-1_000_000_000_000_000_000_000_000_000 <= b.mantissa * pow10(a.scale as nat)
            <= 1_000_000_000_000_000_000_000_000_000) by (nonlinear_arith)
            requires
                -1_000_000_000_000_000 <= b.mantissa <= 1_000_000_000_000_000,
                1 <= pow10(a.scale as nat) <= 1_000_000_000_000,
        ;
    }
    a.mantissa * pa <= b.mantissa * pb
}

/// Whether `a` and `b` have the same rational value.
pub fn value_eq(a: &Decimal, b: &Decimal) -> (r: bool)
    requires
        a.wf(),
        b.wf(),
    ensures
        r == a.same_value(*b),
{
    let le1 = value_le(a, b);
    let le2 = value_le(b, a);
    le1 && le2
}

/// `le` on rational values is total.
pub proof fn lemma_le_total(a: Decimal, b: Decimal)
    ensures
        a.le(b) || b.le(a),
{
}

/// `le` on rational values is transitive.
pub proof fn lemma_le_trans(a: Decimal, b: Decimal, c: Decimal)
    requires
        a.le(b),
        b.le(c),
    ensures
        a.le(c),
{
    lemma_pow10_bounds(a.scale as nat);
    lemma_pow10_bounds(b.scale as nat);
    lemma_pow10_bounds(c.scale as nat);
    assert(a.mantissa * pow10(c.scale as nat) <= c.mantissa * pow10(a.scale as nat))
        by (nonlinear_arith)
        requires
            a.mantissa * pow10(b.scale as nat) <= b.mantissa * pow10(a.scale as nat),
            b.mantissa * pow10(c.scale as nat) <= c.mantissa * pow10(b.scale as nat),
            1 <= pow10(a.scale as nat),
            1 <= pow10(b.scale as nat),
            1 <= pow10(c.scale as nat),
    ;
}

} // verus!
