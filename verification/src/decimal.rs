use vstd::prelude::*;

verus! {

/// Numbers are exact fixed-point decimals: a value is `mag / SCALE`, negated
/// when `neg` is set, so nine fractional digits are carried exactly.
pub const SCALE: u64 = 1_000_000_000;

/// The largest mantissa magnitude a well-formed number may carry
/// (one billion whole units, scaled).
pub const MANT_LIMIT: u64 = 1_000_000_000_000_000_000;

/// A signed fixed-point decimal, stored as sign and mantissa magnitude.
#[derive(Clone, Copy, Debug, PartialEq, Eq, Structural)]
pub struct Decimal {
    pub neg: bool,
    pub mag: u64,
}

pub open spec fn int_abs(a: int) -> int {
    if a < 0 {
        -a
    } else {
        a
    }
}

/// Whether a (scaled) mathematical value fits in a well-formed `Decimal`.
pub open spec fn in_range(v: int) -> bool {
    -(MANT_LIMIT as int) <= v <= MANT_LIMIT as int
}

/// Division of a scaled product by `SCALE`, truncating toward zero.
pub open spec fn trunc_scale(p: int) -> int {
    if p >= 0 {
        p / (SCALE as int)
    } else {
        -((-p) / (SCALE as int))
    }
}

/// The exact value of a product of two scaled values, truncated toward zero
/// at the ninth fractional digit.
pub open spec fn mul_value(a: int, b: int) -> int {
    trunc_scale(a * b)
}

/// The exact value of a quotient of two scaled values, truncated toward zero
/// at the ninth fractional digit.
pub open spec fn div_value(a: int, b: int) -> int
    recommends
        b != 0,
{
    let m = (int_abs(a) * (SCALE as int)) / int_abs(b);
    if (a < 0) == (b < 0) {
        m
    } else {
        -m
    }
}

impl Decimal {
    /// The mathematical value of this decimal, in units of `1 / SCALE`.
    pub open spec fn value(self) -> int {
        if self.neg {
            -(self.mag as int)
        } else {
            self.mag as int
        }
    }

    /// Well-formed decimals are canonical (no negative zero) and bounded.
    pub open spec fn wf(self) -> bool {
        (self.neg ==> self.mag > 0) && self.mag <= MANT_LIMIT
    }

    /// Arithmetic negation. Total: negation never leaves the range.
    pub fn negate(self) -> (r: Decimal)
        ensures
            r.value() == -self.value(),
            r.neg ==> r.mag > 0,
            r.mag == self.mag,
    {
        if self.mag == 0 {
            Decimal { neg: false, mag: 0 }
        } else {
            Decimal { neg: !self.neg, mag: self.mag }
        }
    }

    /// Exact addition; `None` when the sum leaves the representable range.
    pub fn checked_add(self, o: Decimal) -> (r: Option<Decimal>)
        ensures
            ({
                let v = self.value() + o.value();
                match r {
                    Some(d) => in_range(v) && d.value() == v && d.wf(),
                    None => !in_range(v),
                }
            }),
    {
        if self.neg == o.neg {
            let m: u128 = self.mag as u128 + o.mag as u128;
            if m > MANT_LIMIT as u128 {
                None
            } else {
                Some(Decimal { neg: if m == 0 { false } else { self.neg }, mag: m as u64 })
            }
        } else if self.mag >= o.mag {
            let m: u64 = self.mag - o.mag;
            if m > MANT_LIMIT {
                None
            } else {
                Some(Decimal { neg: if m == 0 { false } else { self.neg }, mag: m })
            }
        } else {
            let m: u64 = o.mag - self.mag;
            if m > MANT_LIMIT {
                None
            } else {
                Some(Decimal { neg: if m == 0 { false } else { o.neg }, mag: m })
            }
        }
    }

    /// Exact subtraction; `None` when the difference leaves the range.
    pub fn checked_sub(self, o: Decimal) -> (r: Option<Decimal>)
        ensures
            ({
                let v = self.value() - o.value();
                match r {
                    Some(d) => in_range(v) && d.value() == v && d.wf(),
                    None => !in_range(v),
                }
            }),
    {
        self.checked_add(o.negate())
    }

    /// Multiplication, truncated toward zero at the ninth fractional digit;
    /// `None` when the product leaves the range.
    pub fn checked_mul(self, o: Decimal) -> (r: Option<Decimal>)
        ensures
            ({
                let v = mul_value(self.value(), o.value());
                match r {
                    Some(d) => in_range(v) && d.value() == v && d.wf(),
                    None => !in_range(v),
                }
            }),
    {
        proof {
            assert((self.mag as int) * (o.mag as int) <= (u64::MAX as int) * (u64::MAX as int))
                by (nonlinear_arith)
                requires
                    self.mag <= u64::MAX,
                    o.mag <= u64::MAX,
            ;
            assert((u64::MAX as int) * (u64::MAX as int) <= u128::MAX as int) by (nonlinear_arith);
        }
        let p: u128 = (self.mag as u128) * (o.mag as u128);
        let q: u128 = p / (SCALE as u128);
        proof {
            lemma_signed_product(self.neg, self.mag as int, o.neg, o.mag as int);
        }
        if q > MANT_LIMIT as u128 {
            None
        } else {
            Some(Decimal { neg: if q == 0 { false } else { self.neg != o.neg }, mag: q as u64 })
        }
    }

    /// Division, truncated toward zero at the ninth fractional digit;
    /// `None` when the quotient leaves the range. The divisor must be nonzero
    /// (the evaluator reports division by zero before calling this).
    pub fn checked_div(self, o: Decimal) -> (r: Option<Decimal>)
        requires
            o.value() != 0,
        ensures
            ({
                let v = div_value(self.value(), o.value());
                match r {
                    Some(d) => in_range(v) && d.value() == v && d.wf(),
                    None => !in_range(v),
                }
            }),
    {
        proof {
            assert((self.mag as int) * (SCALE as int) <= (u64::MAX as int) * (SCALE as int))
                by (nonlinear_arith)
                requires
                    self.mag <= u64::MAX,
            ;
            assert((u64::MAX as int) * (SCALE as int) <= u128::MAX as int) by (nonlinear_arith);
        }
        let n: u128 = (self.mag as u128) * (SCALE as u128);
        let q: u128 = n / (o.mag as u128);
        if q > MANT_LIMIT as u128 {
            None
        } else {
            Some(Decimal { neg: if q == 0 { false } else { self.neg != o.neg }, mag: q as u64 })
        }
    }

    /// Strict value comparison.
    pub fn lt_value(self, o: Decimal) -> (r: bool)
        ensures
            r == (self.value() < o.value()),
    {
        match (self.neg, o.neg) {
            (true, true) => o.mag < self.mag,
            (true, false) => self.mag != 0 || o.mag != 0,
            (false, true) => false,
            (false, false) => self.mag < o.mag,
        }
    }

    /// Value equality (`-0` equals `0`).
    pub fn eq_value(self, o: Decimal) -> (r: bool)
        ensures
            r == (self.value() == o.value()),
    {
        self.mag == o.mag && (self.neg == o.neg || self.mag == 0)
    }
}

/// The magnitude of a product of sign-magnitude values is the product of the
/// magnitudes, with the sign given by the two signs.
proof fn lemma_signed_product(an: bool, am: int, bn: bool, bm: int)
    requires
        am >= 0,
        bm >= 0,
    ensures
        (if an { -am } else { am }) * (if bn { -bm } else { bm }) == if an == bn {
            am * bm
        } else {
            -(am * bm)
        },
{
    assert((-am) * bm == -(am * bm)) by (nonlinear_arith);
    assert(am * (-bm) == -(am * bm)) by (nonlinear_arith);
    assert((-am) * (-bm) == am * bm) by (nonlinear_arith);
}

} // verus!
