use vstd::prelude::*;

verus! {

/// Largest magnitude a decimal mantissa can hold: 2^96 - 1.
pub const MAX_MANTISSA: i128 = 79228162514264337593543950335;

/// Largest number of decimal places a decimal can carry.
pub const MAX_SCALE: u32 = 28;

/// `10^n`.
pub open spec fn pow10(n: nat) -> int
    decreases n,
{
    if n == 0 {
        1
    } else {
        10 * pow10((n - 1) as nat)
    }
}

/// An unsigned fixed-point amount: the value is `bits * 10^exp`.
#[derive(Clone, Copy, Debug, PartialEq, Eq, Structural)]
pub struct UFix64 {
    pub bits: u64,
    pub exp: i8,
}

impl UFix64 {
    pub fn new(bits: u64, exp: i8) -> (r: UFix64)
        ensures
            r.bits == bits,
            r.exp == exp,
    {
        UFix64 { bits, exp }
    }
}

/// A decimal number: the value is `mantissa / 10^scale`.
#[derive(Clone, Copy, Debug, PartialEq, Eq, Structural)]
pub struct Decimal {
    pub mantissa: i128,
    pub scale: u32,
}

impl Decimal {
    /// The mantissa fits in 96 bits and the scale is at most 28.
    pub open spec fn wf(&self) -> bool {
        &&& -MAX_MANTISSA <= self.mantissa <= MAX_MANTISSA
        &&& self.scale <= MAX_SCALE
    }

    pub open spec fn zero_spec() -> Decimal {
        Decimal { mantissa: 0, scale: 0 }
    }

    pub fn zero() -> (r: Decimal)
        ensures
            r == Decimal::zero_spec(),
            r.wf(),
    {
        Decimal { mantissa: 0, scale: 0 }
    }

    /// The value lies in `[0, 1]`.
    pub open spec fn in_unit_interval(&self) -> bool {
        0 <= self.mantissa <= pow10(self.scale as nat)
    }

    /// The value is `num / den` up to half a unit of its last decimal place.
    pub open spec fn approximates(&self, num: int, den: int) -> bool {
        let d = self.mantissa * den - num * pow10(self.scale as nat);
        &&& -den <= 2 * d
        &&& 2 * d <= den
    }
}

/// Why a quote could not be produced.
#[derive(Debug)]
pub enum QuoteError {
    /// A magnitude could not be turned into a decimal, or the division failed.
    Arithmetic,
    /// The protocol state could not compute the operation.
    Operation(String),
}

/// What the decimal division of `num` by `den` gives, as mantissa and scale.
pub uninterp spec fn decimal_quotient(num: u64, den: u64) -> Option<(i128, u32)>;

/// `(m, s)` is `num / den` rounded to the nearest unit of the `s`-th decimal
/// place, with a 96-bit mantissa and `s` at most 28.
pub open spec fn rounded_quotient(num: u64, den: u64, m: i128, s: u32) -> bool {
    &&& (Decimal { mantissa: m, scale: s }).wf()
    &&& (Decimal { mantissa: m, scale: s }).approximates(num as int, den as int)
}

/// Relies on rust_decimal's `Decimal::checked_div`, applied to the exact
/// decimals of two `u64` and read back through `mantissa` and `scale`. It
/// fails only on a zero divisor or on an overflow, which a quotient of two
/// `u64` cannot reach; otherwise it rounds half to even at a scale of at most
/// 28.
#[verifier::external_body]
fn decimal_div(num: u64, den: u64) -> (r: Option<(i128, u32)>)
    ensures
        r == decimal_quotient(num, den),
        den == 0 ==> r is None,
        den != 0 ==> r is Some,
        r matches Some((m, s)) ==> rounded_quotient(num, den, m, s),
{
    let n = rust_decimal::Decimal::from(num);
    let d = rust_decimal::Decimal::from(den);
    n.checked_div(d).map(|q| (q.mantissa(), q.scale()))
}

/// The result of [`decimal_from_quotient`] on `q`.
pub open spec fn from_quotient_spec(q: Option<(i128, u32)>) -> Result<Decimal, QuoteError> {
    match q {
        Some((m, s)) => {
            let d = Decimal { mantissa: m, scale: s };
            if d.wf() {
                Ok(d)
            } else {
                Err(QuoteError::Arithmetic)
            }
        },
        None => Err(QuoteError::Arithmetic),
    }
}

/// Turns the mantissa and scale of a division into a decimal; a failed
/// division, or parts out of range, is an arithmetic error.
pub fn decimal_from_quotient(q: Option<(i128, u32)>) -> (r: Result<Decimal, QuoteError>)
    ensures
        r == from_quotient_spec(q),
{
    match q {
        Some((m, s)) => {
            if -MAX_MANTISSA <= m && m <= MAX_MANTISSA && s <= MAX_SCALE {
                Ok(Decimal { mantissa: m, scale: s })
            } else {
                Err(QuoteError::Arithmetic)
            }
        },
        None => Err(QuoteError::Arithmetic),
    }
}

/// The fee percentage of `fee` over `base`: zero for a zero base, else the
/// decimal quotient.
pub open spec fn fee_pct_spec(fee: u64, base: u64) -> Result<Decimal, QuoteError> {
    if base == 0 {
        Ok(Decimal::zero_spec())
    } else {
        from_quotient_spec(decimal_quotient(fee, base))
    }
}

proof fn lemma_pow10_positive(n: nat)
    ensures
        pow10(n) >= 1,
    decreases n,
{
    if n > 0 {
        lemma_pow10_positive((n - 1) as nat);
    }
}

/// A rounded quotient of `num <= den` lies in `[0, 1]`.
proof fn lemma_rounded_in_unit(num: u64, den: u64, m: i128, s: u32)
    requires
        den != 0,
        num <= den,
        rounded_quotient(num, den, m, s),
    ensures
        0 <= m <= pow10(s as nat),
{
    let p = pow10(s as nat);
    lemma_pow10_positive(s as nat);
    let dn = den as int;
    let nm = num as int;
    let mi = m as int;
    assert(2 * (mi * dn - nm * p) <= dn);
    assert(-dn <= 2 * (mi * dn - nm * p));
    assert(nm * p <= dn * p) by (nonlinear_arith)
        requires
            nm <= dn,
            p >= 1,
    ;
    assert(mi <= p) by (nonlinear_arith)
        requires
            2 * (mi * dn - nm * p) <= dn,
            nm * p <= dn * p,
            dn >= 1,
    ;
    assert(0 <= mi) by (nonlinear_arith)
        requires
            -dn <= 2 * (mi * dn - nm * p),
            nm >= 0,
            p >= 1,
            dn >= 1,
    ;
}

/// The fee percentage `fees_extracted / fee_base` as a decimal, or zero when
/// the base is zero.
pub fn fee_pct_decimal(fees_extracted: UFix64, fee_base: UFix64) -> (r: Result<Decimal, QuoteError>)
    requires
        fees_extracted.exp == fee_base.exp,
    ensures
        r == fee_pct_spec(fees_extracted.bits, fee_base.bits),
        fee_base.bits == 0 ==> r == Ok::<Decimal, QuoteError>(Decimal::zero_spec()),
        fee_base.bits != 0 ==> (r matches Ok(d) && d.wf() && d.approximates(
            fees_extracted.bits as int,
            fee_base.bits as int,
        )),
        fee_base.bits != 0 && fees_extracted.bits <= fee_base.bits ==> (r matches Ok(d)
            && d.in_unit_interval()),
{
    if fee_base.bits == 0 {
        Ok(Decimal::zero())
    } else {
        let q = decimal_div(fees_extracted.bits, fee_base.bits);
        proof {
            if let Some((m, s)) = q {
                if fees_extracted.bits <= fee_base.bits {
                    lemma_rounded_in_unit(fees_extracted.bits, fee_base.bits, m, s);
                }
            }
        }
        decimal_from_quotient(q)
    }
}

} // verus!
