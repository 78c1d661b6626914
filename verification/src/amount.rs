//! Decimal amounts (quantities, prices, values) as plain mantissa/scale pairs,
//! with the arithmetic done by `rust_decimal`.
use rust_decimal::Decimal;
use crate::text::{digits, digits_value, is_digit, lemma_digits_are_digits, zeros};
use vstd::prelude::*;

verus! {

/// Largest magnitude a decimal mantissa can have: 2^96 - 1.
pub open spec fn max_mantissa() -> int {
    0xFFFF_FFFF_FFFF_FFFF_FFFF_FFFF
}

/// Largest number of digits after the decimal point.
pub open spec fn max_scale() -> int {
    28
}

/// 10 to the power `n`.
pub open spec fn pow10(n: nat) -> int
    decreases n,
{
    if n == 0 {
        1
    } else {
        10 * pow10((n - 1) as nat)
    }
}

pub open spec fn abs(x: int) -> int {
    if x < 0 {
        -x
    } else {
        x
    }
}

/// A decimal number `mantissa / 10^scale`, as `rust_decimal::Decimal` holds it,
/// with its sign flag: a `Decimal` zero can carry a minus sign, which it writes.
#[derive(Clone, Copy, Debug, PartialEq, Eq, Structural)]
pub struct Amount {
    pub mantissa: i128,
    pub scale: u32,
    pub negative: bool,
}

impl View for Amount {
    type V = (int, int, bool);

    open spec fn view(&self) -> (int, int, bool) {
        (self.mantissa as int, self.scale as int, self.negative)
    }
}

/// The parts of an optional amount.
pub open spec fn opt_view(a: Option<Amount>) -> Option<(int, int, bool)> {
    match a {
        Some(x) => Some(x@),
        None => None,
    }
}

impl Amount {
    /// The amount is one that a `Decimal` can hold.
    pub open spec fn wf(self) -> bool {
        &&& abs(self.mantissa as int) <= max_mantissa()
        &&& self.scale <= max_scale()
        &&& self.mantissa < 0 ==> self.negative
        &&& self.mantissa > 0 ==> !self.negative
    }

    pub open spec fn is_negative(self) -> bool {
        self.mantissa < 0
    }

    /// Zero, as `Decimal::ZERO` holds it.
    pub fn zero() -> (r: Amount)
        ensures
            r@ == (0int, 0int, false),
            r.wf(),
    {
        Amount { mantissa: 0, scale: 0, negative: false }
    }

    /// Whether the amount is below zero.
    pub fn is_below_zero(&self) -> (r: bool)
        ensures
            r == self.is_negative(),
            r == (self.mantissa < 0),
    {
        self.mantissa < 0
    }
}

/// 10 to any power is positive.
pub proof fn lemma_pow10_positive(n: nat)
    ensures
        pow10(n) >= 1,
    decreases n,
{
    if n > 0 {
        lemma_pow10_positive((n - 1) as nat);
    }
}

/// An amount is negative exactly when its value `mantissa / 10^scale` is below zero:
/// `10^scale` is positive, so that value has the sign of the mantissa, whatever the
/// scale; a negative amount carries the minus sign.
pub proof fn lemma_negative_iff_value_below_zero(a: Amount)
    ensures
        a.is_negative() <==> a.mantissa < 0,
        pow10(a.scale as nat) > 0,
        a.wf() && a.is_negative() ==> a.negative,
{
    lemma_pow10_positive(a.scale as nat);
}

/// The parts of the product that `Decimal::checked_mul` computes, or `None` on overflow.
pub uninterp spec fn decimal_product(a: (int, int, bool), b: (int, int, bool)) -> Option<(int, int, bool)>;

/// The parts of the sum that `Decimal::checked_add` computes, or `None` on overflow.
pub uninterp spec fn decimal_sum(a: (int, int, bool), b: (int, int, bool)) -> Option<(int, int, bool)>;

/// The product of the two amounts when no digit is lost: either operand zero gives
/// zero at scale 0, otherwise the mantissas multiply and the scales add.
pub open spec fn product_is_exact(a: (int, int, bool), b: (int, int, bool)) -> bool {
    a.0 == 0 || b.0 == 0 || (a.1 + b.1 <= max_scale() && abs(a.0 * b.0) <= max_mantissa())
}

pub open spec fn exact_product(a: (int, int, bool), b: (int, int, bool)) -> (int, int, bool) {
    if a.0 == 0 || b.0 == 0 {
        (0, 0, false)
    } else {
        (a.0 * b.0, a.1 + b.1, a.0 * b.0 < 0)
    }
}

/// The larger of two scales.
pub open spec fn common_scale(a: (int, int, bool), b: (int, int, bool)) -> int {
    if a.1 >= b.1 {
        a.1
    } else {
        b.1
    }
}

/// The mantissa of `a` brought to scale `s` (at least `a.1`).
pub open spec fn aligned(a: (int, int, bool), s: int) -> int {
    a.0 * pow10((s - a.1) as nat)
}

/// The sum of the two amounts when no digit is lost.
pub open spec fn sum_is_exact(a: (int, int, bool), b: (int, int, bool)) -> bool {
    let s = common_scale(a, b);
    a.0 == 0 || b.0 == 0 || (abs(aligned(a, s)) <= max_mantissa() && abs(aligned(b, s))
        <= max_mantissa() && abs(aligned(a, s) + aligned(b, s)) <= max_mantissa())
}

/// What `Decimal` addition gives when no digit is lost: a zero left operand gives the
/// right operand unchanged, a zero right operand gives the left one, otherwise both are
/// brought to the larger scale and added.
pub open spec fn exact_sum(a: (int, int, bool), b: (int, int, bool)) -> (int, int, bool) {
    if a.0 == 0 {
        b
    } else if b.0 == 0 {
        a
    } else {
        let s = common_scale(a, b);
        (aligned(a, s) + aligned(b, s), s, aligned(a, s) + aligned(b, s) < 0)
    }
}

/// `Decimal::checked_mul` on the two amounts. The result is named by `decimal_product`;
/// where no digit is lost (`product_is_exact`) it is the exact product, with the scale
/// `rust_decimal` gives it. Where digits are lost the rounding is left to the name.
#[verifier::external_body]
pub(crate) fn decimal_mul(a: Amount, b: Amount) -> (r: Option<Amount>)
    requires
        a.wf(),
        b.wf(),
    ensures
        opt_view(r) == decimal_product(a@, b@),
        r matches Some(x) ==> x.wf(),
        product_is_exact(a@, b@) ==> opt_view(r) == Some(exact_product(a@, b@)),
{
    let mut x = Decimal::from_i128_with_scale(a.mantissa, a.scale);
    x.set_sign_negative(a.negative);
    let mut y = Decimal::from_i128_with_scale(b.mantissa, b.scale);
    y.set_sign_negative(b.negative);
    match x.checked_mul(y) {
        Some(p) => Some(Amount { mantissa: p.mantissa(), scale: p.scale(), negative: p.is_sign_negative() }),
        None => None,
    }
}

/// `Decimal::checked_add` on the two amounts. The result is named by `decimal_sum`;
/// where no digit is lost (`sum_is_exact`) it is `exact_sum`. Where digits are lost
/// the rounding is left to the name.
#[verifier::external_body]
pub(crate) fn decimal_add(a: Amount, b: Amount) -> (r: Option<Amount>)
    requires
        a.wf(),
        b.wf(),
    ensures
        opt_view(r) == decimal_sum(a@, b@),
        r matches Some(x) ==> x.wf(),
        sum_is_exact(a@, b@) ==> opt_view(r) == Some(exact_sum(a@, b@)),
{
    let mut x = Decimal::from_i128_with_scale(a.mantissa, a.scale);
    x.set_sign_negative(a.negative);
    let mut y = Decimal::from_i128_with_scale(b.mantissa, b.scale);
    y.set_sign_negative(b.negative);
    match x.checked_add(y) {
        Some(s) => Some(Amount { mantissa: s.mantissa(), scale: s.scale(), negative: s.is_sign_negative() }),
        None => None,
    }
}

/// The decimal digits of `|mantissa|`, with zeros in front up to `scale` digits.
pub open spec fn padded_digits(mantissa: int, scale: nat) -> Seq<char> {
    let d = digits(abs(mantissa) as nat);
    if d.len() < scale {
        zeros((scale - d.len()) as nat) + d
    } else {
        d
    }
}

/// How many of the padded digits stand before the decimal point.
pub open spec fn whole_len(mantissa: int, scale: nat) -> int {
    padded_digits(mantissa, scale).len() - scale
}

/// The digits before the point; `0` when there are none.
pub open spec fn int_part(mantissa: int, scale: nat) -> Seq<char> {
    if whole_len(mantissa, scale) == 0 {
        seq!['0']
    } else {
        padded_digits(mantissa, scale).take(whole_len(mantissa, scale))
    }
}

/// The `dp` digits after the point: the number's own, cut after `dp` places, then
/// zeros up to `dp` places.
pub open spec fn frac_digits(mantissa: int, scale: nat, dp: nat) -> Seq<char> {
    let frac = padded_digits(mantissa, scale).skip(whole_len(mantissa, scale));
    if dp <= scale {
        frac.take(dp as int)
    } else {
        frac + zeros((dp - scale) as nat)
    }
}

/// The text without its sign.
pub open spec fn unsigned_text(mantissa: int, scale: nat, dp: nat) -> Seq<char> {
    if dp == 0 {
        int_part(mantissa, scale)
    } else {
        int_part(mantissa, scale) + seq!['.'] + frac_digits(mantissa, scale, dp)
    }
}

/// How `Decimal` writes `mantissa / 10^scale` with `dp` digits after the point
/// (`format!("{:.dp$}", d)`): the digits are cut, not rounded, after `dp` places and
/// padded with zeros up to `dp` places; an empty whole part is written `0`; a
/// value with the sign flag (a negative one, or a zero carrying a minus sign) starts
/// with `-`.
pub open spec fn decimal_text(negative: bool, mantissa: int, scale: nat, dp: nat) -> Seq<char> {
    let sign = if negative {
        seq!['-']
    } else {
        Seq::empty()
    };
    sign + unsigned_text(mantissa, scale, dp)
}

/// Longest text, sign apart, that `Decimal`'s `Display` can build: it writes into a
/// 32-byte buffer and panics beyond it.
pub open spec fn text_buffer() -> int {
    32
}

/// The text of the amount with `dp` places fits the buffer of `Decimal`'s `Display`.
pub open spec fn text_fits(mantissa: int, scale: nat, dp: nat) -> bool {
    unsigned_text(mantissa, scale, dp).len() <= text_buffer()
}

proof fn lemma_value_append(a: Seq<char>, b: Seq<char>)
    ensures
        digits_value(a + b) == digits_value(a) * pow10(b.len()) + digits_value(b),
    decreases b.len(),
{
    if b.len() == 0 {
        assert(a + b == a);
    } else {
        let b0 = b.drop_last();
        lemma_value_append(a, b0);
        assert((a + b).drop_last() == a + b0);
        assert((a + b).last() == b.last());
        let va = digits_value(a);
        let vb0 = digits_value(b0);
        let p = pow10(b0.len());
        let c = b.last() as u32 - 48;
        assert(pow10(b.len()) == 10 * p);
        assert((va * p + vb0) * 10 + c == va * (10 * p) + (vb0 * 10 + c)) by (nonlinear_arith);
    }
}

proof fn lemma_zeros(k: nat)
    ensures
        digits_value(zeros(k)) == 0,
        forall|i: int| 0 <= i < k ==> is_digit(#[trigger] zeros(k)[i]),
    decreases k,
{
    if k > 0 {
        assert(zeros(k).drop_last() == zeros((k - 1) as nat));
        assert(zeros(k).last() == '0');
        assert('0' as u32 == 48);
        lemma_zeros((k - 1) as nat);
    }
}

/// The text reads back as the amount: written with at least as many places as the
/// amount's scale, it has a non-empty run of digits before the point and exactly `dp`
/// digits after it, and these digits, the point left out, make the number
/// `|mantissa| * 10^(dp - scale)`; the sign is written apart.
pub proof fn lemma_text_reads_back(mantissa: int, scale: nat, dp: nat)
    requires
        scale <= dp,
    ensures
        int_part(mantissa, scale).len() > 0,
        forall|i: int|
            0 <= i < int_part(mantissa, scale).len() ==> is_digit(
                #[trigger] int_part(mantissa, scale)[i],
            ),
        frac_digits(mantissa, scale, dp).len() == dp,
        forall|i: int|
            0 <= i < frac_digits(mantissa, scale, dp).len() ==> is_digit(
                #[trigger] frac_digits(mantissa, scale, dp)[i],
            ),
        digits_value(int_part(mantissa, scale) + frac_digits(mantissa, scale, dp)) == abs(
            mantissa,
        ) * pow10((dp - scale) as nat),
{
    let n = abs(mantissa) as nat;
    let d = digits(n);
    lemma_digits_are_digits(n);
    let padded = padded_digits(mantissa, scale);
    if d.len() < scale {
        let z = zeros((scale - d.len()) as nat);
        lemma_zeros((scale - d.len()) as nat);
        lemma_value_append(z, d);
        assert forall|i: int| 0 <= i < padded.len() implies is_digit(#[trigger] padded[i]) by {
            if i < z.len() {
                assert(padded[i] == z[i]);
            } else {
                assert(padded[i] == d[i - z.len()]);
            }
        }
    }
    assert(digits_value(padded) == n);
    let w = whole_len(mantissa, scale);
    let whole = padded.take(w);
    let frac = padded.skip(w);
    assert(padded == whole + frac);
    lemma_value_append(whole, frac);
    let ip = int_part(mantissa, scale);
    lemma_value_append(ip, frac);
    if w == 0 {
        assert(ip == seq!['0']);
        assert(ip.drop_last().len() == 0);
        assert(digits_value(ip.drop_last()) == 0);
        assert(ip.last() == '0');
        assert('0' as u32 == 48);
        assert(digits_value(ip) == 0);
        assert(digits_value(whole) == 0);
    }
    assert(digits_value(ip + frac) == n);
    assert forall|i: int| 0 <= i < ip.len() implies is_digit(#[trigger] ip[i]) by {
        if w > 0 {
            assert(ip[i] == padded[i]);
        }
    }
    let fd = frac_digits(mantissa, scale, dp);
    let k = (dp - scale) as nat;
    if dp == scale {
        assert(fd == frac);
        assert(pow10(0) == 1);
    } else {
        lemma_zeros(k);
        assert(fd == frac + zeros(k));
        assert(ip + fd == (ip + frac) + zeros(k));
        lemma_value_append(ip + frac, zeros(k));
    }
    assert forall|i: int| 0 <= i < fd.len() implies is_digit(#[trigger] fd[i]) by {
        if i < frac.len() {
            assert(fd[i] == padded[w + i]);
        } else {
            assert(fd[i] == zeros(k)[i - frac.len()]);
        }
    }
}

proof fn lemma_digits_len_step(n: nat)
    requires
        n > 0,
    ensures
        digits(n).len() == digits(n / 10).len() + 1,
{
}

proof fn lemma_digits_len_bound(n: nat, k: nat)
    requires
        n < pow10(k),
    ensures
        digits(n).len() <= k,
    decreases n,
{
    if n > 0 {
        assert(k > 0);
        assert(n / 10 < pow10((k - 1) as nat));
        lemma_digits_len_bound(n / 10, (k - 1) as nat);
    }
}

proof fn lemma_mantissa_digits(n: nat)
    requires
        n <= max_mantissa(),
    ensures
        digits(n).len() <= 29,
{
    reveal_with_fuel(pow10, 30);
    assert(pow10(29) == 100000000000000000000000000000int);
    lemma_digits_len_bound(n, 29);
}

/// The number of decimal digits of `n`.
fn digit_count(n: u128) -> (r: usize)
    requires
        n <= max_mantissa(),
    ensures
        r == digits(n as nat).len(),
        r <= 29,
{
    proof {
        lemma_mantissa_digits(n as nat);
    }
    let mut x = n;
    let mut count: usize = 0;
    while x > 0
        invariant
            count + digits(x as nat).len() == digits(n as nat).len(),
            digits(n as nat).len() <= 29,
        decreases x,
    {
        proof {
            lemma_digits_len_step(x as nat);
        }
        x = x / 10;
        count = count + 1;
    }
    count
}

/// Whether the amount can be written with `dp` places: `Decimal`'s `Display` panics
/// on a text longer than its buffer.
pub fn can_write(a: Amount, dp: usize) -> (r: bool)
    requires
        a.wf(),
        dp <= max_scale(),
    ensures
        r == text_fits(a@.0, a.scale as nat, dp as nat),
{
    let magnitude: u128 = if a.mantissa < 0 {
        (-a.mantissa) as u128
    } else {
        a.mantissa as u128
    };
    let d = digit_count(magnitude);
    let scale = a.scale as usize;
    let padded = if d < scale {
        scale
    } else {
        d
    };
    let whole = padded - scale;
    let int_len = if whole == 0 {
        1
    } else {
        whole
    };
    let len = if dp == 0 {
        int_len
    } else {
        int_len + 1 + dp
    };
    len <= 32
}

/// `format!("{:.dp$}", d)` on the `Decimal` of the amount; the text must fit the
/// buffer that `Display` writes it into.
#[verifier::external_body]
pub(crate) fn format_amount(a: Amount, dp: usize) -> (r: String)
    requires
        a.wf(),
        dp <= max_scale(),
        text_fits(a@.0, a.scale as nat, dp as nat),
    ensures
        r@ == decimal_text(a.negative, a@.0, a.scale as nat, dp as nat),
{
    let mut x = Decimal::from_i128_with_scale(a.mantissa, a.scale);
    x.set_sign_negative(a.negative);
    format!("{:.*}", dp, x)
}

} // verus!
