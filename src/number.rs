//! Exact rational numbers, held as base-2^32 digit vectors and computed
//! with `num-rational` / `num-bigint`.

use vstd::prelude::*;
use num_bigint::{BigInt, BigUint, Sign};
use num_rational::BigRational;
use crate::text::decimal;
use crate::escape::hex_char;

verus! {

/// Value of little-endian base-2^32 digits.
pub open spec fn digits_val(s: Seq<u32>) -> nat
    decreases s.len(),
{
    if s.len() == 0 {
        0
    } else {
        s[0] as nat + 0x1_0000_0000 * digits_val(s.drop_first())
    }
}

/// No most significant zero digit.
pub open spec fn canonical(s: Seq<u32>) -> bool {
    s.len() == 0 || s.last() != 0
}

pub proof fn lemma_canonical_positive(s: Seq<u32>)
    requires
        canonical(s),
        s.len() > 0,
    ensures
        digits_val(s) > 0,
        s.len() >= 2 ==> digits_val(s) >= 0x1_0000_0000,
    decreases s.len(),
{
    if s.len() >= 2 {
        assert(s.drop_first().last() == s.last());
        lemma_canonical_positive(s.drop_first());
    }
}

/// A canonical digit vector is empty exactly when its value is zero, and a
/// value below 2^32 is its first digit.
pub proof fn lemma_small_canonical(s: Seq<u32>)
    requires
        canonical(s),
    ensures
        (s.len() == 0) == (digits_val(s) == 0),
        digits_val(s) < 0x1_0000_0000 ==> s.len() <= 1,
        s.len() == 1 ==> digits_val(s) == s[0] as nat,
{
    if s.len() > 0 {
        lemma_canonical_positive(s);
    }
    if s.len() == 1 {
        assert(digits_val(s.drop_first()) == 0);
    }
}

pub proof fn lemma_one_digit(s: Seq<u32>)
    requires
        s.len() == 1,
    ensures
        digits_val(s) == s[0] as nat,
{
    assert(s.drop_first() =~= Seq::<u32>::empty());
    assert(digits_val(s.drop_first()) == 0);
    assert(digits_val(s) == s[0] as nat + 0x1_0000_0000 * digits_val(s.drop_first()));
}

/// Exact rational number.
#[derive(Debug)]
pub struct Number {
    neg: bool,
    numer: Vec<u32>,
    denom: Vec<u32>,
}

/// Number of fraction digits shown; the last of them is rounded.
pub const PRECISION: usize = 10;

/// 10 to the power `PRECISION`.
pub const SCALE: u64 = 10000000000;

/// `m / d` times `SCALE`, rounded half up.
pub open spec fn scaled(m: nat, d: nat) -> nat {
    (2 * m * (SCALE as nat) + d) / (2 * d)
}

/// `n` zero characters.
pub open spec fn zeros(n: int) -> Seq<char>
    decreases n,
{
    if n <= 0 {
        seq![]
    } else {
        zeros(n - 1).push('0')
    }
}

/// The `k` fraction digits of `f / 10^k`, without trailing zeros.
pub open spec fn frac_text(f: nat, k: nat) -> Seq<char>
    decreases k,
{
    if k > 0 && f > 0 && f % 10 == 0 {
        frac_text(f / 10, (k - 1) as nat)
    } else {
        zeros(k - decimal(f).len()) + decimal(f)
    }
}

pub open spec fn abs(x: int) -> nat {
    if x < 0 {
        (-x) as nat
    } else {
        x as nat
    }
}

/// Display text of the rational `num / den`: the value rounded half up to
/// `PRECISION` fraction digits, the rounding carried into the integer
/// part, with no trailing zeros and no sign on a value that rounds to zero.
pub open spec fn display_spec(num: int, den: nat) -> Seq<char> {
    let n = scaled(abs(num), den);
    let w = n / (SCALE as nat);
    let f = n % (SCALE as nat);
    let sign = if num < 0 && n > 0 {
        seq!['-']
    } else {
        seq![]
    };
    if f == 0 {
        sign + decimal(w)
    } else {
        sign + decimal(w) + seq!['.'] + frac_text(f, PRECISION as nat)
    }
}

/// Lowercase hexadecimal notation of a natural number.
pub open spec fn hex_digits(n: nat) -> Seq<char>
    decreases n,
{
    if n < 16 {
        seq![hex_char(n)]
    } else {
        hex_digits(n / 16).push(hex_char(n % 16))
    }
}

/// The integer part of `num / den` (truncated) in lowercase hexadecimal,
/// with its sign, padded with a leading zero to two characters.
pub open spec fn hex_spec(num: int, den: nat) -> Seq<char> {
    let q = abs(num) / den;
    let body = (if num < 0 && q > 0 {
        seq!['-']
    } else {
        seq![]
    }) + hex_digits(q);
    if body.len() < 2 {
        seq!['0'] + body
    } else {
        body
    }
}

/// `a / b == c / d` for positive `b`, `d`.
pub open spec fn same_ratio(a: int, b: int, c: int, d: int) -> bool {
    a * d == c * b
}

/// Floor of `n / d` for positive `d`.
pub open spec fn floor_div(n: int, d: int) -> int {
    n / d
}

/// Ceiling of `n / d` for positive `d`.
pub open spec fn ceil_div(n: int, d: int) -> int {
    -((-n) / d)
}

/// `n / d` rounded to the nearest integer, half-way cases away from zero.
pub open spec fn round_div(n: int, d: int) -> int {
    if n >= 0 {
        (2 * n + d) / (2 * d)
    } else {
        -((2 * (-n) + d) / (2 * d))
    }
}

/// `n / d` truncated toward zero.
pub open spec fn trunc_div(n: int, d: int) -> int {
    if n >= 0 {
        n / d
    } else {
        -((-n) / d)
    }
}

impl Clone for Number {
    fn clone(&self) -> (r: Self)
        ensures
            r.num() == self.num(),
            r.den() == self.den(),
    {
        proof {
            use_type_invariant(self);
        }
        Number { neg: self.neg, numer: self.numer.clone(), denom: self.denom.clone() }
    }
}

impl Number {
    /// Numerator of the value.
    pub closed spec fn num(self) -> int {
        if self.neg {
            -(digits_val(self.numer@) as int)
        } else {
            digits_val(self.numer@) as int
        }
    }

    /// Denominator of the value; always positive.
    pub closed spec fn den(self) -> int {
        digits_val(self.denom@) as int
    }

    #[verifier::type_invariant]
    pub open spec fn positive_denominator(self) -> bool {
        self.den() > 0
    }

    /// The two numbers have the same rational value.
    pub open spec fn same_value(self, other: Number) -> bool {
        same_ratio(self.num(), self.den(), other.num(), other.den())
    }

    /// The number `a / b`.
    pub fn ratio(a: i128, b: i128) -> (r: Number)
        requires
            b != 0,
        ensures
            same_ratio(r.num(), r.den(), a as int, b as int),
    {
        rat_new(a, b)
    }

    /// The integer `n`.
    pub fn from_integer(n: i128) -> (r: Number)
        ensures
            same_ratio(r.num(), r.den(), n as int, 1),
    {
        rat_new(n, 1)
    }

    /// The value truncated toward zero, as an integer.
    pub fn to_integer(&self) -> (r: Number)
        ensures
            r.den() == 1,
            r.num() == trunc_div(self.num(), self.den()),
    {
        proof {
            use_type_invariant(self);
        }
        let q = big_quot(&self.numer, &self.denom);
        let neg = self.neg && q.len() > 0;
        let one: Vec<u32> = vec![1u32];
        proof {
            lemma_small_canonical(q@);
            lemma_one_digit(one@);
        }
        Number { neg, numer: q, denom: one }
    }

    /// The nearest integer, half-way cases away from zero.
    pub fn round(self) -> (r: Self)
        ensures
            r.den() == 1,
            r.num() == round_div(self.num(), self.den()),
    {
        proof {
            use_type_invariant(&self);
        }
        rat_round(&self)
    }

    /// The least integer not below the value.
    pub fn ceil(self) -> (r: Self)
        ensures
            r.den() == 1,
            r.num() == ceil_div(self.num(), self.den()),
    {
        proof {
            use_type_invariant(&self);
        }
        rat_ceil(&self)
    }

    /// The greatest integer not above the value.
    pub fn floor(self) -> (r: Self)
        ensures
            r.den() == 1,
            r.num() == floor_div(self.num(), self.den()),
    {
        proof {
            use_type_invariant(&self);
        }
        rat_floor(&self)
    }

    pub fn add(&self, other: &Number) -> (r: Number)
        ensures
            same_ratio(r.num(), r.den(), self.num() * other.den() + other.num() * self.den(),
                self.den() * other.den()),
    {
        proof {
            use_type_invariant(self);
            use_type_invariant(other);
        }
        rat_add(self, other)
    }

    pub fn sub(&self, other: &Number) -> (r: Number)
        ensures
            same_ratio(r.num(), r.den(), self.num() * other.den() - other.num() * self.den(),
                self.den() * other.den()),
    {
        proof {
            use_type_invariant(self);
            use_type_invariant(other);
        }
        rat_sub(self, other)
    }

    pub fn mul(&self, other: &Number) -> (r: Number)
        ensures
            same_ratio(r.num(), r.den(), self.num() * other.num(), self.den() * other.den()),
    {
        proof {
            use_type_invariant(self);
            use_type_invariant(other);
        }
        rat_mul(self, other)
    }

    pub fn div(&self, other: &Number) -> (r: Number)
        requires
            other.num() != 0,
        ensures
            same_ratio(r.num() * other.num(), r.den() * other.den(), self.num(), self.den()),
    {
        proof {
            use_type_invariant(self);
            use_type_invariant(other);
        }
        rat_div(self, other)
    }

    /// Decimal text: the value rounded half up to ten fraction digits,
    /// written without trailing zeros.
    pub fn to_text(&self) -> (r: String)
        ensures
            r@ == display_spec(self.num(), self.den() as nat),
    {
        proof {
            use_type_invariant(self);
        }
        let ghost m = digits_val(self.numer@);
        let ghost d = digits_val(self.denom@);
        let ghost sc = SCALE as nat;
        let t = big_mul_small(&big_mul_small(&self.numer, 100000), 100000);
        let t2 = big_mul_small(&t, 2);
        let sum = big_add(&t2, &self.denom);
        let d2 = big_mul_small(&self.denom, 2);
        let n = big_quot(&sum, &d2);
        let scale: Vec<u32> = vec![1410065408u32, 2u32];
        proof {
            assert(abs(self.num()) == m);
            lemma_scaled_parts(m, digits_val(t@), digits_val(t2@), digits_val(sum@), d, digits_val(d2@), digits_val(n@));
            assert(digits_val(n@) == scaled(abs(self.num()), d));
            lemma_two_digits(scale@);
            assert(digits_val(scale@) == sc);
            lemma_small_canonical(n@);
        }
        let w = big_quot(&n, &scale);
        let f = big_rem(&n, &scale);
        let ghost target = display_spec(self.num(), d);
        let mut out = String::new();
        if self.neg && n.len() > 0 {
            out.push('-');
        }
        let ws = big_decimal(&w);
        out.push_str(ws.as_str());
        let ghost head = out@;
        proof {
            if m == 0 {
                assert(d / (2 * d) == 0) by (nonlinear_arith)
                    requires
                        d > 0,
                ;
                assert(digits_val(n@) == 0);
            }
            assert((self.neg && n.len() > 0) == (self.num() < 0 && digits_val(n@) > 0));
            assert(head =~= (if self.num() < 0 && digits_val(n@) > 0 {
                seq!['-']
            } else {
                seq![]
            }) + decimal(digits_val(n@) / sc));
        }
        let f = small_u64(&f);
        if f == 0 {
            proof {
                assert(out@ == target);
            }
            return out;
        }
        out.push('.');
        let ft = fraction_text(f, PRECISION);
        out.push_str(ft.as_str());
        proof {
            assert(out@ =~= target);
        }
        out
    }

    /// The integer part in lowercase hexadecimal, at least two characters
    /// wide (`0a`, `ff`, `100`).
    pub fn to_hex_text(&self) -> (r: String)
        ensures
            r@ == hex_spec(self.num(), self.den() as nat),
    {
        proof {
            use_type_invariant(self);
            assert(abs(self.num()) == digits_val(self.numer@));
        }
        let q = big_quot(&self.numer, &self.denom);
        proof {
            lemma_small_canonical(q@);
        }
        let mut body = String::new();
        if self.neg && q.len() > 0 {
            body.push('-');
        }
        let h = big_hex(&q);
        body.push_str(h.as_str());
        if body.as_str().unicode_len() < 2 {
            let mut out = String::new();
            out.push('0');
            out.push_str(body.as_str());
            proof {
                assert(out@ =~= hex_spec(self.num(), self.den() as nat));
            }
            out
        } else {
            proof {
                assert(body@ =~= hex_spec(self.num(), self.den() as nat));
            }
            body
        }
    }

    /// Exact comparison of the values.
    pub fn compare(&self, other: &Number) -> (r: core::cmp::Ordering)
        ensures
            (r == core::cmp::Ordering::Less) == (self.num() * other.den() < other.num()
                * self.den()),
            (r == core::cmp::Ordering::Equal) == self.same_value(*other),
            (r == core::cmp::Ordering::Greater) == (self.num() * other.den() > other.num()
                * self.den()),
    {
        proof {
            use_type_invariant(self);
            use_type_invariant(other);
        }
        rat_cmp(self, other)
    }

    /// The two values are equal.
    pub fn equals(&self, other: &Number) -> (r: bool)
        ensures
            r == self.same_value(*other),
    {
        match self.compare(other) {
            core::cmp::Ordering::Equal => true,
            _ => false,
        }
    }
}

/// Relies on `Ratio::<BigInt>::new`: the fraction `a / b` in lowest terms,
/// with a positive denominator (it panics on a zero denominator).
#[verifier::external_body]
fn rat_new(a: i128, b: i128) -> (r: Number)
    requires
        b != 0,
    ensures
        same_ratio(r.num(), r.den(), a as int, b as int),
        r.den() > 0,
{
    let x = BigRational::new(BigInt::from(a), BigInt::from(b));
    let (s, n) = x.numer().to_u32_digits();
    Number { neg: s == Sign::Minus, numer: n, denom: x.denom().to_u32_digits().1 }
}

/// Relies on `Add for Ratio<BigInt>`: the exact sum, reduced.
#[verifier::external_body]
fn rat_add(a: &Number, b: &Number) -> (r: Number)
    requires
        a.den() > 0,
        b.den() > 0,
    ensures
        same_ratio(r.num(), r.den(), a.num() * b.den() + b.num() * a.den(), a.den() * b.den()),
        r.den() > 0,
{
    let x = BigRational::new(BigInt::from_slice(if a.neg { Sign::Minus } else { Sign::Plus }, &a.numer), BigInt::from_slice(Sign::Plus, &a.denom));
    let y = BigRational::new(BigInt::from_slice(if b.neg { Sign::Minus } else { Sign::Plus }, &b.numer), BigInt::from_slice(Sign::Plus, &b.denom));
    let z = x + y;
    let (s, n) = z.numer().to_u32_digits();
    Number { neg: s == Sign::Minus, numer: n, denom: z.denom().to_u32_digits().1 }
}

/// Relies on `Sub for Ratio<BigInt>`: the exact difference, reduced.
#[verifier::external_body]
fn rat_sub(a: &Number, b: &Number) -> (r: Number)
    requires
        a.den() > 0,
        b.den() > 0,
    ensures
        same_ratio(r.num(), r.den(), a.num() * b.den() - b.num() * a.den(), a.den() * b.den()),
        r.den() > 0,
{
    let x = BigRational::new(BigInt::from_slice(if a.neg { Sign::Minus } else { Sign::Plus }, &a.numer), BigInt::from_slice(Sign::Plus, &a.denom));
    let y = BigRational::new(BigInt::from_slice(if b.neg { Sign::Minus } else { Sign::Plus }, &b.numer), BigInt::from_slice(Sign::Plus, &b.denom));
    let z = x - y;
    let (s, n) = z.numer().to_u32_digits();
    Number { neg: s == Sign::Minus, numer: n, denom: z.denom().to_u32_digits().1 }
}

/// Relies on `Mul for Ratio<BigInt>`: the exact product, reduced.
#[verifier::external_body]
fn rat_mul(a: &Number, b: &Number) -> (r: Number)
    requires
        a.den() > 0,
        b.den() > 0,
    ensures
        same_ratio(r.num(), r.den(), a.num() * b.num(), a.den() * b.den()),
        r.den() > 0,
{
    let x = BigRational::new(BigInt::from_slice(if a.neg { Sign::Minus } else { Sign::Plus }, &a.numer), BigInt::from_slice(Sign::Plus, &a.denom));
    let y = BigRational::new(BigInt::from_slice(if b.neg { Sign::Minus } else { Sign::Plus }, &b.numer), BigInt::from_slice(Sign::Plus, &b.denom));
    let z = x * y;
    let (s, n) = z.numer().to_u32_digits();
    Number { neg: s == Sign::Minus, numer: n, denom: z.denom().to_u32_digits().1 }
}

/// Relies on `Div for Ratio<BigInt>`: the exact quotient, reduced (it
/// panics on a zero divisor).
#[verifier::external_body]
fn rat_div(a: &Number, b: &Number) -> (r: Number)
    requires
        a.den() > 0,
        b.den() > 0,
        b.num() != 0,
    ensures
        same_ratio(r.num() * b.num(), r.den() * b.den(), a.num(), a.den()),
        r.den() > 0,
{
    let x = BigRational::new(BigInt::from_slice(if a.neg { Sign::Minus } else { Sign::Plus }, &a.numer), BigInt::from_slice(Sign::Plus, &a.denom));
    let y = BigRational::new(BigInt::from_slice(if b.neg { Sign::Minus } else { Sign::Plus }, &b.numer), BigInt::from_slice(Sign::Plus, &b.denom));
    let z = x / y;
    let (s, n) = z.numer().to_u32_digits();
    Number { neg: s == Sign::Minus, numer: n, denom: z.denom().to_u32_digits().1 }
}

/// Relies on `Ord for Ratio<BigInt>`: compares the exact values.
#[verifier::external_body]
fn rat_cmp(a: &Number, b: &Number) -> (r: core::cmp::Ordering)
    requires
        a.den() > 0,
        b.den() > 0,
    ensures
        (r == core::cmp::Ordering::Less) == (a.num() * b.den() < b.num() * a.den()),
        (r == core::cmp::Ordering::Equal) == (a.num() * b.den() == b.num() * a.den()),
        (r == core::cmp::Ordering::Greater) == (a.num() * b.den() > b.num() * a.den()),
{
    let x = BigRational::new(BigInt::from_slice(if a.neg { Sign::Minus } else { Sign::Plus }, &a.numer), BigInt::from_slice(Sign::Plus, &a.denom));
    let y = BigRational::new(BigInt::from_slice(if b.neg { Sign::Minus } else { Sign::Plus }, &b.numer), BigInt::from_slice(Sign::Plus, &b.denom));
    x.cmp(&y)
}

/// Relies on `Ratio::round`: nearest integer, half-way cases away from zero.
#[verifier::external_body]
fn rat_round(a: &Number) -> (r: Number)
    requires
        a.den() > 0,
    ensures
        r.den() == 1,
        r.num() == round_div(a.num(), a.den()),
{
    let x = BigRational::new(BigInt::from_slice(if a.neg { Sign::Minus } else { Sign::Plus }, &a.numer), BigInt::from_slice(Sign::Plus, &a.denom));
    let z = x.round();
    let (s, n) = z.numer().to_u32_digits();
    Number { neg: s == Sign::Minus, numer: n, denom: z.denom().to_u32_digits().1 }
}

/// Relies on `Ratio::ceil`: rounds toward plus infinity.
#[verifier::external_body]
fn rat_ceil(a: &Number) -> (r: Number)
    requires
        a.den() > 0,
    ensures
        r.den() == 1,
        r.num() == ceil_div(a.num(), a.den()),
{
    let x = BigRational::new(BigInt::from_slice(if a.neg { Sign::Minus } else { Sign::Plus }, &a.numer), BigInt::from_slice(Sign::Plus, &a.denom));
    let z = x.ceil();
    let (s, n) = z.numer().to_u32_digits();
    Number { neg: s == Sign::Minus, numer: n, denom: z.denom().to_u32_digits().1 }
}

/// Relies on `Ratio::floor`: rounds toward minus infinity.
#[verifier::external_body]
fn rat_floor(a: &Number) -> (r: Number)
    requires
        a.den() > 0,
    ensures
        r.den() == 1,
        r.num() == floor_div(a.num(), a.den()),
{
    let x = BigRational::new(BigInt::from_slice(if a.neg { Sign::Minus } else { Sign::Plus }, &a.numer), BigInt::from_slice(Sign::Plus, &a.denom));
    let z = x.floor();
    let (s, n) = z.numer().to_u32_digits();
    Number { neg: s == Sign::Minus, numer: n, denom: z.denom().to_u32_digits().1 }
}

/// Relies on `Div for &BigUint`: the floor quotient, as normalized digits.
#[verifier::external_body]
fn big_quot(a: &Vec<u32>, b: &Vec<u32>) -> (r: Vec<u32>)
    requires
        digits_val(b@) > 0,
    ensures
        digits_val(r@) == digits_val(a@) / digits_val(b@),
        canonical(r@),
{
    (&BigUint::from_slice(a) / &BigUint::from_slice(b)).to_u32_digits()
}

/// Relies on `Rem for &BigUint`: the remainder of the floor division, as
/// normalized digits.
#[verifier::external_body]
fn big_rem(a: &Vec<u32>, b: &Vec<u32>) -> (r: Vec<u32>)
    requires
        digits_val(b@) > 0,
    ensures
        digits_val(r@) == digits_val(a@) % digits_val(b@),
        canonical(r@),
{
    (&BigUint::from_slice(a) % &BigUint::from_slice(b)).to_u32_digits()
}

/// Relies on `Mul<u32> for BigUint`: the exact product, as normalized digits.
#[verifier::external_body]
fn big_mul_small(a: &Vec<u32>, k: u32) -> (r: Vec<u32>)
    ensures
        digits_val(r@) == digits_val(a@) * k,
        canonical(r@),
{
    (BigUint::from_slice(a) * k).to_u32_digits()
}

/// Relies on `Display for BigUint`: decimal digits without leading zeros.
#[verifier::external_body]
fn big_decimal(a: &Vec<u32>) -> (r: String)
    ensures
        r@ == decimal(digits_val(a@)),
{
    BigUint::from_slice(a).to_string()
}

/// Relies on `BigUint::to_str_radix(16)`: lowercase hexadecimal digits
/// without leading zeros.
#[verifier::external_body]
fn big_hex(a: &Vec<u32>) -> (r: String)
    ensures
        r@ == hex_digits(digits_val(a@)),
{
    BigUint::from_slice(a).to_str_radix(16)
}

/// Relies on `Add for BigUint`: the exact sum, as normalized digits.
#[verifier::external_body]
fn big_add(a: &Vec<u32>, b: &Vec<u32>) -> (r: Vec<u32>)
    ensures
        digits_val(r@) == digits_val(a@) + digits_val(b@),
        canonical(r@),
{
    (BigUint::from_slice(a) + BigUint::from_slice(b)).to_u32_digits()
}

proof fn lemma_scaled_parts(m: nat, t: nat, t2: nat, sum: nat, d: nat, d2: nat, n: nat)
    requires
        t == (m * 100000) * 100000,
        t2 == t * 2,
        sum == t2 + d,
        d2 == d * 2,
        n == sum / d2,
    ensures
        n == scaled(m, d),
{
    assert(t2 == 2 * m * (SCALE as nat)) by (nonlinear_arith)
        requires
            t == (m * 100000) * 100000,
            t2 == t * 2,
    ;
}

proof fn lemma_two_digits(s: Seq<u32>)
    requires
        s.len() == 2,
    ensures
        digits_val(s) == s[0] as nat + 0x1_0000_0000 * (s[1] as nat),
{
    lemma_one_digit(s.drop_first());
}

/// The value of a canonical digit vector below 2^64.
fn small_u64(a: &Vec<u32>) -> (r: u64)
    requires
        canonical(a@),
        digits_val(a@) < 0x1_0000_0000_0000_0000,
    ensures
        r as nat == digits_val(a@),
{
    proof {
        lemma_small_canonical(a@);
        if a.len() >= 3 {
            assert(a@.drop_first().last() == a@.last());
            lemma_canonical_positive(a@.drop_first());
        }
    }
    if a.len() == 0 {
        0
    } else if a.len() == 1 {
        a[0] as u64
    } else {
        proof {
            lemma_two_digits(a@);
        }
        a[0] as u64 + 0x1_0000_0000u64 * (a[1] as u64)
    }
}

/// Decimal text of `n`.
pub fn decimal_u64(n: u64) -> (r: String)
    ensures
        r@ == decimal(n as nat),
    decreases n,
{
    if n < 10 {
        let mut s = String::new();
        s.push(((n as u8) + 48) as char);
        s
    } else {
        let mut s = decimal_u64(n / 10);
        s.push((((n % 10) as u8) + 48) as char);
        s
    }
}

/// The `k` fraction digits of `f / 10^k`, without trailing zeros.
fn fraction_text(f: u64, k: usize) -> (r: String)
    requires
        f > 0,
    ensures
        r@ == frac_text(f as nat, k as nat),
{
    let ghost f0 = f;
    let ghost k0 = k;
    let mut f = f;
    let mut k = k;
    while k > 0 && f % 10 == 0
        invariant
            f > 0,
            frac_text(f as nat, k as nat) == frac_text(f0 as nat, k0 as nat),
        decreases k,
    {
        f = f / 10;
        k = k - 1;
    }
    let ds = decimal_u64(f);
    let len = ds.as_str().unicode_len();
    let mut out = String::new();
    let mut z: usize = 0;
    while len < k && z < k - len
        invariant
            out@ == zeros(z as int),
            len == decimal(f as nat).len(),
            len < k ==> z <= k - len,
            len >= k ==> z == 0,
        decreases k - z,
    {
        out.push('0');
        z = z + 1;
    }
    proof {
        assert(zeros(z as int) == zeros(k - decimal(f as nat).len()));
        assert(f > 0 && !(k > 0 && f % 10 == 0));
    }
    out.push_str(ds.as_str());
    out
}

} // verus!
