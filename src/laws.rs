//! Laws that relate the library's operations.

use vstd::prelude::*;
use crate::equality::{args_list_eq, list_args_eq, value_eq};
use crate::escape::quoted_text;
use crate::value::{Brackets, ListSeparator, Spanned, Value, is_null_spec};
use crate::number::{Number, PRECISION, SCALE, abs, display_spec, frac_text, scaled, zeros};
use crate::text::{decimal, digit_char};

verus! {

/// A one-item argument list equals a one-item unbracketed comma list
/// exactly when the two items are equal.
pub proof fn lemma_single_arglist_eq(a: Vec<Spanned>, l: Vec<Value>)
    requires
        a.len() == 1,
        l.len() == 1,
    ensures
        value_eq(Value::ArgList(a), Value::List(l, ListSeparator::Comma, Brackets::Unbracketed))
            == value_eq(a@[0].node, l@[0]),
{
    assert(a@.drop_last().len() == 0);
    assert(args_list_eq(a@.drop_last(), l@.drop_last()));
}

/// A one-item unbracketed comma list equals a one-item argument list
/// exactly when the two items are equal.
pub proof fn lemma_single_list_arglist_eq(l: Vec<Value>, a: Vec<Spanned>)
    requires
        l.len() == 1,
        a.len() == 1,
    ensures
        value_eq(Value::List(l, ListSeparator::Comma, Brackets::Unbracketed), Value::ArgList(a))
            == value_eq(l@[0], a@[0].node),
{
    assert(l@.drop_last().len() == 0);
    assert(list_args_eq(l@.drop_last(), a@.drop_last()));
}

/// An empty list is null exactly when it has no brackets.
pub proof fn lemma_empty_list_null(v: Vec<Value>, sep: ListSeparator, b: Brackets)
    requires
        v.len() == 0,
    ensures
        is_null_spec(Value::List(v, sep, b)) == (b == Brackets::Unbracketed),
{
}

/// The quote character of a quoted string: double quotes unless the text
/// holds a double quote and no single quote; with both present the text is
/// double-quoted and its double quotes escaped.
pub proof fn lemma_quote_choice(s: Seq<char>)
    ensures
        s.contains('\'') && !s.contains('"') ==> quoted_text(s, false)[0] == '"',
        s.contains('"') && !s.contains('\'') ==> quoted_text(s, false)[0] == '\'',
        s.contains('"') && s.contains('\'') ==> quoted_text(s, false)[0] == '"',
        quoted_text(s, false)[0] == quoted_text(s, false).last(),
{
}

} // verus!

verus! {

/// Value of a string of decimal digits, most significant first.
pub open spec fn digits_value(s: Seq<char>) -> int
    decreases s.len(),
{
    if s.len() == 0 {
        0
    } else {
        digits_value(s.drop_last()) * 10 + ((s.last() as u32) as int - 48)
    }
}

pub open spec fn pow10(k: nat) -> int
    decreases k,
{
    if k == 0 {
        1
    } else {
        10 * pow10((k - 1) as nat)
    }
}

proof fn lemma_digit_char_value(q: nat)
    requires
        q < 10,
    ensures
        (digit_char(q) as u32) as int - 48 == q,
{
    assert(((q + 48) as u8) as char as u32 == (q + 48) as u32);
}

proof fn lemma_single_digit_value(c: char)
    ensures
        digits_value(seq![c]) == (c as u32) as int - 48,
{
    assert(seq![c].drop_last() =~= Seq::<char>::empty());
    assert(digits_value(Seq::<char>::empty()) == 0);
    assert(seq![c].last() == c);
}

proof fn lemma_decimal_value(n: nat)
    ensures
        digits_value(decimal(n)) == n,
        decimal(n).len() > 0,
    decreases n,
{
    if n < 10 {
        lemma_digit_char_value(n);
        lemma_single_digit_value(digit_char(n));
    } else {
        lemma_decimal_value(n / 10);
        lemma_digit_char_value(n % 10);
        assert(decimal(n).drop_last() =~= decimal(n / 10));
        assert(decimal(n).last() == digit_char(n % 10));
        vstd::arithmetic::div_mod::lemma_fundamental_div_mod(n as int, 10);
    }
}

proof fn lemma_pow10_positive(k: nat)
    ensures
        pow10(k) >= 1,
    decreases k,
{
    if k > 0 {
        lemma_pow10_positive((k - 1) as nat);
    }
}

/// A number below `10^k` has at most `k` decimal digits.
proof fn lemma_decimal_len(f: nat, k: nat)
    requires
        k >= 1,
        f < pow10(k),
    ensures
        decimal(f).len() <= k,
    decreases f,
{
    if f >= 10 {
        if k == 1 {
            assert(pow10(0) == 1);
            assert(false);
        }
        let p = pow10((k - 1) as nat);
        assert(f / 10 < p) by (nonlinear_arith)
            requires
                f < 10 * p,
        ;
        lemma_decimal_len(f / 10, (k - 1) as nat);
    }
}

/// Leading zeros add nothing to the value.
proof fn lemma_zeros_value(z: int, s: Seq<char>)
    ensures
        digits_value(zeros(z) + s) == digits_value(s),
        (zeros(z) + s).len() == (if z > 0 {
            z
        } else {
            0
        }) + s.len(),
    decreases z, s.len(),
{
    if s.len() > 0 {
        assert((zeros(z) + s).drop_last() =~= zeros(z) + s.drop_last());
        lemma_zeros_value(z, s.drop_last());
    } else {
        assert(zeros(z) + s =~= zeros(z));
        if z > 0 {
            lemma_zeros_value(z - 1, s);
            assert(zeros(z - 1) + s =~= zeros(z - 1));
            assert(zeros(z).drop_last() =~= zeros(z - 1));
        }
    }
}

/// The fraction digits read back as `f / 10^k`.
proof fn lemma_frac_text(f: nat, k: nat)
    requires
        0 < f < pow10(k),
    ensures
        frac_text(f, k).len() <= k,
        digits_value(frac_text(f, k)) * pow10((k - frac_text(f, k).len()) as nat) == f,
    decreases k,
{
    if k == 0 {
        assert(pow10(0) == 1);
        assert(false);
    }
    let t = frac_text(f, k);
    if f % 10 == 0 {
        let p = pow10((k - 1) as nat);
        assert(0 < f / 10 < p) by (nonlinear_arith)
            requires
                f < 10 * p,
                f > 0,
                f % 10 == 0,
        ;
        lemma_frac_text(f / 10, (k - 1) as nat);
        assert(t == frac_text(f / 10, (k - 1) as nat));
        let l = t.len();
        let q = pow10((k - 1 - l) as nat);
        assert(pow10((k - l) as nat) == 10 * q);
        vstd::arithmetic::div_mod::lemma_fundamental_div_mod(f as int, 10);
        assert(digits_value(t) * (10 * q) == f) by (nonlinear_arith)
            requires
                digits_value(t) * q == f / 10,
                f == 10 * (f / 10) + f % 10,
                f % 10 == 0,
        ;
    } else {
        lemma_decimal_len(f, k);
        lemma_decimal_value(f);
        lemma_zeros_value(k - decimal(f).len(), decimal(f));
        assert(pow10(0) == 1);
    }
}

/// Reading back the display text of a number: it is the integer part `w`,
/// then, when `f` is not zero, a point and at most ten digits that read as
/// `f / 10^10`. `w + f / 10^10` is the value rounded to ten fraction
/// digits, within half a unit in the tenth place.
pub proof fn lemma_display_round_trip(n: Number)
    requires
        n.den() > 0,
    ensures
        ({
            let m = abs(n.num());
            let d = n.den() as nat;
            let sc = SCALE as nat;
            let r = scaled(m, d);
            let w = r / sc;
            let f = r % sc;
            let t = frac_text(f, PRECISION as nat);
            &&& display_spec(n.num(), d) == (if n.num() < 0 && r > 0 {
                seq!['-']
            } else {
                seq![]
            }) + decimal(w) + (if f == 0 {
                seq![]
            } else {
                seq!['.'] + t
            })
            &&& digits_value(decimal(w)) == w
            &&& f > 0 ==> t.len() <= PRECISION && digits_value(t) * pow10((PRECISION - t.len()) as nat)
                == f
            &&& w * sc + f == r
            &&& 2 * abs(m * sc - r * d) <= d
        }),
{
    let m = abs(n.num());
    let d = n.den() as nat;
    let sc = SCALE as nat;
    let r = scaled(m, d);
    let w = r / sc;
    let f = r % sc;
    lemma_decimal_value(w);
    vstd::arithmetic::div_mod::lemma_fundamental_div_mod(r as int, sc as int);
    assert(pow10(PRECISION as nat) == sc) by {
        reveal_with_fuel(pow10, 11);
    }
    if f > 0 {
        lemma_frac_text(f, PRECISION as nat);
    }
    let x = 2 * m * sc + d;
    vstd::arithmetic::div_mod::lemma_fundamental_div_mod(x as int, (2 * d) as int);
    assert(2 * abs(m * sc - r * d) <= d) by (nonlinear_arith)
        requires
            x == 2 * m * sc + d,
            x == (2 * d) * r + x % (2 * d),
            0 <= x % (2 * d) < 2 * d,
            d > 0,
    ;
    let t = frac_text(f, PRECISION as nat);
    if f == 0 {
        assert(display_spec(n.num(), d) =~= (if n.num() < 0 && r > 0 {
            seq!['-']
        } else {
            seq![]
        }) + decimal(w) + seq![]);
    } else {
        assert(display_spec(n.num(), d) =~= (if n.num() < 0 && r > 0 {
            seq!['-']
        } else {
            seq![]
        }) + decimal(w) + (seq!['.'] + t));
    }
}

} // verus!
