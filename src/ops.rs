//! Ordering and arithmetic between values.

use vstd::prelude::*;
use codemap::Span;
use core::cmp::Ordering;
use crate::equality::{conv_den, conv_num, lemma_conv_den_positive, lemma_ratio_sign};
use crate::error::{ErrorKind, SassError};
use crate::number::{Number, same_ratio};
use crate::unit::{Unit, built_from, convert};
use crate::value::Value;
use crate::render::inspect_text;

verus! {

#[derive(Clone, Copy, Debug, PartialEq, Eq, Structural)]
pub enum Op {
    Equal,
    NotEqual,
    GreaterThan,
    GreaterThanEqual,
    LessThan,
    LessThanEqual,
    Plus,
    Minus,
    Mul,
    Div,
    Rem,
    And,
    Or,
    Not,
}

impl Op {
    pub open spec fn text_spec(self) -> Seq<char> {
        match self {
            Op::Equal => "=="@,
            Op::NotEqual => "!="@,
            Op::GreaterThan => ">"@,
            Op::GreaterThanEqual => ">="@,
            Op::LessThan => "<"@,
            Op::LessThanEqual => "<="@,
            Op::Plus => "+"@,
            Op::Minus => "-"@,
            Op::Mul => "*"@,
            Op::Div => "/"@,
            Op::Rem => "%"@,
            Op::And => "and"@,
            Op::Or => "or"@,
            Op::Not => "not"@,
        }
    }

    pub fn text(self) -> (r: &'static str)
        ensures
            r@ == self.text_spec(),
    {
        match self {
            Op::Equal => "==",
            Op::NotEqual => "!=",
            Op::GreaterThan => ">",
            Op::GreaterThanEqual => ">=",
            Op::LessThan => "<",
            Op::LessThanEqual => "<=",
            Op::Plus => "+",
            Op::Minus => "-",
            Op::Mul => "*",
            Op::Div => "/",
            Op::Rem => "%",
            Op::And => "and",
            Op::Or => "or",
            Op::Not => "not",
        }
    }
}

/// Order of `a / b` against `c / d`, for positive `b`, `d`.
pub open spec fn ratio_order(a: int, b: int, c: int, d: int) -> Ordering {
    if a * d < c * b {
        Ordering::Less
    } else if a * d == c * b {
        Ordering::Equal
    } else {
        Ordering::Greater
    }
}

/// The right operand as a fraction in the left operand's unit: unchanged
/// when the units are the same or one is dimensionless, else converted.
pub open spec fn right_in_left_unit(u: Unit, n2: Number, u2: Unit) -> (int, int) {
    if u.same(u2) || u is Dimensionless || u2 is Dimensionless {
        (n2.num(), n2.den())
    } else {
        match (u, u2) {
            (Unit::Simple(a), Unit::Simple(b)) => (conv_num(n2, b, a), conv_den(n2, b, a)),
            _ => (n2.num(), n2.den()),
        }
    }
}

/// Order of two numbers with comparable units.
pub open spec fn dim_order(n: Number, u: Unit, n2: Number, u2: Unit) -> Ordering {
    let p = right_in_left_unit(u, n2, u2);
    ratio_order(n.num(), n.den(), p.0, p.1)
}

/// Message of an operation that is not defined on its operands.
pub open spec fn undefined_message(a: Value, op: Op, b: Value) -> Seq<char> {
    "Undefined operation \""@ + inspect_text(a) + seq![' '] + op.text_spec() + seq![' '] + inspect_text(b)
        + "\"."@
}

/// Message of operands whose units cannot be converted; the right unit
/// comes first.
pub open spec fn incompatible_message(u: Unit, u2: Unit) -> Seq<char> {
    "Incompatible units "@ + u2.text_spec() + " and "@ + u.text_spec() + seq!['.']
}

/// Both operands are numbers (not the not-a-number state).
pub open spec fn both_numbers(a: Value, b: Value) -> bool {
    a matches Value::Dimension(Some(_), _, _) && b matches Value::Dimension(Some(_), _, _)
}

/// The right number brought into the left unit, with the fraction it
/// stands for.
fn in_left_unit(u: &Unit, n2: &Number, u2: &Unit) -> (r: Number)
    requires
        u.comparable_spec(*u2),
    ensures
        right_in_left_unit(*u, *n2, *u2).1 > 0,
        same_ratio(r.num(), r.den(), right_in_left_unit(*u, *n2, *u2).0, right_in_left_unit(*u, *n2, *u2).1),
{
    proof {
        use_type_invariant(n2);
    }
    if u.same_as(u2) || u.is_none() || u2.is_none() {
        n2.clone()
    } else {
        match (u, u2) {
            (Unit::Simple(a), Unit::Simple(b)) => {
                proof {
                    lemma_conv_den_positive(*n2, *b, *a);
                }
                convert(n2, *b, *a)
            },
            _ => n2.clone(),
        }
    }
}

/// `a/b + c/d` is `a/b + p/q` when `c/d == p/q`.
proof fn lemma_sum_ratio(sn: int, sd: int, a: int, b: int, c: int, d: int, p: int, q: int)
    requires
        b > 0,
        d > 0,
        q > 0,
        c * q == p * d,
        sn * (b * d) == (a * d + c * b) * sd,
    ensures
        sn * (b * q) == (a * q + p * b) * sd,
{
    assert((sn * (b * d)) * q == ((a * d + c * b) * sd) * q);
    assert((sn * (b * d)) * q == d * (sn * (b * q))) by (nonlinear_arith);
    assert(((a * d + c * b) * sd) * q == sd * (a * d * q) + sd * b * (c * q)) by (nonlinear_arith);
    assert(sd * b * (c * q) == sd * b * (p * d));
    assert(sd * (a * d * q) == d * (a * q * sd)) by (nonlinear_arith);
    assert(sd * b * (p * d) == d * (p * b * sd)) by (nonlinear_arith);
    assert(d * (a * q * sd) + d * (p * b * sd) == d * ((a * q + p * b) * sd)) by (nonlinear_arith);
    vstd::arithmetic::mul::lemma_mul_equality_converse(d, sn * (b * q), (a * q + p * b) * sd);
}

impl Value {
    /// Orders two numbers with comparable units, converting the right one
    /// into the left unit. Anything else is an undefined operation.
    pub fn cmp(&self, other: &Value, span: Span, op: Op) -> (r: Result<Ordering, SassError>)
        ensures
            !both_numbers(*self, *other) ==> (r matches Err(e) && e.kind
                == ErrorKind::UndefinedOperation && e.message@ == undefined_message(*self, op, *other)),
            r matches Err(e) ==> e.span == span,
            (*self matches Value::Dimension(Some(n), u, _) ==> *other matches Value::Dimension(Some(n2), u2, _)
                ==> if u.comparable_spec(u2) {
                r == Ok::<Ordering, SassError>(dim_order(n, u, n2, u2))
            } else {
                (r matches Err(e) && e.kind == ErrorKind::IncompatibleUnits && e.message@
                    == incompatible_message(u, u2))
            }),
    {
        match (self, other) {
            (Value::Dimension(Some(n), u, _), Value::Dimension(Some(n2), u2, _)) => {
                if !u.comparable(u2) {
                    let mut s = String::from_str("Incompatible units ");
                    let t2 = u2.to_text();
                    s.push_str(t2.as_str());
                    s.push_str(" and ");
                    let t = u.to_text();
                    s.push_str(t.as_str());
                    s.push('.');
                    proof {
                        assert(s@ =~= incompatible_message(*u, *u2));
                    }
                    return Err(SassError::new(ErrorKind::IncompatibleUnits, s, span));
                }
                proof {
                    use_type_invariant(n);
                }
                let c = in_left_unit(u, n2, u2);
                proof {
                    use_type_invariant(&c);
                    let p = right_in_left_unit(*u, *n2, *u2);
                    lemma_ratio_sign(n.num(), n.den(), c.num(), c.den(), p.0, p.1);
                }
                Ok(n.compare(&c))
            },
            _ => Err(self.undefined_operation(other, span, op)),
        }
    }

    fn undefined_operation(&self, other: &Value, span: Span, op: Op) -> (e: SassError)
        ensures
            e.kind == ErrorKind::UndefinedOperation,
            e.span == span,
            e.message@ == undefined_message(*self, op, *other),
    {
        let mut s = String::from_str("Undefined operation \"");
        let a = match self.inspect(span) {
            Ok(t) => t,
            Err(e) => e.message,
        };
        s.push_str(a.as_str());
        s.push(' ');
        s.push_str(op.text());
        s.push(' ');
        let b = match other.inspect(span) {
            Ok(t) => t,
            Err(e) => e.message,
        };
        s.push_str(b.as_str());
        s.push_str("\".");
        proof {
            assert(s@ =~= undefined_message(*self, op, *other));
        }
        SassError::new(ErrorKind::UndefinedOperation, s, span)
    }

    /// Sum of two numbers with comparable units. The right operand is
    /// converted into the left unit; a dimensionless left operand takes the
    /// right unit. The left operand's flag is kept.
    pub fn add(&self, other: &Value, span: Span) -> (r: Result<Value, SassError>)
        ensures
            !both_numbers(*self, *other) ==> (r matches Err(e) && e.kind
                == ErrorKind::UndefinedOperation && e.message@ == undefined_message(*self, Op::Plus, *other)),
            r matches Err(e) ==> e.span == span,
            (*self matches Value::Dimension(Some(n), u, f) ==> *other matches Value::Dimension(Some(n2), u2, _)
                ==> if u.comparable_spec(u2) {
                (r matches Ok(Value::Dimension(Some(s), w, g)) && g == f && (if u is Dimensionless {
                    w.same(u2)
                } else {
                    w.same(u)
                }) && same_ratio(
                    s.num(),
                    s.den(),
                    n.num() * right_in_left_unit(u, n2, u2).1 + right_in_left_unit(u, n2, u2).0 * n.den(),
                    n.den() * right_in_left_unit(u, n2, u2).1,
                ))
            } else {
                (r matches Err(e) && e.kind == ErrorKind::IncompatibleUnits && e.message@
                    == incompatible_message(u, u2))
            }),
    {
        match (self, other) {
            (Value::Dimension(Some(n), u, f), Value::Dimension(Some(n2), u2, _)) => {
                if !u.comparable(u2) {
                    let mut s = String::from_str("Incompatible units ");
                    let t2 = u2.to_text();
                    s.push_str(t2.as_str());
                    s.push_str(" and ");
                    let t = u.to_text();
                    s.push_str(t.as_str());
                    s.push('.');
                    proof {
                        assert(s@ =~= incompatible_message(*u, *u2));
                    }
                    return Err(SassError::new(ErrorKind::IncompatibleUnits, s, span));
                }
                proof {
                    use_type_invariant(n);
                    use_type_invariant(n2);
                }
                let c = in_left_unit(u, n2, u2);
                let sum = n.add(&c);
                proof {
                    use_type_invariant(&c);
                    use_type_invariant(&sum);
                    let p = right_in_left_unit(*u, *n2, *u2);
                    lemma_sum_ratio(sum.num(), sum.den(), n.num(), n.den(), c.num(), c.den(), p.0, p.1);
                }
                let w = if u.is_none() {
                    u2.clone()
                } else {
                    u.clone()
                };
                Ok(Value::Dimension(Some(sum), w, *f))
            },
            _ => Err(self.undefined_operation(other, span, Op::Plus)),
        }
    }

    /// Product of two numbers: the numbers multiply and the unit records
    /// the factors of both in operand order. The left operand's flag is
    /// kept.
    pub fn mul(&self, other: &Value, span: Span) -> (r: Result<Value, SassError>)
        ensures
            !both_numbers(*self, *other) ==> (r matches Err(e) && e.kind
                == ErrorKind::UndefinedOperation && e.span == span && e.message@ == undefined_message(
                *self,
                Op::Mul,
                *other,
            )),
            (*self matches Value::Dimension(Some(n), u, f) ==> *other matches Value::Dimension(Some(n2), u2, _)
                ==> (r matches Ok(Value::Dimension(Some(p), w, g)) && g == f && built_from(
                w,
                u.numer_factors() + u2.numer_factors(),
                u.denom_factors() + u2.denom_factors(),
            ) && same_ratio(p.num(), p.den(), n.num() * n2.num(), n.den() * n2.den()))),
    {
        match (self, other) {
            (Value::Dimension(Some(n), u, f), Value::Dimension(Some(n2), u2, _)) => {
                let p = n.mul(n2);
                let w = u.mul(u2);
                Ok(Value::Dimension(Some(p), w, *f))
            },
            _ => Err(self.undefined_operation(other, span, Op::Mul)),
        }
    }
}

} // verus!
