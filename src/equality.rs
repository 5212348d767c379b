//! Equality of values: unit-aware for numbers, structural for lists, and
//! asymmetric between argument lists and comma lists.

use vstd::prelude::*;
use crate::number::{Number, same_ratio};
use crate::unit::{SimpleUnit, Unit, convert};
use crate::value::{Brackets, ListSeparator, Spanned, Value};

verus! {

/// Numerator of `x`, measured in `from`, rescaled to `to`.
pub open spec fn conv_num(x: Number, from: SimpleUnit, to: SimpleUnit) -> int {
    x.num() * from.factor_num() * to.factor_den()
}

/// Denominator of `x`, measured in `from`, rescaled to `to`.
pub open spec fn conv_den(x: Number, from: SimpleUnit, to: SimpleUnit) -> int {
    x.den() * from.factor_den() * to.factor_num()
}

/// Equality of two numbers with units: the units must be comparable; the
/// same units compare the numbers, a dimensionless against a dimensioned
/// one is never equal, and otherwise the right number is converted into
/// the left unit.
pub open spec fn dim_eq(n: Number, u: Unit, n2: Number, u2: Unit) -> bool {
    if !u.comparable_spec(u2) {
        false
    } else if u.same(u2) {
        n.same_value(n2)
    } else if u is Dimensionless || u2 is Dimensionless {
        false
    } else {
        match (u, u2) {
            (Unit::Simple(a), Unit::Simple(b)) => same_ratio(
                n.num(),
                n.den(),
                conv_num(n2, b, a),
                conv_den(n2, b, a),
            ),
            _ => false,
        }
    }
}

pub open spec fn value_eq(a: Value, b: Value) -> bool
    decreases a,
{
    match a {
        Value::String(s1, _) => match b {
            Value::String(s2, _) => s1@ == s2@,
            _ => false,
        },
        Value::Dimension(Some(n), u, _) => match b {
            Value::Dimension(Some(n2), u2, _) => dim_eq(n, u, n2, u2),
            _ => false,
        },
        Value::Dimension(None, _, _) => false,
        Value::List(l1, s1, b1) => match b {
            Value::List(l2, s2, b2) => s1 == s2 && b1 == b2 && list_eq(l1@, l2@),
            Value::ArgList(a2) => s1 == ListSeparator::Comma && b1 == Brackets::Unbracketed
                && list_args_eq(l1@, a2@),
            _ => false,
        },
        Value::Null => b is Null,
        Value::True => b is True,
        Value::False => b is False,
        Value::Important => b is Important,
        Value::FunctionRef(f1) => match b {
            Value::FunctionRef(f2) => f1.name@ == f2.name@ && f1.id == f2.id,
            _ => false,
        },
        Value::Mapping(m1) => match b {
            Value::Mapping(m2) => pairs_eq(m1.pairs@, m2.pairs@),
            _ => false,
        },
        Value::Color(c1) => match b {
            Value::Color(c2) => c1.repr@ == c2.repr@,
            _ => false,
        },
        Value::ArgList(a1) => match b {
            Value::ArgList(a2) => args_eq(a1@, a2@),
            Value::List(l2, ListSeparator::Comma, Brackets::Unbracketed) => args_list_eq(a1@, l2@),
            _ => false,
        },
    }
}

/// Same length, and values equal position by position.
pub open spec fn list_eq(s: Seq<Value>, t: Seq<Value>) -> bool
    decreases s,
{
    s.len() == t.len() && (s.len() == 0 || (list_eq(s.drop_last(), t.drop_last()) && value_eq(
        s.last(),
        t.last(),
    )))
}

pub open spec fn args_eq(s: Seq<Spanned>, t: Seq<Spanned>) -> bool
    decreases s,
{
    s.len() == t.len() && (s.len() == 0 || (args_eq(s.drop_last(), t.drop_last()) && value_eq(
        s.last().node,
        t.last().node,
    )))
}

pub open spec fn args_list_eq(s: Seq<Spanned>, t: Seq<Value>) -> bool
    decreases s,
{
    s.len() == t.len() && (s.len() == 0 || (args_list_eq(s.drop_last(), t.drop_last())
        && value_eq(s.last().node, t.last())))
}

pub open spec fn list_args_eq(s: Seq<Value>, t: Seq<Spanned>) -> bool
    decreases s,
{
    s.len() == t.len() && (s.len() == 0 || (list_args_eq(s.drop_last(), t.drop_last())
        && value_eq(s.last(), t.last().node)))
}

/// Same length, and keys and values equal position by position.
pub open spec fn pairs_eq(s: Seq<(Value, Value)>, t: Seq<(Value, Value)>) -> bool
    decreases s,
{
    s.len() == t.len() && (s.len() == 0 || (pairs_eq(s.drop_last(), t.drop_last()) && value_eq(
        s.last().0,
        t.last().0,
    ) && value_eq(s.last().1, t.last().1)))
}

/// `a/b` against `c/d` has the sign of `a/b` against `p/q` when `c/d == p/q`.
pub proof fn lemma_ratio_sign(a: int, b: int, c: int, d: int, p: int, q: int)
    requires
        b > 0,
        d > 0,
        q > 0,
        c * q == p * d,
    ensures
        (a * d == c * b) == (a * q == p * b),
        (a * d < c * b) == (a * q < p * b),
        (a * d > c * b) == (a * q > p * b),
{
    assert((a * q - p * b) * d == (a * d - c * b) * q) by (nonlinear_arith)
        requires
            c * q == p * d,
    ;
    let x = a * q - p * b;
    let y = a * d - c * b;
    assert((x == 0) == (y == 0) && (x < 0) == (y < 0)) by (nonlinear_arith)
        requires
            x * d == y * q,
            d > 0,
            q > 0,
    ;
}

pub proof fn lemma_conv_den_positive(x: Number, from: SimpleUnit, to: SimpleUnit)
    requires
        x.den() > 0,
    ensures
        conv_den(x, from, to) > 0,
{
    let a = x.den();
    let b = from.factor_den();
    let c = to.factor_num();
    assert(b > 0 && c > 0);
    assert(a * b * c > 0) by (nonlinear_arith)
        requires
            a > 0,
            b > 0,
            c > 0,
    ;
}

/// Equality of numbers with units, as `dim_eq` states it.
pub fn dimensions_equal(n: &Number, u: &Unit, n2: &Number, u2: &Unit) -> (r: bool)
    ensures
        r == dim_eq(*n, *u, *n2, *u2),
{
    proof {
        use_type_invariant(n);
        use_type_invariant(n2);
    }
    if !u.comparable(u2) {
        false
    } else if u.same_as(u2) {
        n.equals(n2)
    } else if u.is_none() || u2.is_none() {
        false
    } else {
        match (u, u2) {
            (Unit::Simple(a), Unit::Simple(b)) => {
                let c = convert(n2, *b, *a);
                proof {
                    use_type_invariant(&c);
                    lemma_conv_den_positive(*n2, *b, *a);
                    lemma_ratio_sign(n.num(), n.den(), c.num(), c.den(), conv_num(*n2, *b, *a),
                        conv_den(*n2, *b, *a));
                }
                n.equals(&c)
            },
            _ => false,
        }
    }
}

impl Value {
    pub fn equals(&self, other: &Value) -> (r: bool)
        ensures
            r == value_eq(*self, *other),
        decreases self,
    {
        match self {
            Value::String(s1, _) => match other {
                Value::String(s2, _) => s1.eq(s2),
                _ => false,
            },
            Value::Dimension(Some(n), u, _) => match other {
                Value::Dimension(Some(n2), u2, _) => dimensions_equal(n, u, n2, u2),
                _ => false,
            },
            Value::Dimension(None, _, _) => false,
            Value::List(l1, s1, b1) => match other {
                Value::List(l2, s2, b2) => {
                    if *s1 != *s2 || *b1 != *b2 || l1.len() != l2.len() {
                        return false;
                    }
                    let mut acc = true;
                    let mut i: usize = 0;
                    proof {
                        assert(forall|j: int| 0 <= j < l1.len() ==> decreases_to!(*self => #[trigger] l1@[j]));
                    }
                    while i < l1.len()
                        invariant
                            i <= l1.len(),
                            l1.len() == l2.len(),
                            acc == list_eq(l1@.subrange(0, i as int), l2@.subrange(0, i as int)),
                            forall|j: int| 0 <= j < l1.len() ==> decreases_to!(*self => #[trigger] l1@[j]),
                        decreases l1.len() - i,
                    {
                        proof {
                            assert(l1@.subrange(0, i + 1).drop_last() =~= l1@.subrange(0, i as int));
                            assert(l2@.subrange(0, i + 1).drop_last() =~= l2@.subrange(0, i as int));
                        }
                        acc = acc && l1[i].equals(&l2[i]);
                        i = i + 1;
                    }
                    proof {
                        assert(l1@.subrange(0, i as int) =~= l1@);
                        assert(l2@.subrange(0, i as int) =~= l2@);
                    }
                    acc
                },
                Value::ArgList(a2) => {
                    if *s1 != ListSeparator::Comma || *b1 != Brackets::Unbracketed || l1.len()
                        != a2.len() {
                        return false;
                    }
                    let mut acc = true;
                    let mut i: usize = 0;
                    proof {
                        assert(forall|j: int| 0 <= j < l1.len() ==> decreases_to!(*self => #[trigger] l1@[j]));
                    }
                    while i < l1.len()
                        invariant
                            i <= l1.len(),
                            l1.len() == a2.len(),
                            acc == list_args_eq(l1@.subrange(0, i as int), a2@.subrange(0, i as int)),
                            forall|j: int| 0 <= j < l1.len() ==> decreases_to!(*self => #[trigger] l1@[j]),
                        decreases l1.len() - i,
                    {
                        proof {
                            assert(l1@.subrange(0, i + 1).drop_last() =~= l1@.subrange(0, i as int));
                            assert(a2@.subrange(0, i + 1).drop_last() =~= a2@.subrange(0, i as int));
                        }
                        acc = acc && l1[i].equals(&a2[i].node);
                        i = i + 1;
                    }
                    proof {
                        assert(l1@.subrange(0, i as int) =~= l1@);
                        assert(a2@.subrange(0, i as int) =~= a2@);
                    }
                    acc
                },
                _ => false,
            },
            Value::Null => other.is_null_variant(),
            Value::True => match other {
                Value::True => true,
                _ => false,
            },
            Value::False => match other {
                Value::False => true,
                _ => false,
            },
            Value::Important => match other {
                Value::Important => true,
                _ => false,
            },
            Value::FunctionRef(f1) => match other {
                Value::FunctionRef(f2) => f1.name.eq(&f2.name) && f1.id == f2.id,
                _ => false,
            },
            Value::Mapping(m1) => match other {
                Value::Mapping(m2) => {
                    let p1 = &m1.pairs;
                    let p2 = &m2.pairs;
                    if p1.len() != p2.len() {
                        return false;
                    }
                    let mut acc = true;
                    let mut i: usize = 0;
                    proof {
                        assert(forall|j: int| 0 <= j < p1.len() ==> decreases_to!(*self => #[trigger] p1@[j].0));
                        assert(forall|j: int| 0 <= j < p1.len() ==> decreases_to!(*self => #[trigger] p1@[j].1));
                    }
                    while i < p1.len()
                        invariant
                            i <= p1.len(),
                            p1.len() == p2.len(),
                            acc == pairs_eq(p1@.subrange(0, i as int), p2@.subrange(0, i as int)),
                            forall|j: int| 0 <= j < p1.len() ==> decreases_to!(*self => #[trigger] p1@[j].0),
                            forall|j: int| 0 <= j < p1.len() ==> decreases_to!(*self => #[trigger] p1@[j].1),
                        decreases p1.len() - i,
                    {
                        proof {
                            assert(p1@.subrange(0, i + 1).drop_last() =~= p1@.subrange(0, i as int));
                            assert(p2@.subrange(0, i + 1).drop_last() =~= p2@.subrange(0, i as int));
                        }
                        acc = acc && p1[i].0.equals(&p2[i].0) && p1[i].1.equals(&p2[i].1);
                        i = i + 1;
                    }
                    proof {
                        assert(p1@.subrange(0, i as int) =~= p1@);
                        assert(p2@.subrange(0, i as int) =~= p2@);
                    }
                    acc
                },
                _ => false,
            },
            Value::Color(c1) => match other {
                Value::Color(c2) => c1.repr.eq(&c2.repr),
                _ => false,
            },
            Value::ArgList(a1) => match other {
                Value::ArgList(a2) => {
                    if a1.len() != a2.len() {
                        return false;
                    }
                    let mut acc = true;
                    let mut i: usize = 0;
                    proof {
                        assert(forall|j: int| 0 <= j < a1.len() ==> decreases_to!(*self => #[trigger] a1@[j].node));
                    }
                    while i < a1.len()
                        invariant
                            i <= a1.len(),
                            a1.len() == a2.len(),
                            acc == args_eq(a1@.subrange(0, i as int), a2@.subrange(0, i as int)),
                            forall|j: int| 0 <= j < a1.len() ==> decreases_to!(*self => #[trigger] a1@[j].node),
                        decreases a1.len() - i,
                    {
                        proof {
                            assert(a1@.subrange(0, i + 1).drop_last() =~= a1@.subrange(0, i as int));
                            assert(a2@.subrange(0, i + 1).drop_last() =~= a2@.subrange(0, i as int));
                        }
                        acc = acc && a1[i].node.equals(&a2[i].node);
                        i = i + 1;
                    }
                    proof {
                        assert(a1@.subrange(0, i as int) =~= a1@);
                        assert(a2@.subrange(0, i as int) =~= a2@);
                    }
                    acc
                },
                Value::List(l2, ListSeparator::Comma, Brackets::Unbracketed) => {
                    if a1.len() != l2.len() {
                        return false;
                    }
                    let mut acc = true;
                    let mut i: usize = 0;
                    proof {
                        assert(forall|j: int| 0 <= j < a1.len() ==> decreases_to!(*self => #[trigger] a1@[j].node));
                    }
                    while i < a1.len()
                        invariant
                            i <= a1.len(),
                            a1.len() == l2.len(),
                            acc == args_list_eq(a1@.subrange(0, i as int), l2@.subrange(0, i as int)),
                            forall|j: int| 0 <= j < a1.len() ==> decreases_to!(*self => #[trigger] a1@[j].node),
                        decreases a1.len() - i,
                    {
                        proof {
                            assert(a1@.subrange(0, i + 1).drop_last() =~= a1@.subrange(0, i as int));
                            assert(l2@.subrange(0, i + 1).drop_last() =~= l2@.subrange(0, i as int));
                        }
                        acc = acc && a1[i].node.equals(&l2[i]);
                        i = i + 1;
                    }
                    proof {
                        assert(a1@.subrange(0, i as int) =~= a1@);
                        assert(l2@.subrange(0, i as int) =~= l2@);
                    }
                    acc
                },
                _ => false,
            },
        }
    }

    /// The negation of `equals`.
    pub fn not_equals(&self, other: &Value) -> (r: bool)
        ensures
            r == !value_eq(*self, *other),
    {
        !self.equals(other)
    }

    fn is_null_variant(&self) -> (r: bool)
        ensures
            r == (*self is Null),
    {
        match self {
            Value::Null => true,
            _ => false,
        }
    }
}

impl PartialEq for Value {
    fn eq(&self, other: &Value) -> (r: bool) {
        self.equals(other)
    }
}

impl vstd::std_specs::cmp::PartialEqSpecImpl for Value {
    open spec fn obeys_eq_spec() -> bool {
        true
    }

    open spec fn eq_spec(&self, other: &Value) -> bool {
        value_eq(*self, *other)
    }
}

} // verus!

verus! {

/// Index of the first key of `s` equal to `k`.
pub open spec fn find_key(s: Seq<(Value, Value)>, k: Value) -> Option<int>
    decreases s.len(),
{
    if s.len() == 0 {
        None
    } else {
        match find_key(s.drop_last(), k) {
            Some(i) => Some(i),
            None => if value_eq(s.last().0, k) {
                Some(s.len() - 1)
            } else {
                None
            },
        }
    }
}

proof fn lemma_find_key_bounds(s: Seq<(Value, Value)>, k: Value)
    ensures
        find_key(s, k) matches Some(i) ==> 0 <= i < s.len() && value_eq(s[i].0, k),
    decreases s.len(),
{
    if s.len() > 0 {
        lemma_find_key_bounds(s.drop_last(), k);
    }
}

impl crate::value::SassMap {
    pub fn new() -> (r: Self)
        ensures
            r.pairs@.len() == 0,
    {
        crate::value::SassMap { pairs: Vec::new() }
    }

    /// Binds `key` to `value`: the pair whose key equals `key` keeps its
    /// key and takes the new value, or the pair is appended when there is
    /// none.
    pub fn insert(&mut self, key: Value, value: Value)
        ensures
            match find_key(old(self).pairs@, key) {
                Some(i) => final(self).pairs@ == old(self).pairs@.update(
                    i,
                    (old(self).pairs@[i].0, value),
                ),
                None => final(self).pairs@ == old(self).pairs@.push((key, value)),
            },
    {
        let ghost pairs = self.pairs@;
        let mut i: usize = 0;
        let mut found = false;
        while !found && i < self.pairs.len()
            invariant
                pairs == self.pairs@,
                i <= pairs.len(),
                !found ==> find_key(pairs.subrange(0, i as int), key) is None,
                found ==> i < pairs.len() && find_key(pairs, key) == Some(i as int),
            decreases pairs.len() - i, if found { 0int } else { 1int },
        {
            proof {
                assert(pairs.subrange(0, i + 1).drop_last() =~= pairs.subrange(0, i as int));
            }
            if self.pairs[i].0.equals(&key) {
                proof {
                    lemma_find_key_prefix(pairs, key, i + 1);
                }
                found = true;
            } else {
                i = i + 1;
            }
        }
        if found {
            let (k, _) = self.pairs.remove(i);
            self.pairs.insert(i, (k, value));
            proof {
                assert(self.pairs@ =~= pairs.update(i as int, (pairs[i as int].0, value)));
            }
        } else {
            proof {
                assert(pairs.subrange(0, i as int) =~= pairs);
            }
            self.pairs.push((key, value));
        }
    }
}

/// A first match in a prefix is the first match of the whole.
proof fn lemma_find_key_prefix(s: Seq<(Value, Value)>, k: Value, n: int)
    requires
        0 < n <= s.len(),
        find_key(s.subrange(0, n - 1), k) is None,
        value_eq(s[n - 1].0, k),
    ensures
        find_key(s, k) == Some(n - 1),
    decreases s.len(),
{
    if n < s.len() {
        assert(s.drop_last().subrange(0, n - 1) =~= s.subrange(0, n - 1));
        lemma_find_key_prefix(s.drop_last(), k, n);
    } else {
        assert(s.drop_last() =~= s.subrange(0, n - 1));
    }
}

} // verus!
