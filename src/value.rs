//! The value tree: its variants, nullity, truthiness, kind names, and the
//! small transforms on it.

use vstd::prelude::*;
use codemap::Span;
use crate::number::Number;
use crate::unit::Unit;

verus! {

#[derive(Clone, Copy, Debug, PartialEq, Eq, Structural)]
pub enum ListSeparator {
    Space,
    Comma,
}

#[derive(Clone, Copy, Debug, PartialEq, Eq, Structural)]
pub enum Brackets {
    Unbracketed,
    Bracketed,
}

#[derive(Clone, Copy, Debug, PartialEq, Eq, Structural)]
pub enum QuoteKind {
    Quoted,
    Unquoted,
}

/// A color, known here only by its own text.
#[derive(Clone, Debug)]
pub struct Color {
    pub repr: String,
}

/// A reference to a function, by name and identity.
#[derive(Clone, Debug)]
pub struct SassFunction {
    pub name: String,
    pub id: u64,
}

/// A value with the location it came from.
#[derive(Debug)]
pub struct Spanned {
    pub node: Value,
    pub span: Span,
}

/// Key/value pairs in insertion order. `insert` keeps the keys distinct
/// under value equality.
#[derive(Debug)]
pub struct SassMap {
    pub pairs: Vec<(Value, Value)>,
}

#[derive(Debug)]
pub enum Value {
    Important,
    True,
    False,
    Null,
    /// An absent number is the not-a-number state. The flag is carried
    /// along unread.
    Dimension(Option<Number>, Unit, bool),
    List(Vec<Value>, ListSeparator, Brackets),
    Color(Color),
    String(String, QuoteKind),
    Mapping(SassMap),
    ArgList(Vec<Spanned>),
    FunctionRef(SassFunction),
}

/// Every value of the sequence is null.
pub open spec fn all_null(s: Seq<Value>) -> bool
    decreases s,
{
    if s.len() == 0 {
        true
    } else {
        all_null(s.drop_last()) && is_null_spec(s.last())
    }
}

/// Every argument value of the sequence is null.
pub open spec fn all_args_null(s: Seq<Spanned>) -> bool
    decreases s,
{
    if s.len() == 0 {
        true
    } else {
        all_args_null(s.drop_last()) && is_null_spec(s.last().node)
    }
}

pub open spec fn is_null_spec(v: Value) -> bool
    decreases v,
{
    match v {
        Value::Null => true,
        Value::String(s, QuoteKind::Unquoted) => s@.len() == 0,
        Value::List(vals, _, b) => if vals.len() == 0 && b == Brackets::Bracketed {
            false
        } else {
            all_null(vals@)
        },
        Value::ArgList(args) => args.len() > 0 && all_args_null(args@),
        _ => false,
    }
}

/// Values that `as_list` makes of a map: one space-separated pair each.
pub open spec fn pair_list(k: Value, v: Value, l: Value) -> bool {
    match l {
        Value::List(items, sep, b) => sep == ListSeparator::Space && b == Brackets::Unbracketed
            && items@ == seq![k, v],
        _ => false,
    }
}

impl Value {
    pub fn is_null(&self) -> (r: bool)
        ensures
            r == is_null_spec(*self),
        decreases self,
    {
        match self {
            Value::Null => true,
            Value::String(s, QuoteKind::Unquoted) => s.as_str().unicode_len() == 0,
            Value::List(vals, _, b) => {
                if vals.len() == 0 && *b == Brackets::Bracketed {
                    return false;
                }
                let mut i: usize = 0;
                proof {
                    assert(forall|j: int| 0 <= j < vals.len() ==> decreases_to!(*self => #[trigger] vals@[j]));
                }
                while i < vals.len()
                    invariant
                        i <= vals.len(),
                        all_null(vals@.subrange(0, i as int)),
                        is_null_spec(*self) == all_null(vals@),
                        forall|j: int| 0 <= j < vals.len() ==> decreases_to!(*self => #[trigger] vals@[j]),
                    decreases vals.len() - i,
                {
                    proof {
                        assert(vals@.subrange(0, i + 1).drop_last() =~= vals@.subrange(0, i as int));
                    }
                    if !vals[i].is_null() {
                        proof {
                            lemma_all_null_prefix(vals@, i + 1);

                        }
                        return false;
                    }
                    i = i + 1;
                }
                proof {
                    assert(vals@.subrange(0, i as int) =~= vals@);
                }
                true
            },
            Value::ArgList(args) => {
                if args.len() == 0 {
                    return false;
                }
                let mut i: usize = 0;
                proof {
                    assert(forall|j: int| 0 <= j < args.len() ==> decreases_to!(*self => #[trigger] args@[j].node));
                }
                while i < args.len()
                    invariant
                        i <= args.len(),
                        all_args_null(args@.subrange(0, i as int)),
                        is_null_spec(*self) == all_args_null(args@),
                        forall|j: int| 0 <= j < args.len() ==> decreases_to!(*self => #[trigger] args@[j].node),
                    decreases args.len() - i,
                {
                    proof {
                        assert(args@.subrange(0, i + 1).drop_last() =~= args@.subrange(0, i as int));
                    }
                    if !args[i].node.is_null() {
                        proof {
                            lemma_all_args_null_prefix(args@, i + 1);
                        }
                        return false;
                    }
                    i = i + 1;
                }
                proof {
                    assert(args@.subrange(0, i as int) =~= args@);
                }
                true
            },
            _ => false,
        }
    }

    /// Everything is true but `null` and `false`.
    pub fn is_true(&self) -> (r: bool)
        ensures
            r == !(*self is Null || *self is False),
    {
        match self {
            Value::Null | Value::False => false,
            _ => true,
        }
    }

    /// Strings lose their quotes, in lists too; other values stay as they are.
    pub fn unquote(self) -> (r: Self)
        ensures
            unquoted_of(self, r),
        decreases self,
    {
        match self {
            Value::String(s, q) => {
                let r = Value::String(s, QuoteKind::Unquoted);
                proof {
                    assert(self == Value::String(s, q));
                    reveal_with_fuel(unquoted_of, 2);
                    assert(unquoted_of(self, r));
                }
                r
            },
            Value::List(v0, sep, b) => {
                let mut v = v0;
                let mut out: Vec<Value> = Vec::new();
                let ghost orig = v@;
                proof {
                    assert(forall|j: int| 0 <= j < orig.len() ==> decreases_to!(self => #[trigger] orig[j]));
                }
                while v.len() > 0
                    invariant
                        out.len() + v.len() == orig.len(),
                        orig == v0@,
                        forall|j: int| 0 <= j < orig.len() ==> decreases_to!(self => #[trigger] orig[j]),
                        v@ == orig.subrange(out.len() as int, orig.len() as int),
                        all_unquoted(orig.subrange(0, out.len() as int), out@),
                    decreases v.len(),
                {
                    let x = v.remove(0);
                    proof {
                        assert(x == orig[out.len() as int]);
                    }
                    let ghost prev = out@;
                    out.push(x.unquote());
                    proof {
                        assert(v@ =~= orig.subrange(out.len() as int, orig.len() as int));
                        assert(orig.subrange(0, out.len() as int).drop_last() =~= orig.subrange(0, prev.len() as int));
                        assert(out@.drop_last() =~= prev);
                    }
                }
                proof {
                    assert(orig.subrange(0, out.len() as int) =~= orig);
                }
                Value::List(out, sep, b)
            },
            v => v,
        }
    }

    /// The value with a location.
    pub fn span(self, span: Span) -> (r: Spanned)
        ensures
            r.node == self,
            r.span == span,
    {
        Spanned { node: self, span }
    }

    /// The name of the value's kind, as type errors print it.
    pub fn kind(&self) -> (r: &'static str)
        ensures
            r@ == kind_spec(*self),
    {
        match self {
            Value::Color(..) => "color",
            Value::String(..) | Value::Important => "string",
            Value::Dimension(..) => "number",
            Value::List(..) => "list",
            Value::FunctionRef(..) => "function",
            Value::ArgList(..) => "arglist",
            Value::True | Value::False => "bool",
            Value::Null => "null",
            Value::Mapping(..) => "map",
        }
    }

    pub fn is_color(&self) -> (r: bool)
        ensures
            r == (*self is Color),
    {
        match self {
            Value::Color(..) => true,
            _ => false,
        }
    }

    pub fn bool(b: bool) -> (r: Self)
        ensures
            b ==> r is True,
            !b ==> r is False,
    {
        if b {
            Value::True
        } else {
            Value::False
        }
    }

    pub fn is_quoted_string(&self) -> (r: bool)
        ensures
            r == (*self matches Value::String(_, q) && q == QuoteKind::Quoted),
    {
        match self {
            Value::String(_, QuoteKind::Quoted) => true,
            _ => false,
        }
    }

    /// The value as a sequence: a list's items, a map's key/value pairs as
    /// two-item space-separated lists, an argument list's values, or the
    /// value alone.
    pub fn as_list(self) -> (r: Vec<Value>)
        ensures
            (self matches Value::List(v, _, _) ==> r@ == v@),
            (self matches Value::ArgList(a) ==> r@ == a@.map_values(|x: Spanned| x.node)),
            (self matches Value::Mapping(m) ==> r.len() == m.pairs.len() && forall|i: int|
                0 <= i < r.len() ==> pair_list(m.pairs@[i].0, m.pairs@[i].1, #[trigger] r@[i])),
            !(self is List || self is ArgList || self is Mapping) ==> r@ == seq![self],
    {
        match self {
            Value::List(v, ..) => v,
            Value::Mapping(m) => {
                let mut pairs = m.pairs;
                let ghost orig = pairs@;
                let mut out: Vec<Value> = Vec::new();
                while pairs.len() > 0
                    invariant
                        out.len() + pairs.len() == orig.len(),
                        pairs@ == orig.subrange(out.len() as int, orig.len() as int),
                        forall|i: int|
                            0 <= i < out.len() ==> pair_list(orig[i].0, orig[i].1, #[trigger] out@[i]),
                    decreases pairs.len(),
                {
                    let (k, v) = pairs.remove(0);
                    let ghost n = out.len() as int;
                    let mut items: Vec<Value> = Vec::new();
                    items.push(k);
                    items.push(v);
                    proof {
                        assert(items@ =~= seq![orig[n].0, orig[n].1]);
                    }
                    out.push(Value::List(items, ListSeparator::Space, Brackets::Unbracketed));
                    proof {
                        assert(pairs@ =~= orig.subrange(out.len() as int, orig.len() as int));
                    }
                }
                out
            },
            Value::ArgList(a) => {
                let mut a = a;
                let ghost orig = a@;
                let mut out: Vec<Value> = Vec::new();
                while a.len() > 0
                    invariant
                        out.len() + a.len() == orig.len(),
                        a@ == orig.subrange(out.len() as int, orig.len() as int),
                        out@ == orig.subrange(0, out.len() as int).map_values(|x: Spanned| x.node),
                    decreases a.len(),
                {
                    let x = a.remove(0);
                    out.push(x.node);
                    proof {
                        assert(a@ =~= orig.subrange(out.len() as int, orig.len() as int));
                        assert(out@ =~= orig.subrange(0, out.len() as int).map_values(
                            |x: Spanned| x.node,
                        ));
                    }
                }
                proof {
                    assert(orig.subrange(0, orig.len() as int) =~= orig);
                }
                out
            },
            v => {
                let mut out: Vec<Value> = Vec::new();
                out.push(v);
                proof {
                    assert(out@ =~= seq![v]);
                }
                out
            },
        }
    }
}

/// `r` is `v` with every string, in lists too, unquoted.
pub open spec fn unquoted_of(v: Value, r: Value) -> bool
    decreases v,
{
    match v {
        Value::String(s, _) => r == Value::String(s, QuoteKind::Unquoted),
        Value::List(vals, sep, b) => match r {
            Value::List(w, sep2, b2) => sep2 == sep && b2 == b && all_unquoted(vals@, w@),
            _ => false,
        },
        _ => r == v,
    }
}

/// `t` is `s` with each value unquoted.
pub open spec fn all_unquoted(s: Seq<Value>, t: Seq<Value>) -> bool
    decreases s,
{
    s.len() == t.len() && (s.len() == 0 || (all_unquoted(s.drop_last(), t.drop_last())
        && unquoted_of(s.last(), t.last())))
}

pub open spec fn kind_spec(v: Value) -> Seq<char> {
    match v {
        Value::Color(..) => "color"@,
        Value::String(..) | Value::Important => "string"@,
        Value::Dimension(..) => "number"@,
        Value::List(..) => "list"@,
        Value::FunctionRef(..) => "function"@,
        Value::ArgList(..) => "arglist"@,
        Value::True | Value::False => "bool"@,
        Value::Null => "null"@,
        Value::Mapping(..) => "map"@,
    }
}

proof fn lemma_all_null_prefix(s: Seq<Value>, n: int)
    requires
        0 < n <= s.len(),
        !is_null_spec(s[n - 1]),
    ensures
        !all_null(s),
    decreases s.len(),
{
    if n < s.len() {
        lemma_all_null_prefix(s.drop_last(), n);
    }
}

proof fn lemma_all_args_null_prefix(s: Seq<Spanned>, n: int)
    requires
        0 < n <= s.len(),
        !is_null_spec(s[n - 1].node),
    ensures
        !all_args_null(s),
    decreases s.len(),
{
    if n < s.len() {
        lemma_all_args_null_prefix(s.drop_last(), n);
    }
}

} // verus!
