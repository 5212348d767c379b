//! The two renderings of a value: CSS output and debug inspection.

use vstd::prelude::*;
use codemap::Span;
use crate::error::{ErrorKind, SassError};
use crate::escape::{quoted_text, unquoted_string, unquoted_text, visit_quoted_string};
use crate::number::display_spec;
use crate::value::{Brackets, ListSeparator, QuoteKind, Spanned, Value, is_null_spec};

verus! {

/// Separator between list items; compressed output drops the space after a
/// comma.
pub open spec fn sep_text(sep: ListSeparator, compressed: bool) -> Seq<char> {
    match sep {
        ListSeparator::Space => seq![' '],
        ListSeparator::Comma => if compressed {
            seq![',']
        } else {
            seq![',', ' ']
        },
    }
}

/// The parts with `sep` between each two.
pub open spec fn join(parts: Seq<Seq<char>>, sep: Seq<char>) -> Seq<char>
    decreases parts.len(),
{
    if parts.len() == 0 {
        seq![]
    } else if parts.len() == 1 {
        parts[0]
    } else {
        join(parts.drop_last(), sep) + sep + parts.last()
    }
}

pub open spec fn bracketed(body: Seq<char>, b: Brackets) -> Seq<char> {
    if b == Brackets::Bracketed {
        seq!['['] + body + seq![']']
    } else {
        body
    }
}

/// The value has a CSS form.
pub open spec fn css_ok(v: Value) -> bool
    decreases v,
{
    match v {
        Value::Dimension(_, u, _) => !u.is_compound(),
        Value::Mapping(_) => false,
        Value::FunctionRef(_) => false,
        Value::List(vals, _, _) => items_ok(vals@),
        Value::ArgList(a) => a.len() > 0 && args_ok(a@),
        _ => true,
    }
}

/// Every value that is not null has a CSS form.
pub open spec fn items_ok(s: Seq<Value>) -> bool
    decreases s,
{
    s.len() == 0 || (items_ok(s.drop_last()) && (is_null_spec(s.last()) || css_ok(s.last())))
}

pub open spec fn args_ok(s: Seq<Spanned>) -> bool
    decreases s,
{
    s.len() == 0 || (args_ok(s.drop_last()) && (is_null_spec(s.last().node) || css_ok(
        s.last().node,
    )))
}

/// Message of a value with no CSS form: the first offending item of a
/// list, else the value's own text followed by " isn't a valid CSS value.".
pub open spec fn css_error_message(v: Value) -> Seq<char>
    decreases v,
{
    match v {
        Value::Dimension(Some(n), u, _) => display_spec(n.num(), n.den() as nat) + u.text_spec()
            + " isn't a valid CSS value."@,
        Value::Dimension(None, u, _) => "NaN"@ + u.text_spec() + " isn't a valid CSS value."@,
        Value::Mapping(_) => inspect_text(v) + " isn't a valid CSS value."@,
        Value::FunctionRef(_) => inspect_text(v) + " isn't a valid CSS value."@,
        Value::List(vals, _, _) => items_error(vals@),
        Value::ArgList(a) => if a.len() == 0 {
            "() isn't a valid CSS value."@
        } else {
            args_error(a@)
        },
        _ => seq![],
    }
}

/// Message of the first value that is not null and has no CSS form.
pub open spec fn items_error(s: Seq<Value>) -> Seq<char>
    decreases s,
{
    if s.len() == 0 {
        seq![]
    } else if !items_ok(s.drop_last()) {
        items_error(s.drop_last())
    } else {
        css_error_message(s.last())
    }
}

pub open spec fn args_error(s: Seq<Spanned>) -> Seq<char>
    decreases s,
{
    if s.len() == 0 {
        seq![]
    } else if !args_ok(s.drop_last()) {
        args_error(s.drop_last())
    } else {
        css_error_message(s.last().node)
    }
}

/// CSS text of a value that has one.
pub open spec fn css_text(v: Value, c: bool) -> Seq<char>
    decreases v,
{
    match v {
        Value::Important => "!important"@,
        Value::Dimension(Some(n), u, _) => display_spec(n.num(), n.den() as nat) + u.text_spec(),
        Value::Dimension(None, u, _) => "NaN"@ + u.text_spec(),
        Value::List(vals, sep, b) => bracketed(join(css_parts(vals@, c), sep_text(sep, c)), b),
        Value::Color(col) => col.repr@,
        Value::String(s, QuoteKind::Unquoted) => unquoted_text(s@),
        Value::String(s, QuoteKind::Quoted) => quoted_text(s@, false),
        Value::True => "true"@,
        Value::False => "false"@,
        Value::Null => seq![],
        Value::ArgList(a) => join(css_arg_parts(a@, c), sep_text(ListSeparator::Comma, c)),
        _ => seq![],
    }
}

/// CSS texts of the values that are not null.
pub open spec fn css_parts(s: Seq<Value>, c: bool) -> Seq<Seq<char>>
    decreases s,
{
    if s.len() == 0 {
        seq![]
    } else if is_null_spec(s.last()) {
        css_parts(s.drop_last(), c)
    } else {
        css_parts(s.drop_last(), c).push(css_text(s.last(), c))
    }
}

pub open spec fn css_arg_parts(s: Seq<Spanned>, c: bool) -> Seq<Seq<char>>
    decreases s,
{
    if s.len() == 0 {
        seq![]
    } else if is_null_spec(s.last().node) {
        css_arg_parts(s.drop_last(), c)
    } else {
        css_arg_parts(s.drop_last(), c).push(css_text(s.last().node, c))
    }
}

/// Debug text of a value.
pub open spec fn inspect_text(v: Value) -> Seq<char>
    decreases v,
{
    match v {
        Value::List(vals, sep, b) => if vals.len() == 0 {
            if b == Brackets::Bracketed {
                "[]"@
            } else {
                "()"@
            }
        } else if vals.len() == 1 {
            let x = inspect_text(vals@[0]);
            if sep == ListSeparator::Comma {
                if b == Brackets::Bracketed {
                    seq!['['] + x + seq![',', ']']
                } else {
                    seq!['('] + x + seq![',', ')']
                }
            } else {
                bracketed(x, b)
            }
        } else {
            bracketed(join(inspect_parts(vals@), sep_text(sep, false)), b)
        },
        Value::FunctionRef(f) => "get-function(\""@ + f.name@ + "\")"@,
        Value::Null => "null"@,
        Value::Mapping(m) => seq!['('] + join(inspect_pairs(m.pairs@), ", "@) + seq![')'],
        Value::Dimension(Some(n), u, _) => display_spec(n.num(), n.den() as nat) + u.text_spec(),
        Value::Dimension(None, u, _) => "NaN"@ + u.text_spec(),
        Value::ArgList(a) => if a.len() == 0 {
            "()"@
        } else if a.len() == 1 {
            seq!['('] + join(inspect_arg_parts(a@), ", "@) + seq![',', ')']
        } else {
            join(inspect_arg_parts(a@), ", "@)
        },
        _ => css_text(v, false),
    }
}

/// Debug texts of all the values.
pub open spec fn inspect_parts(s: Seq<Value>) -> Seq<Seq<char>>
    decreases s,
{
    if s.len() == 0 {
        seq![]
    } else {
        inspect_parts(s.drop_last()).push(inspect_text(s.last()))
    }
}

/// Debug texts of the argument values that are not null.
pub open spec fn inspect_arg_parts(s: Seq<Spanned>) -> Seq<Seq<char>>
    decreases s,
{
    if s.len() == 0 {
        seq![]
    } else if is_null_spec(s.last().node) {
        inspect_arg_parts(s.drop_last())
    } else {
        inspect_arg_parts(s.drop_last()).push(inspect_text(s.last().node))
    }
}

/// `key: value` for each pair.
pub open spec fn inspect_pairs(s: Seq<(Value, Value)>) -> Seq<Seq<char>>
    decreases s,
{
    if s.len() == 0 {
        seq![]
    } else {
        inspect_pairs(s.drop_last()).push(
            inspect_text(s.last().0) + seq![':', ' '] + inspect_text(s.last().1),
        )
    }
}

pub proof fn lemma_join_push(parts: Seq<Seq<char>>, p: Seq<char>, sep: Seq<char>)
    ensures
        join(parts.push(p), sep) == if parts.len() == 0 {
            p
        } else {
            join(parts, sep) + sep + p
        },
{
    assert(parts.push(p).drop_last() =~= parts);
}

/// Appends `part` to a joined text of `parts`.
fn push_part(out: &mut String, part: &str, sep: &str, first: bool, parts: Ghost<Seq<Seq<char>>>)
    requires
        old(out)@ == join(parts@, sep@),
        first == (parts@.len() == 0),
    ensures
        final(out)@ == join(parts@.push(part@), sep@),
{
    proof {
        lemma_join_push(parts@, part@, sep@);
    }
    if !first {
        out.push_str(sep);
    }
    out.push_str(part);
}

fn separator(sep: ListSeparator, compressed: bool) -> (r: &'static str)
    ensures
        r@ == sep_text(sep, compressed),
{
    proof {
        reveal_strlit(" ");
        reveal_strlit(",");
        reveal_strlit(", ");
    }
    match sep {
        ListSeparator::Space => " ",
        ListSeparator::Comma => if compressed {
            ","
        } else {
            ", "
        },
    }
}

impl Value {
    /// The CSS output of the value. Maps, function references, compound
    /// units and empty argument lists have none.
    pub fn to_css_string(&self, span: Span, is_compressed: bool) -> (r: Result<String, SassError>)
        ensures
            r is Ok <==> css_ok(*self),
            r is Ok ==> r->Ok_0@ == css_text(*self, is_compressed),
            r is Err ==> r->Err_0.kind == ErrorKind::InvalidCss && r->Err_0.span == span,
            r is Err ==> r->Err_0.message@ == css_error_message(*self),
        decreases self, 2int,
    {
        match self {
            Value::Important => {
                proof {
                    reveal_strlit("!important");
                }
                Ok(String::from_str("!important"))
            },
            Value::Dimension(num, unit, _) => {
                let mut s = match num {
                    Some(n) => n.to_text(),
                    None => String::from_str("NaN"),
                };
                let u = unit.to_text();
                s.push_str(u.as_str());
                match unit {
                    crate::unit::Unit::Mul(..) | crate::unit::Unit::Div(..) => {
                        s.push_str(" isn't a valid CSS value.");
                        Err(SassError::new(ErrorKind::InvalidCss, s, span))
                    },
                    _ => Ok(s),
                }
            },
            Value::Mapping(..) | Value::FunctionRef(..) => {
                let mut s = match self.inspect(span) {
                    Ok(t) => t,
                    Err(e) => e.message,
                };
                s.push_str(" isn't a valid CSS value.");
                Err(SassError::new(ErrorKind::InvalidCss, s, span))
            },
            Value::List(vals, sep, brackets) => {
                let sep_str = separator(*sep, is_compressed);
                let mut out = String::new();
                let ghost mut parts: Seq<Seq<char>> = seq![];
                let mut first = true;
                let mut i: usize = 0;
                proof {
                    assert(forall|j: int| 0 <= j < vals.len() ==> decreases_to!(*self => #[trigger] vals@[j]));
                }
                while i < vals.len()
                    invariant
                        i <= vals.len(),
                        items_ok(vals@.subrange(0, i as int)),
                        parts == css_parts(vals@.subrange(0, i as int), is_compressed),
                        out@ == join(parts, sep_str@),
                        first == (parts.len() == 0),
                        css_ok(*self) == items_ok(vals@),
                        css_error_message(*self) == items_error(vals@),
                        css_text(*self, is_compressed) == bracketed(join(css_parts(vals@, is_compressed), sep_str@), *brackets),
                        forall|j: int| 0 <= j < vals.len() ==> decreases_to!(*self => #[trigger] vals@[j]),
                    decreases vals.len() - i,
                {
                    proof {
                        assert(vals@.subrange(0, i + 1).drop_last() =~= vals@.subrange(0, i as int));
                    }
                    if !vals[i].is_null() {
                        match vals[i].to_css_string(span, is_compressed) {
                            Ok(t) => {
                                push_part(&mut out, t.as_str(), sep_str, first, Ghost(parts));
                                first = false;
                                proof {
                                    parts = parts.push(t@);
                                }
                            },
                            Err(e) => {
                                proof {
                                    lemma_items_ok_prefix(vals@, i + 1);
                                    lemma_items_error(vals@, i + 1);
                                }
                                return Err(e);
                            },
                        }
                    }
                    i = i + 1;
                }
                proof {
                    assert(vals@.subrange(0, i as int) =~= vals@);
                }
                if *brackets == Brackets::Bracketed {
                    let mut s = String::from_str("[");
                    s.push_str(out.as_str());
                    s.push(']');
                    proof {
                        reveal_strlit("[");
                        assert(s@ =~= css_text(*self, is_compressed));
                    }
                    Ok(s)
                } else {
                    Ok(out)
                }
            },
            Value::Color(c) => Ok(c.repr.clone()),
            Value::String(string, QuoteKind::Unquoted) => Ok(unquoted_string(string.as_str())),
            Value::String(string, QuoteKind::Quoted) => {
                let mut buf = String::new();
                visit_quoted_string(&mut buf, false, string.as_str());
                proof {
                    assert(buf@ =~= quoted_text(string@, false));
                }
                Ok(buf)
            },
            Value::True => {
                proof {
                    reveal_strlit("true");
                }
                Ok(String::from_str("true"))
            },
            Value::False => {
                proof {
                    reveal_strlit("false");
                }
                Ok(String::from_str("false"))
            },
            Value::Null => Ok(String::new()),
            Value::ArgList(args) => {
                if args.len() == 0 {
                    return Err(SassError::new(ErrorKind::InvalidCss, String::from_str("() isn't a valid CSS value."), span));
                }
                let sep_str = separator(ListSeparator::Comma, is_compressed);
                let mut out = String::new();
                let ghost mut parts: Seq<Seq<char>> = seq![];
                let mut first = true;
                let mut i: usize = 0;
                proof {
                    assert(forall|j: int| 0 <= j < args.len() ==> decreases_to!(*self => #[trigger] args@[j].node));
                }
                while i < args.len()
                    invariant
                        i <= args.len(),
                        args_ok(args@.subrange(0, i as int)),
                        parts == css_arg_parts(args@.subrange(0, i as int), is_compressed),
                        out@ == join(parts, sep_str@),
                        first == (parts.len() == 0),
                        css_ok(*self) == args_ok(args@),
                        css_error_message(*self) == args_error(args@),
                        css_text(*self, is_compressed) == join(css_arg_parts(args@, is_compressed), sep_str@),
                        forall|j: int| 0 <= j < args.len() ==> decreases_to!(*self => #[trigger] args@[j].node),
                    decreases args.len() - i,
                {
                    proof {
                        assert(args@.subrange(0, i + 1).drop_last() =~= args@.subrange(0, i as int));
                    }
                    if !args[i].node.is_null() {
                        match args[i].node.to_css_string(span, is_compressed) {
                            Ok(t) => {
                                push_part(&mut out, t.as_str(), sep_str, first, Ghost(parts));
                                first = false;
                                proof {
                                    parts = parts.push(t@);
                                }
                            },
                            Err(e) => {
                                proof {
                                    lemma_args_ok_prefix(args@, i + 1);
                                    lemma_args_error(args@, i + 1);
                                }
                                return Err(e);
                            },
                        }
                    }
                    i = i + 1;
                }
                proof {
                    assert(args@.subrange(0, i as int) =~= args@);
                }
                Ok(out)
            },
        }
    }

    /// The debug form of the value; every value has one.
    pub fn inspect(&self, span: Span) -> (r: Result<String, SassError>)
        ensures
            r is Ok,
            r is Ok ==> r->Ok_0@ == inspect_text(*self),
        decreases self, 1int,
    {
        match self {
            Value::List(vals, sep, brackets) => {
                if vals.len() == 0 {
                    proof {
                        reveal_strlit("[]");
                        reveal_strlit("()");
                    }
                    return Ok(
                        if *brackets == Brackets::Bracketed {
                            String::from_str("[]")
                        } else {
                            String::from_str("()")
                        },
                    );
                }
                proof {
                    assert(forall|j: int| 0 <= j < vals.len() ==> decreases_to!(*self => #[trigger] vals@[j]));
                }
                if vals.len() == 1 {
                    let x = inspected(&vals[0], span);
                    let mut s = String::new();
                    if *brackets == Brackets::Bracketed {
                        s.push('[');
                    } else if *sep == ListSeparator::Comma {
                        s.push('(');
                    }
                    s.push_str(x.as_str());
                    if *sep == ListSeparator::Comma {
                        s.push(',');
                    }
                    if *brackets == Brackets::Bracketed {
                        s.push(']');
                    } else if *sep == ListSeparator::Comma {
                        s.push(')');
                    }
                    proof {
                        assert(s@ =~= inspect_text(*self));
                    }
                    return Ok(s);
                }
                let sep_str = separator(*sep, false);
                let mut out = String::new();
                let ghost mut parts: Seq<Seq<char>> = seq![];
                let mut i: usize = 0;
                while i < vals.len()
                    invariant
                        i <= vals.len(),
                        vals.len() > 1,
                        parts == inspect_parts(vals@.subrange(0, i as int)),
                        out@ == join(parts, sep_str@),
                        parts.len() == i,
                        inspect_text(*self) == bracketed(join(inspect_parts(vals@), sep_str@), *brackets),
                        forall|j: int| 0 <= j < vals.len() ==> decreases_to!(*self => #[trigger] vals@[j]),
                    decreases vals.len() - i,
                {
                    proof {
                        assert(vals@.subrange(0, i + 1).drop_last() =~= vals@.subrange(0, i as int));
                    }
                    let t = inspected(&vals[i], span);
                    push_part(&mut out, t.as_str(), sep_str, i == 0, Ghost(parts));
                    proof {
                        parts = parts.push(t@);
                    }
                    i = i + 1;
                }
                proof {
                    assert(vals@.subrange(0, i as int) =~= vals@);
                }
                if *brackets == Brackets::Bracketed {
                    let mut s = String::new();
                    s.push('[');
                    s.push_str(out.as_str());
                    s.push(']');
                    proof {
                        assert(s@ =~= inspect_text(*self));
                    }
                    Ok(s)
                } else {
                    Ok(out)
                }
            },
            Value::FunctionRef(f) => {
                let mut s = String::from_str("get-function(\"");
                s.push_str(f.name.as_str());
                s.push_str("\")");
                Ok(s)
            },
            Value::Null => {
                proof {
                    reveal_strlit("null");
                }
                Ok(String::from_str("null"))
            },
            Value::Mapping(m) => {
                let pairs = &m.pairs;
                let mut out = String::new();
                let ghost mut parts: Seq<Seq<char>> = seq![];
                let mut i: usize = 0;
                proof {
                    reveal_strlit(", ");
                    assert(forall|j: int| 0 <= j < pairs.len() ==> decreases_to!(*self => #[trigger] pairs@[j].0));
                    assert(forall|j: int| 0 <= j < pairs.len() ==> decreases_to!(*self => #[trigger] pairs@[j].1));
                }
                while i < pairs.len()
                    invariant
                        i <= pairs.len(),
                        parts == inspect_pairs(pairs@.subrange(0, i as int)),
                        out@ == join(parts, ", "@),
                        parts.len() == i,
                        inspect_text(*self) == seq!['('] + join(inspect_pairs(pairs@), ", "@) + seq![')'],
                        forall|j: int| 0 <= j < pairs.len() ==> decreases_to!(*self => #[trigger] pairs@[j].0),
                        forall|j: int| 0 <= j < pairs.len() ==> decreases_to!(*self => #[trigger] pairs@[j].1),
                    decreases pairs.len() - i,
                {
                    proof {
                        assert(pairs@.subrange(0, i + 1).drop_last() =~= pairs@.subrange(0, i as int));
                    }
                    let mut t = inspected(&pairs[i].0, span);
                    t.push_str(": ");
                    let v = inspected(&pairs[i].1, span);
                    t.push_str(v.as_str());
                    proof {
                        reveal_strlit(": ");
                        assert(t@ =~= inspect_text(pairs@[i as int].0) + seq![':', ' '] + inspect_text(pairs@[i as int].1));
                    }
                    push_part(&mut out, t.as_str(), ", ", i == 0, Ghost(parts));
                    proof {
                        parts = parts.push(t@);
                    }
                    i = i + 1;
                }
                proof {
                    assert(pairs@.subrange(0, i as int) =~= pairs@);
                }
                let mut s = String::new();
                s.push('(');
                s.push_str(out.as_str());
                s.push(')');
                proof {
                    assert(s@ =~= inspect_text(*self));
                }
                Ok(s)
            },
            Value::Dimension(num, unit, _) => {
                let mut s = match num {
                    Some(n) => n.to_text(),
                    None => String::from_str("NaN"),
                };
                let u = unit.to_text();
                s.push_str(u.as_str());
                Ok(s)
            },
            Value::ArgList(args) => {
                if args.len() == 0 {
                    proof {
                        reveal_strlit("()");
                    }
                    return Ok(String::from_str("()"));
                }
                let mut out = String::new();
                let ghost mut parts: Seq<Seq<char>> = seq![];
                let mut first = true;
                let mut i: usize = 0;
                proof {
                    reveal_strlit(", ");
                    assert(forall|j: int| 0 <= j < args.len() ==> decreases_to!(*self => #[trigger] args@[j].node));
                }
                while i < args.len()
                    invariant
                        i <= args.len(),
                        parts == inspect_arg_parts(args@.subrange(0, i as int)),
                        out@ == join(parts, ", "@),
                        first == (parts.len() == 0),
                        *self is ArgList && self->ArgList_0@ == args@,
                        forall|j: int| 0 <= j < args.len() ==> decreases_to!(*self => #[trigger] args@[j].node),
                    decreases args.len() - i,
                {
                    proof {
                        assert(args@.subrange(0, i + 1).drop_last() =~= args@.subrange(0, i as int));
                    }
                    if !args[i].node.is_null() {
                        let t = inspected(&args[i].node, span);
                        push_part(&mut out, t.as_str(), ", ", first, Ghost(parts));
                        first = false;
                        proof {
                            parts = parts.push(t@);
                        }
                    }
                    i = i + 1;
                }
                proof {
                    assert(args@.subrange(0, i as int) =~= args@);
                }
                if args.len() == 1 {
                    let mut s = String::new();
                    s.push('(');
                    s.push_str(out.as_str());
                    s.push(',');
                    s.push(')');
                    proof {
                        assert(s@ =~= inspect_text(*self));
                    }
                    Ok(s)
                } else {
                    Ok(out)
                }
            },
            _ => Ok(self.scalar_css()),
        }
    }

    /// CSS text of the variants whose text does not depend on other values.
    fn scalar_css(&self) -> (r: String)
        requires
            self is Important || self is True || self is False || self is Color || self is String,
        ensures
            r@ == css_text(*self, false),
    {
        proof {
            reveal_strlit("!important");
            reveal_strlit("true");
            reveal_strlit("false");
        }
        match self {
            Value::Important => String::from_str("!important"),
            Value::True => String::from_str("true"),
            Value::False => String::from_str("false"),
            Value::Color(c) => c.repr.clone(),
            Value::String(string, QuoteKind::Unquoted) => unquoted_string(string.as_str()),
            Value::String(string, QuoteKind::Quoted) => {
                let mut buf = String::new();
                visit_quoted_string(&mut buf, false, string.as_str());
                proof {
                    assert(buf@ =~= quoted_text(string@, false));
                }
                buf
            },
            _ => String::new(),
        }
    }
}

/// The debug form of `v`, which always exists.
fn inspected(v: &Value, span: Span) -> (r: String)
    ensures
        r@ == inspect_text(*v),
    decreases v, 2int,
{
    match v.inspect(span) {
        Ok(t) => t,
        Err(e) => e.message,
    }
}

proof fn lemma_items_ok_prefix(s: Seq<Value>, n: int)
    requires
        0 < n <= s.len(),
        !is_null_spec(s[n - 1]),
        !css_ok(s[n - 1]),
    ensures
        !items_ok(s),
    decreases s.len(),
{
    if n < s.len() {
        lemma_items_ok_prefix(s.drop_last(), n);
    }
}

proof fn lemma_items_error(s: Seq<Value>, n: int)
    requires
        0 < n <= s.len(),
        items_ok(s.subrange(0, n - 1)),
        !is_null_spec(s[n - 1]),
        !css_ok(s[n - 1]),
    ensures
        items_error(s) == css_error_message(s[n - 1]),
    decreases s.len(),
{
    if n < s.len() {
        assert(s.drop_last().subrange(0, n - 1) =~= s.subrange(0, n - 1));
        lemma_items_ok_prefix(s.drop_last(), n);
        lemma_items_error(s.drop_last(), n);
    } else {
        assert(s.drop_last() =~= s.subrange(0, n - 1));
    }
}

proof fn lemma_args_error(s: Seq<Spanned>, n: int)
    requires
        0 < n <= s.len(),
        args_ok(s.subrange(0, n - 1)),
        !is_null_spec(s[n - 1].node),
        !css_ok(s[n - 1].node),
    ensures
        args_error(s) == css_error_message(s[n - 1].node),
    decreases s.len(),
{
    if n < s.len() {
        assert(s.drop_last().subrange(0, n - 1) =~= s.subrange(0, n - 1));
        lemma_args_ok_prefix(s.drop_last(), n);
        lemma_args_error(s.drop_last(), n);
    } else {
        assert(s.drop_last() =~= s.subrange(0, n - 1));
    }
}

proof fn lemma_args_ok_prefix(s: Seq<Spanned>, n: int)
    requires
        0 < n <= s.len(),
        !is_null_spec(s[n - 1].node),
        !css_ok(s[n - 1].node),
    ensures
        !args_ok(s),
    decreases s.len(),
{
    if n < s.len() {
        lemma_args_ok_prefix(s.drop_last(), n);
    }
}

} // verus!
