//! The selector-string bridge: which values have the shape of a selector,
//! and the selector text they flatten to.

use vstd::prelude::*;
use codemap::Span;
use crate::error::{ErrorKind, SassError};
use crate::render::{inspect_text, join, sep_text};
use crate::value::{ListSeparator, QuoteKind, Value};

verus! {

/// A string; or a non-empty space list of strings; or a non-empty comma
/// list whose items are strings or selector-shaped space lists.
pub open spec fn selector_shaped(v: Value) -> bool
    decreases v,
{
    match v {
        Value::String(..) => true,
        Value::List(items, sep, _) => items.len() > 0 && (if sep == ListSeparator::Comma {
            complex_items(items@)
        } else {
            strings_only(items@)
        }),
        _ => false,
    }
}

pub open spec fn strings_only(s: Seq<Value>) -> bool
    decreases s,
{
    s.len() == 0 || (strings_only(s.drop_last()) && s.last() is String)
}

pub open spec fn complex_items(s: Seq<Value>) -> bool
    decreases s,
{
    s.len() == 0 || (complex_items(s.drop_last()) && (s.last() is String || (s.last() matches Value::List(_, sep, _) && sep == ListSeparator::Space && selector_shaped(s.last()))))
}

/// Selector text of a selector-shaped value.
pub open spec fn selector_text(v: Value) -> Seq<char>
    decreases v,
{
    match v {
        Value::String(t, _) => t@,
        Value::List(items, sep, _) => join(selector_parts(items@), sep_text(sep, false)),
        _ => seq![],
    }
}

pub open spec fn selector_parts(s: Seq<Value>) -> Seq<Seq<char>>
    decreases s,
{
    if s.len() == 0 {
        seq![]
    } else {
        selector_parts(s.drop_last()).push(selector_text(s.last()))
    }
}

proof fn lemma_prefix_fails(s: Seq<Value>, n: int, comma: bool)
    requires
        0 < n <= s.len(),
        comma ==> !(s[n - 1] is String || (s[n - 1] matches Value::List(_, sep, _) && sep
            == ListSeparator::Space && selector_shaped(s[n - 1]))),
        !comma ==> !(s[n - 1] is String),
    ensures
        comma ==> !complex_items(s),
        !comma ==> !strings_only(s),
    decreases s.len(),
{
    if n < s.len() {
        lemma_prefix_fails(s.drop_last(), n, comma);
    }
}

impl Value {
    /// The selector text of the value, if it has the shape of a selector.
    pub fn selector_string(&self) -> (r: Option<String>)
        ensures
            r is Some <==> selector_shaped(*self),
            r matches Some(t) ==> t@ == selector_text(*self),
        decreases self,
    {
        match self {
            Value::String(text, _) => Some(text.clone()),
            Value::List(items, sep, _) => {
                if items.len() == 0 {
                    return None;
                }
                let comma = *sep == ListSeparator::Comma;
                let sep_str: &str = if comma {
                    ", "
                } else {
                    " "
                };
                proof {
                    reveal_strlit(", ");
                    reveal_strlit(" ");
                    assert(sep_str@ == sep_text(*sep, false));
                    assert(forall|j: int| 0 <= j < items.len() ==> decreases_to!(*self => #[trigger] items@[j]));
                }
                let mut out = String::new();
                let ghost mut parts: Seq<Seq<char>> = seq![];
                let mut i: usize = 0;
                while i < items.len()
                    invariant
                        i <= items.len(),
                        comma == (*sep == ListSeparator::Comma),
                        selector_shaped(*self) == (if comma {
                            complex_items(items@)
                        } else {
                            strings_only(items@)
                        }),
                        comma ==> complex_items(items@.subrange(0, i as int)),
                        !comma ==> strings_only(items@.subrange(0, i as int)),
                        parts == selector_parts(items@.subrange(0, i as int)),
                        parts.len() == i,
                        out@ == join(parts, sep_str@),
                        forall|j: int| 0 <= j < items.len() ==> decreases_to!(*self => #[trigger] items@[j]),
                    decreases items.len() - i,
                {
                    proof {
                        assert(items@.subrange(0, i + 1).drop_last() =~= items@.subrange(0, i as int));
                        crate::render::lemma_join_push(parts, selector_text(items@[i as int]), sep_str@);
                    }
                    let part = match &items[i] {
                        Value::String(text, _) => text.clone(),
                        Value::List(_, ListSeparator::Space, _) if comma => {
                            match items[i].selector_string() {
                                Some(t) => t,
                                None => {
                                    proof {
                                        lemma_prefix_fails(items@, i + 1, comma);
                                    }
                                    return None;
                                },
                            }
                        },
                        _ => {
                            proof {
                                lemma_prefix_fails(items@, i + 1, comma);
                            }
                            return None;
                        },
                    };
                    if i > 0 {
                        out.push_str(sep_str);
                    }
                    out.push_str(part.as_str());
                    proof {
                        parts = parts.push(part@);
                    }
                    i = i + 1;
                }
                proof {
                    assert(items@.subrange(0, i as int) =~= items@);
                }
                Some(out)
            },
            _ => None,
        }
    }

    /// The selector text that the selector parser is handed for this
    /// value; a value of another shape is an error that names the
    /// argument `name`.
    pub fn to_selector(&self, name: &str, span: Span) -> (r: Result<String, SassError>)
        ensures
            r is Ok <==> selector_shaped(*self),
            r matches Ok(t) ==> t@ == selector_text(*self),
            r matches Err(e) ==> e.kind == ErrorKind::InvalidSelector && e.span == span
                && e.message@ == "$"@ + name@ + ": "@ + inspect_text(*self)
                + " is not a valid selector: it must be a string, a list of strings, or a list of lists of strings."@,
    {
        match self.selector_string() {
            Some(t) => Ok(t),
            None => {
                let mut s = String::from_str("$");
                s.push_str(name);
                s.push_str(": ");
                let shown = match self.inspect(span) {
                    Ok(t) => t,
                    Err(e) => e.message,
                };
                s.push_str(shown.as_str());
                s.push_str(
                    " is not a valid selector: it must be a string, a list of strings, or a list of lists of strings.",
                );
                proof {
                    assert(s@ =~= "$"@ + name@ + ": "@ + inspect_text(*self)
                        + " is not a valid selector: it must be a string, a list of strings, or a list of lists of strings."@);
                }
                Err(SassError::new(ErrorKind::InvalidSelector, s, span))
            },
        }
    }

    /// An unquoted string that starts a special CSS function call.
    pub fn is_special_function(&self) -> (r: bool)
        ensures
            r == (*self matches Value::String(s, q) && q == QuoteKind::Unquoted && special_prefix(
                s@,
            )),
    {
        match self {
            Value::String(s, QuoteKind::Unquoted) => is_special_function(s.as_str()),
            _ => false,
        }
    }
}

/// Text that starts with `calc(`, `var(`, `env(`, `min(`, `max(` or `clamp(`.
pub open spec fn special_prefix(s: Seq<char>) -> bool {
    has_prefix(s, "calc("@) || has_prefix(s, "var("@) || has_prefix(s, "env("@) || has_prefix(
        s,
        "min("@,
    ) || has_prefix(s, "max("@) || has_prefix(s, "clamp("@)
}

pub open spec fn has_prefix(s: Seq<char>, p: Seq<char>) -> bool {
    p.len() <= s.len() && s.subrange(0, p.len() as int) == p
}

fn starts_with(s: &str, p: &str) -> (r: bool)
    ensures
        r == has_prefix(s@, p@),
{
    let n = p.unicode_len();
    if n > s.unicode_len() {
        return false;
    }
    let mut i: usize = 0;
    while i < n
        invariant
            n == p@.len(),
            n <= s@.len(),
            i <= n,
            forall|j: int| 0 <= j < i ==> s@[j] == p@[j],
        decreases n - i,
    {
        if s.get_char(i) != p.get_char(i) {
            proof {
                assert(s@.subrange(0, n as int)[i as int] != p@[i as int]);
            }
            return false;
        }
        i = i + 1;
    }
    proof {
        assert(s@.subrange(0, n as int) =~= p@);
    }
    true
}

/// The text starts a special CSS function call.
pub fn is_special_function(s: &str) -> (r: bool)
    ensures
        r == special_prefix(s@),
{
    starts_with(s, "calc(") || starts_with(s, "var(") || starts_with(s, "env(") || starts_with(
        s,
        "min(",
    ) || starts_with(s, "max(") || starts_with(s, "clamp(")
}

} // verus!
