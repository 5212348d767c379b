//! A style declaration (`color: red`) read from tokens: the property up to
//! the colon, then the value with its whitespace normalised, with variables
//! and interpolations replaced by their text.

use vstd::prelude::*;

verus! {

#[derive(Clone, Copy, Debug, PartialEq, Eq, Structural)]
pub enum Symbol {
    Colon,
    OpenCurlyBrace,
    CloseCurlyBrace,
    Other(char),
}

#[derive(Clone, Debug)]
pub enum TokenKind {
    Whitespace(char),
    MultilineComment(String),
    Ident(String),
    /// The `#{` that opens an interpolation.
    Interpolation,
    Symbol(Symbol),
    Variable(String),
    Text(String),
}

#[derive(Clone, Debug)]
pub struct Token {
    pub kind: TokenKind,
}

/// Variable bindings; a later binding of a name shadows an earlier one.
#[derive(Clone, Debug)]
pub struct Scope {
    pub vars: Vec<(String, Vec<Token>)>,
}

/// A style: `color: red`
#[derive(Clone, Debug)]
pub struct Style {
    pub property: String,
    pub value: String,
}

/// Text of a token.
pub open spec fn kind_text(k: TokenKind) -> Seq<char> {
    match k {
        TokenKind::Whitespace(c) => seq![c],
        TokenKind::MultilineComment(s) => "/*"@ + s@ + "*/"@,
        TokenKind::Ident(s) => s@,
        TokenKind::Interpolation => "#{"@,
        TokenKind::Symbol(Symbol::Colon) => seq![':'],
        TokenKind::Symbol(Symbol::OpenCurlyBrace) => seq!['{'],
        TokenKind::Symbol(Symbol::CloseCurlyBrace) => seq!['}'],
        TokenKind::Symbol(Symbol::Other(c)) => seq![c],
        TokenKind::Variable(s) => seq!['$'] + s@,
        TokenKind::Text(s) => s@,
    }
}

pub open spec fn tokens_text(t: Seq<Token>) -> Seq<char>
    decreases t.len(),
{
    if t.len() == 0 {
        seq![]
    } else {
        tokens_text(t.drop_last()) + kind_text(t.last().kind)
    }
}

/// Text of the latest binding of `name` among `vars`.
pub open spec fn lookup(vars: Seq<(String, Vec<Token>)>, name: Seq<char>) -> Option<Seq<char>>
    decreases vars.len(),
{
    if vars.len() == 0 {
        None
    } else if vars.last().0@ == name {
        Some(tokens_text(vars.last().1@))
    } else {
        lookup(vars.drop_last(), name)
    }
}

/// Where the reader stands.
#[derive(Clone, Copy, Debug, PartialEq, Eq, Structural)]
pub enum Phase {
    /// Reading the property, up to the colon.
    Property,
    /// Inside an interpolation of the property.
    PropertyInterpolation,
    /// Skipping whitespace and comments before value text.
    Skip,
    /// Reading the value.
    Value,
    /// After whitespace in the value, deciding what it becomes.
    AfterSpace,
    /// Inside an interpolation of the value.
    ValueInterpolation,
}

pub open spec fn phase_rank(p: Phase) -> nat {
    match p {
        Phase::Skip | Phase::AfterSpace => 1,
        _ => 0,
    }
}

pub open spec fn is_blank(k: TokenKind) -> bool {
    k is Whitespace || k is MultilineComment
}

/// Reads `t` from `i` in phase `p`, with property text `prop` and value
/// text `val` so far. `None` for an undefined variable or a `{` inside an
/// interpolation.
pub open spec fn read(
    t: Seq<Token>,
    vars: Seq<(String, Vec<Token>)>,
    i: int,
    p: Phase,
    prop: Seq<char>,
    val: Seq<char>,
) -> Option<(Seq<char>, Seq<char>)>
    decreases t.len() - i, phase_rank(p),
{
    if i < 0 || i >= t.len() {
        Some((prop, val))
    } else {
        let k = t[i].kind;
        match p {
            Phase::Property => match k {
                TokenKind::Whitespace(_) | TokenKind::MultilineComment(_) => read(t, vars, i + 1, p, prop, val),
                TokenKind::Interpolation => read(t, vars, i + 1, Phase::PropertyInterpolation, prop, val),
                TokenKind::Symbol(Symbol::Colon) => read(t, vars, i + 1, Phase::Skip, prop, val),
                _ => read(t, vars, i + 1, p, prop + kind_text(k), val),
            },
            Phase::PropertyInterpolation => match k {
                TokenKind::Symbol(Symbol::CloseCurlyBrace) => read(t, vars, i + 1, Phase::Property, prop, val),
                TokenKind::Symbol(Symbol::OpenCurlyBrace) => None,
                TokenKind::Variable(v) => match lookup(vars, v@) {
                    Some(x) => read(t, vars, i + 1, p, prop + x, val),
                    None => None,
                },
                _ => read(t, vars, i + 1, p, prop + kind_text(k), val),
            },
            Phase::Skip => if is_blank(k) {
                read(t, vars, i + 1, p, prop, val)
            } else {
                read(t, vars, i, Phase::Value, prop, val)
            },
            Phase::Value => match k {
                TokenKind::Whitespace(_) => read(t, vars, i + 1, Phase::AfterSpace, prop, val),
                TokenKind::MultilineComment(_) => read(t, vars, i + 1, p, prop, val),
                TokenKind::Interpolation => read(t, vars, i + 1, Phase::ValueInterpolation, prop, val),
                TokenKind::Variable(v) => match lookup(vars, v@) {
                    Some(x) => read(t, vars, i + 1, p, prop, val + x),
                    None => None,
                },
                _ => read(t, vars, i + 1, p, prop, val + kind_text(k)),
            },
            Phase::AfterSpace => match k {
                TokenKind::Whitespace(_) | TokenKind::MultilineComment(_) => read(t, vars, i + 1, p, prop, val),
                TokenKind::Ident(s) => if s@ == seq!['-'] {
                    read(t, vars, i + 1, Phase::Skip, prop, val.push('-'))
                } else {
                    read(t, vars, i, Phase::Value, prop, val.push(' '))
                },
                TokenKind::Interpolation => read(t, vars, i + 1, Phase::ValueInterpolation, prop, val),
                _ => read(t, vars, i, Phase::Value, prop, val.push(' ')),
            },
            Phase::ValueInterpolation => match k {
                TokenKind::Symbol(Symbol::CloseCurlyBrace) => read(t, vars, i + 1, Phase::Value, prop, val),
                TokenKind::Symbol(Symbol::OpenCurlyBrace) => None,
                TokenKind::Variable(v) => match lookup(vars, v@) {
                    Some(x) => read(t, vars, i + 1, p, prop, val + x),
                    None => None,
                },
                _ => read(t, vars, i + 1, p, prop, val + kind_text(k)),
            },
        }
    }
}

impl TokenKind {
    pub fn text(&self) -> (r: String)
        ensures
            r@ == kind_text(*self),
    {
        let mut s = String::new();
        match self {
            TokenKind::Whitespace(c) => s.push(*c),
            TokenKind::MultilineComment(c) => {
                s.push_str("/*");
                s.push_str(c.as_str());
                s.push_str("*/");
            },
            TokenKind::Ident(t) => s.push_str(t.as_str()),
            TokenKind::Interpolation => s.push_str("#{"),
            TokenKind::Symbol(Symbol::Colon) => s.push(':'),
            TokenKind::Symbol(Symbol::OpenCurlyBrace) => s.push('{'),
            TokenKind::Symbol(Symbol::CloseCurlyBrace) => s.push('}'),
            TokenKind::Symbol(Symbol::Other(c)) => s.push(*c),
            TokenKind::Variable(t) => {
                s.push('$');
                s.push_str(t.as_str());
            },
            TokenKind::Text(t) => s.push_str(t.as_str()),
        }
        proof {
            assert(s@ =~= kind_text(*self));
        }
        s
    }
}

fn tokens_to_text(t: &Vec<Token>) -> (r: String)
    ensures
        r@ == tokens_text(t@),
{
    let mut s = String::new();
    let mut i: usize = 0;
    while i < t.len()
        invariant
            i <= t.len(),
            s@ == tokens_text(t@.subrange(0, i as int)),
        decreases t.len() - i,
    {
        proof {
            assert(t@.subrange(0, i + 1).drop_last() =~= t@.subrange(0, i as int));
        }
        let x = t[i].kind.text();
        s.push_str(x.as_str());
        i = i + 1;
    }
    proof {
        assert(t@.subrange(0, i as int) =~= t@);
    }
    s
}

impl Scope {
    /// Text of the latest binding of `name`.
    pub fn deref_variable(&self, name: &String) -> (r: Option<String>)
        ensures
            r is Some == lookup(self.vars@, name@) is Some,
            r matches Some(x) ==> lookup(self.vars@, name@) == Some(x@),
    {
        let mut i = self.vars.len();
        proof {
            assert(self.vars@.subrange(0, i as int) =~= self.vars@);
        }
        while i > 0
            invariant
                i <= self.vars.len(),
                lookup(self.vars@, name@) == lookup(self.vars@.subrange(0, i as int), name@),
            decreases i,
        {
            proof {
                assert(self.vars@.subrange(0, i as int).drop_last() =~= self.vars@.subrange(0, i - 1));
            }
            if self.vars[i - 1].0.eq(name) {
                return Some(tokens_to_text(&self.vars[i - 1].1));
            }
            i = i - 1;
        }
        None
    }
}

struct StyleParser<'a> {
    tokens: &'a [Token],
    scope: &'a Scope,
}

impl<'a> StyleParser<'a> {
    fn new(tokens: &'a [Token], scope: &'a Scope) -> (r: Result<Self, ()>)
        ensures
            r is Ok <==> tokens@.len() > 0,
            r matches Ok(p) ==> p.tokens@ == tokens@ && p.scope == scope,
    {
        if tokens.len() == 0 {
            return Err(());
        }
        Ok(StyleParser { tokens, scope })
    }

    fn parse(&self) -> (r: Option<Style>)
        ensures
            (r is Some) == (read(self.tokens@, self.scope.vars@, 0, Phase::Property, seq![], seq![]) is Some),
            r matches Some(s) ==> read(self.tokens@, self.scope.vars@, 0, Phase::Property, seq![], seq![])
                == Some((s.property@, s.value@)),
    {
        let ghost t = self.tokens@;
        let ghost vars = self.scope.vars@;
        let ghost goal = read(t, vars, 0, Phase::Property, seq![], seq![]);
        let mut property = String::new();
        let mut value = String::new();
        let mut phase = Phase::Property;
        let mut i: usize = 0;
        let mut ok = true;
        while ok && i < self.tokens.len()
            invariant
                t == self.tokens@,
                vars == self.scope.vars@,
                i <= t.len(),
                ok ==> read(t, vars, i as int, phase, property@, value@) == goal,
                !ok ==> goal is None,
            decreases t.len() - i, phase_rank(phase),
        {
            let k = &self.tokens[i].kind;
            proof {
                assert(t[i as int].kind == *k);
            }
            match phase {
                Phase::Property => match k {
                    TokenKind::Whitespace(_) | TokenKind::MultilineComment(_) => {},
                    TokenKind::Interpolation => phase = Phase::PropertyInterpolation,
                    TokenKind::Symbol(Symbol::Colon) => phase = Phase::Skip,
                    _ => {
                        let x = k.text();
                        property.push_str(x.as_str());
                    },
                },
                Phase::PropertyInterpolation => match k {
                    TokenKind::Symbol(Symbol::CloseCurlyBrace) => phase = Phase::Property,
                    TokenKind::Symbol(Symbol::OpenCurlyBrace) => {
                        ok = false;
                    },
                    TokenKind::Variable(v) => match self.scope.deref_variable(v) {
                        Some(x) => property.push_str(x.as_str()),
                        None => {
                            ok = false;
                        },
                    },
                    _ => {
                        let x = k.text();
                        property.push_str(x.as_str());
                    },
                },
                Phase::Skip => {
                    match k {
                        TokenKind::Whitespace(_) | TokenKind::MultilineComment(_) => {},
                        _ => {
                            phase = Phase::Value;
                            continue;
                        },
                    }
                },
                Phase::Value => match k {
                    TokenKind::Whitespace(_) => phase = Phase::AfterSpace,
                    TokenKind::MultilineComment(_) => {},
                    TokenKind::Interpolation => phase = Phase::ValueInterpolation,
                    TokenKind::Variable(v) => match self.scope.deref_variable(v) {
                        Some(x) => value.push_str(x.as_str()),
                        None => {
                            ok = false;
                        },
                    },
                    _ => {
                        let x = k.text();
                        value.push_str(x.as_str());
                    },
                },
                Phase::AfterSpace => match k {
                    TokenKind::Whitespace(_) | TokenKind::MultilineComment(_) => {},
                    TokenKind::Ident(s) => {
                        proof {
                            reveal_strlit("-");
                        }
                        if s.as_str().unicode_len() == 1 && s.as_str().get_char(0) == '-' {
                            proof {
                                assert(s@ =~= seq!['-']);
                            }
                            value.push('-');
                            phase = Phase::Skip;
                        } else {
                            proof {
                                assert(s@ != seq!['-']);
                            }
                            value.push(' ');
                            phase = Phase::Value;
                            continue;
                        }
                    },
                    TokenKind::Interpolation => phase = Phase::ValueInterpolation,
                    _ => {
                        value.push(' ');
                        phase = Phase::Value;
                        continue;
                    },
                },
                Phase::ValueInterpolation => match k {
                    TokenKind::Symbol(Symbol::CloseCurlyBrace) => phase = Phase::Value,
                    TokenKind::Symbol(Symbol::OpenCurlyBrace) => {
                        ok = false;
                    },
                    TokenKind::Variable(v) => match self.scope.deref_variable(v) {
                        Some(x) => value.push_str(x.as_str()),
                        None => {
                            ok = false;
                        },
                    },
                    _ => {
                        let x = k.text();
                        value.push_str(x.as_str());
                    },
                },
            }
            i = i + 1;
        }
        if !ok {
            return None;
        }
        Some(Style { property, value })
    }
}

impl Style {
    /// Reads a style from its tokens. Fails on no tokens, an undefined
    /// variable, or a `{` inside an interpolation.
    pub fn from_tokens(tokens: &[Token], scope: &Scope) -> (r: Result<Self, ()>)
        ensures
            (r is Ok) == (tokens@.len() > 0 && read(tokens@, scope.vars@, 0, Phase::Property, seq![], seq![]) is Some),
            r matches Ok(s) ==> read(tokens@, scope.vars@, 0, Phase::Property, seq![], seq![])
                == Some((s.property@, s.value@)),
    {
        let parser = StyleParser::new(tokens, scope)?;
        match parser.parse() {
            Some(s) => Ok(s),
            None => Err(()),
        }
    }

    /// `property: value;`
    pub fn to_text(&self) -> (r: String)
        ensures
            r@ == self.property@ + seq![':', ' '] + self.value@ + seq![';'],
    {
        let mut s = self.property.clone();
        s.push(':');
        s.push(' ');
        s.push_str(self.value.as_str());
        s.push(';');
        proof {
            assert(s@ =~= self.property@ + seq![':', ' '] + self.value@ + seq![';']);
        }
        s
    }
}

} // verus!
