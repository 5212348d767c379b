//! Rendering of string contents: the minimal-quote escaper for quoted
//! strings and the whitespace rule for unquoted ones.

use vstd::prelude::*;

verus! {

/// Control characters that are written as a hexadecimal escape.
pub open spec fn is_control(c: char) -> bool {
    (c as u32) <= 8 || (10 <= (c as u32) && (c as u32) <= 31)
}

/// Lowercase hexadecimal digit for `n < 16`.
pub open spec fn hex_char(n: nat) -> char {
    if n < 10 {
        ((n + 48) as u8) as char
    } else {
        ((n + 87) as u8) as char
    }
}

/// A character that would be read as part of a preceding hexadecimal escape.
pub open spec fn continues_escape(c: char) -> bool {
    let n = c as u32;
    (48 <= n && n <= 57) || (65 <= n && n <= 70) || (97 <= n && n <= 102) || c == ' ' || c == '\t'
}

/// What the character at `i` becomes inside quotes.
pub open spec fn escape_at(s: Seq<char>, i: int, forced: bool) -> Seq<char> {
    let c = s[i];
    let n = c as u32;
    if c == '\'' {
        seq!['\'']
    } else if c == '"' {
        if forced {
            seq!['\\', '"']
        } else {
            seq!['"']
        }
    } else if is_control(c) {
        seq!['\\'] + (if n > 15 {
            seq![hex_char((n / 16) as nat)]
        } else {
            seq![]
        }) + seq![hex_char((n % 16) as nat)] + (if i + 1 < s.len() && continues_escape(s[i + 1]) {
            seq![' ']
        } else {
            seq![]
        })
    } else if c == '\\' {
        seq!['\\', '\\']
    } else {
        seq![c]
    }
}

/// The escaped form of the first `n` characters.
pub open spec fn escaped_upto(s: Seq<char>, n: int, forced: bool) -> Seq<char>
    decreases n,
{
    if n <= 0 {
        seq![]
    } else {
        escaped_upto(s, n - 1, forced) + escape_at(s, n - 1, forced)
    }
}

/// Quoted form of `s`. Both quote characters present (or `force`) means
/// double quotes with `"` escaped; else double quotes unless `s` holds a
/// double quote, then single quotes.
pub open spec fn quoted_text(s: Seq<char>, force: bool) -> Seq<char> {
    let has_dq = s.contains('"');
    let has_sq = s.contains('\'');
    let forced = force || (has_dq && has_sq);
    let q = if forced || !has_dq {
        '"'
    } else {
        '\''
    };
    seq![q] + escaped_upto(s, s.len() as int, forced) + seq![q]
}

/// The state after the first `n` characters of an unquoted string: inside
/// a run of spaces that follows a newline.
pub open spec fn after_newline(s: Seq<char>, n: int) -> bool
    decreases n,
{
    if n <= 0 {
        false
    } else if s[n - 1] == '\n' {
        true
    } else if s[n - 1] == ' ' {
        after_newline(s, n - 1)
    } else {
        false
    }
}

/// Unquoted output of the first `n` characters: a newline becomes one space
/// and swallows the spaces that follow it.
pub open spec fn unquoted_upto(s: Seq<char>, n: int) -> Seq<char>
    decreases n,
{
    if n <= 0 {
        seq![]
    } else {
        let c = s[n - 1];
        unquoted_upto(s, n - 1) + (if c == '\n' {
            seq![' ']
        } else if c == ' ' {
            if after_newline(s, n - 1) {
                seq![]
            } else {
                seq![' ']
            }
        } else {
            seq![c]
        })
    }
}

pub open spec fn unquoted_text(s: Seq<char>) -> Seq<char> {
    unquoted_upto(s, s.len() as int)
}

fn hex_digit(n: u32) -> (r: char)
    requires
        n < 16,
    ensures
        r == hex_char(n as nat),
{
    if n < 10 {
        ((n + 48) as u8) as char
    } else {
        ((n + 87) as u8) as char
    }
}

fn is_continuation(c: char) -> (r: bool)
    ensures
        r == continues_escape(c),
{
    let n = c as u32;
    (48 <= n && n <= 57) || (65 <= n && n <= 70) || (97 <= n && n <= 102) || c == ' ' || c == '\t'
}

/// Appends the quoted form of `string` to `buf`: the quote characters are
/// probed first, then the text is rendered once with the chosen quote.
pub fn visit_quoted_string(buf: &mut String, force_double_quote: bool, string: &str)
    ensures
        final(buf)@ == old(buf)@ + quoted_text(string@, force_double_quote),
{
    let s = string;
    let len = s.unicode_len();
    let mut has_dq = false;
    let mut has_sq = false;
    let mut i: usize = 0;
    while i < len
        invariant
            len == s@.len(),
            i <= len,
            has_dq == s@.subrange(0, i as int).contains('"'),
            has_sq == s@.subrange(0, i as int).contains('\''),
        decreases len - i,
    {
        let c = s.get_char(i);
        proof {
            let p = s@.subrange(0, i as int);
            let q = s@.subrange(0, i + 1);
            assert(q =~= p.push(c));
            assert(q[i as int] == c);
            assert(forall|j: int| 0 <= j < i ==> q[j] == p[j]);
        }
        if c == '"' {
            has_dq = true;
        }
        if c == '\'' {
            has_sq = true;
        }
        i = i + 1;
    }
    proof {
        assert(s@.subrange(0, len as int) =~= s@);
    }
    let forced = force_double_quote || (has_dq && has_sq);
    let quote = if forced || !has_dq {
        '"'
    } else {
        '\''
    };
    let ghost start = buf@;
    buf.push(quote);
    let mut i: usize = 0;
    while i < len
        invariant
            len == s@.len(),
            i <= len,
            buf@ == start + seq![quote] + escaped_upto(s@, i as int, forced),
        decreases len - i,
    {
        let c = s.get_char(i);
        let n = c as u32;
        if c == '\'' {
            buf.push('\'');
        } else if c == '"' {
            if forced {
                buf.push('\\');
            }
            buf.push('"');
        } else if n <= 8 || (10 <= n && n <= 31) {
            buf.push('\\');
            if n > 15 {
                buf.push(hex_digit(n / 16));
            }
            buf.push(hex_digit(n % 16));
            if i + 1 < len && is_continuation(s.get_char(i + 1)) {
                buf.push(' ');
            }
        } else if c == '\\' {
            buf.push('\\');
            buf.push('\\');
        } else {
            buf.push(c);
        }
        i = i + 1;
        proof {
            assert(buf@ =~= start + seq![quote] + escaped_upto(s@, i as int, forced));
        }
    }
    buf.push(quote);
}

/// The output form of an unquoted string.
pub fn unquoted_string(string: &str) -> (r: String)
    ensures
        r@ == unquoted_text(string@),
{
    let s = string;
    let len = s.unicode_len();
    let mut buf = String::new();
    let mut after = false;
    let mut i: usize = 0;
    while i < len
        invariant
            len == s@.len(),
            i <= len,
            after == after_newline(s@, i as int),
            buf@ == unquoted_upto(s@, i as int),
        decreases len - i,
    {
        let c = s.get_char(i);
        if c == '\n' {
            buf.push(' ');
            after = true;
        } else if c == ' ' {
            if !after {
                buf.push(' ');
            }
        } else {
            buf.push(c);
            after = false;
        }
        i = i + 1;
        proof {
            assert(buf@ =~= unquoted_upto(s@, i as int));
        }
    }
    buf
}

} // verus!
