//! Character classes of the grammar and the payload-trimming rule.

use vstd::prelude::*;
use vstd::string::*;

verus! {

/// Structural whitespace between tokens: space, tab, carriage return, newline.
pub open spec fn is_space_char(c: char) -> bool {
    c == ' ' || c == '\t' || c == '\r' || c == '\n'
}

/// Characters allowed in a tag or language identifier: anything that is
/// neither structural whitespace nor one of the grammar's delimiters.
pub open spec fn is_ident_char(c: char) -> bool {
    !is_space_char(c) && c != '<' && c != '>' && c != '{' && c != '}' && c != '`'
}

/// Executable test for [`is_space_char`].
pub fn space_char(c: char) -> (r: bool)
    ensures
        r == is_space_char(c),
{
    c == ' ' || c == '\t' || c == '\r' || c == '\n'
}

/// Executable test for [`is_ident_char`].
pub fn ident_char(c: char) -> (r: bool)
    ensures
        r == is_ident_char(c),
{
    !space_char(c) && c != '<' && c != '>' && c != '{' && c != '}' && c != '`'
}

/// One leading occurrence of `c` stripped from `s`, if present; a single
/// strip, never a loop.
pub open spec fn strip_leading(s: Seq<char>, c: char) -> Seq<char> {
    if s.len() > 0 && s[0] == c {
        s.subrange(1, s.len() as int)
    } else {
        s
    }
}

/// One trailing occurrence of `c` stripped from `s`, if present; a single
/// strip, never a loop.
pub open spec fn strip_trailing(s: Seq<char>, c: char) -> Seq<char> {
    if s.len() > 0 && s[s.len() - 1] == c {
        s.subrange(0, s.len() - 1)
    } else {
        s
    }
}

/// The payload-trimming rule shared by advanced tags and code blocks:
/// strip one leading `{`, then one leading newline, then one trailing
/// `}`, then one trailing newline. Each stage strips at most one
/// occurrence. Code-block payloads get the same brace stripping as
/// advanced tags because their payloads are captured with the same brace
/// framing; see the note on [`crate::parser::parse_pair`].
pub open spec fn spec_trim_payload(s: Seq<char>) -> Seq<char> {
    strip_trailing(strip_trailing(strip_leading(strip_leading(s, '{'), '\n'), '}'), '\n')
}

/// Applies the four-stage payload trim to `p` and returns the result as an
/// owned string.
pub fn trim_payload(p: &str) -> (r: String)
    ensures
        r@ == spec_trim_payload(p@),
{
    let ghost s0 = p@;
    let n = p.unicode_len();
    let mut a: usize = 0;
    let mut b: usize = n;
    if a < b && p.get_char(a) == '{' {
        a = a + 1;
    }
    let ghost s1 = strip_leading(s0, '{');
    proof {
        assert(s1 =~= s0.subrange(a as int, b as int));
    }
    if a < b && p.get_char(a) == '\n' {
        a = a + 1;
    }
    let ghost s2 = strip_leading(s1, '\n');
    proof {
        assert(s2 =~= s0.subrange(a as int, b as int));
    }
    if a < b && p.get_char(b - 1) == '}' {
        b = b - 1;
    }
    let ghost s3 = strip_trailing(s2, '}');
    proof {
        assert(s3 =~= s0.subrange(a as int, b as int));
    }
    if a < b && p.get_char(b - 1) == '\n' {
        b = b - 1;
    }
    let ghost s4 = strip_trailing(s3, '\n');
    proof {
        assert(s4 =~= s0.subrange(a as int, b as int));
    }
    String::from_str(p.substring_char(a, b))
}

} // verus!
