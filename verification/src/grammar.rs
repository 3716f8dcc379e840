//! The document grammar and the verified parser that matches it.
//!
//! A document is a whitespace-separated sequence of items closed by the
//! end-of-input sentinel. The three item alternatives have disjoint
//! leading delimiters, so the first character after structural whitespace
//! decides which alternative is tried:
//!
//! - `<` — simple tag: `<`, identifier, inline payload, `>`;
//! - `-` — advanced tag: `-`, identifier, balanced brace block;
//! - a triple-backtick fence — code block: fence, identifier, balanced
//!   brace block, closing fence.
//!
//! The whole grammar is stated as spec functions over `Seq<char>`; each
//! executable function is proved to return exactly what the spec
//! functions say.

use vstd::prelude::*;
use vstd::string::*;
use crate::text::{ident_char, is_ident_char, is_space_char, space_char};
use crate::tree::{tok, spec_span, Pair, Rule, Span, SpecPair, SpecToken, SpecTree, Token};
use crate::util::{ParseError, SpecParseError};

verus! {

// ---------------------------------------------------------------------
// Error messages
// ---------------------------------------------------------------------

pub open spec fn msg_expected_item() -> Seq<char> {
    "expected a markup item"@
}

pub open spec fn msg_expected_name() -> Seq<char> {
    "expected a name after the item's leading delimiter"@
}

pub open spec fn msg_expected_gt() -> Seq<char> {
    "expected '>' before the end of the line"@
}

pub open spec fn msg_expected_brace() -> Seq<char> {
    "expected '{'"@
}

pub open spec fn msg_unclosed_block() -> Seq<char> {
    "unclosed block"@
}

pub open spec fn msg_expected_fence() -> Seq<char> {
    "expected a closing fence"@
}

// ---------------------------------------------------------------------
// Scanners, spec level
// ---------------------------------------------------------------------

/// First index at or after `i` that holds no structural whitespace.
pub open spec fn skip_spaces(s: Seq<char>, i: int) -> int
    decreases s.len() - i when 0 <= i <= s.len()
{
    if i < s.len() && is_space_char(s[i]) {
        skip_spaces(s, i + 1)
    } else {
        i
    }
}

/// First index at or after `i` that holds no identifier character.
pub open spec fn scan_ident(s: Seq<char>, i: int) -> int
    decreases s.len() - i when 0 <= i <= s.len()
{
    if i < s.len() && is_ident_char(s[i]) {
        scan_ident(s, i + 1)
    } else {
        i
    }
}

/// First index at or after `i` holding `>`, a newline, or the end.
pub open spec fn scan_inline(s: Seq<char>, i: int) -> int
    decreases s.len() - i when 0 <= i <= s.len()
{
    if i < s.len() && s[i] != '>' && s[i] != '\n' {
        scan_inline(s, i + 1)
    } else {
        i
    }
}

/// End (exclusive) of the balanced brace block whose opening `{` stands
/// at the position the scan was started on, or `-1` if the block never
/// closes. `depth` counts the braces opened so far.
pub open spec fn scan_block(s: Seq<char>, i: int, depth: int) -> int
    decreases s.len() - i when 0 <= i <= s.len()
{
    if i >= s.len() {
        -1
    } else if s[i] == '{' {
        scan_block(s, i + 1, depth + 1)
    } else if s[i] == '}' {
        if depth <= 1 {
            i + 1
        } else {
            scan_block(s, i + 1, depth - 1)
        }
    } else {
        scan_block(s, i + 1, depth)
    }
}

// ---------------------------------------------------------------------
// Scanner bounds
// ---------------------------------------------------------------------

pub proof fn lemma_skip_spaces_bounds(s: Seq<char>, i: int)
    requires
        0 <= i <= s.len(),
    ensures
        i <= skip_spaces(s, i) <= s.len(),
        skip_spaces(s, i) < s.len() ==> !is_space_char(s[skip_spaces(s, i)]),
    decreases s.len() - i,
{
    if i < s.len() && is_space_char(s[i]) {
        lemma_skip_spaces_bounds(s, i + 1);
    }
}

pub proof fn lemma_scan_ident_bounds(s: Seq<char>, i: int)
    requires
        0 <= i <= s.len(),
    ensures
        i <= scan_ident(s, i) <= s.len(),
    decreases s.len() - i,
{
    if i < s.len() && is_ident_char(s[i]) {
        lemma_scan_ident_bounds(s, i + 1);
    }
}

pub proof fn lemma_scan_inline_bounds(s: Seq<char>, i: int)
    requires
        0 <= i <= s.len(),
    ensures
        i <= scan_inline(s, i) <= s.len(),
    decreases s.len() - i,
{
    if i < s.len() && s[i] != '>' && s[i] != '\n' {
        lemma_scan_inline_bounds(s, i + 1);
    }
}

pub proof fn lemma_scan_block_bounds(s: Seq<char>, i: int, depth: int)
    requires
        0 <= i <= s.len(),
    ensures
        scan_block(s, i, depth) == -1 || i < scan_block(s, i, depth) <= s.len(),
    decreases s.len() - i,
{
    if i < s.len() {
        if s[i] == '{' {
            lemma_scan_block_bounds(s, i + 1, depth + 1);
        } else if s[i] == '}' {
            if depth > 1 {
                lemma_scan_block_bounds(s, i + 1, depth - 1);
            }
        } else {
            lemma_scan_block_bounds(s, i + 1, depth);
        }
    }
}

// ---------------------------------------------------------------------
// Scanners, executable
// ---------------------------------------------------------------------

fn skip_spaces_x(s: &str, n: usize, i: usize) -> (r: usize)
    requires
        n == s@.len(),
        i <= n,
    ensures
        r == skip_spaces(s@, i as int),
        i <= r <= n,
{
    let mut j = i;
    while j < n && space_char(s.get_char(j))
        invariant
            i <= j <= n,
            n == s@.len(),
            skip_spaces(s@, i as int) == skip_spaces(s@, j as int),
        decreases n - j,
    {
        j = j + 1;
    }
    j
}

fn scan_ident_x(s: &str, n: usize, i: usize) -> (r: usize)
    requires
        n == s@.len(),
        i <= n,
    ensures
        r == scan_ident(s@, i as int),
        i <= r <= n,
{
    let mut j = i;
    while j < n && ident_char(s.get_char(j))
        invariant
            i <= j <= n,
            n == s@.len(),
            scan_ident(s@, i as int) == scan_ident(s@, j as int),
        decreases n - j,
    {
        j = j + 1;
    }
    j
}

fn scan_inline_x(s: &str, n: usize, i: usize) -> (r: usize)
    requires
        n == s@.len(),
        i <= n,
    ensures
        r == scan_inline(s@, i as int),
        i <= r <= n,
{
    let mut j = i;
    while j < n && s.get_char(j) != '>' && s.get_char(j) != '\n'
        invariant
            i <= j <= n,
            n == s@.len(),
            scan_inline(s@, i as int) == scan_inline(s@, j as int),
        decreases n - j,
    {
        j = j + 1;
    }
    j
}

fn scan_block_x(s: &str, n: usize, start: usize) -> (r: Option<usize>)
    requires
        n == s@.len(),
        start <= n,
    ensures
        (match r {
            Some(e) => scan_block(s@, start as int, 0) == e as int && start < e <= n,
            None => scan_block(s@, start as int, 0) == -1,
        }),
{
    let mut j = start;
    let mut depth: usize = 0;
    loop
        invariant
            start <= j <= n,
            n == s@.len(),
            depth as int <= j as int - start as int,
            scan_block(s@, start as int, 0) == scan_block(s@, j as int, depth as int),
        decreases n - j,
    {
        if j >= n {
            return None;
        }
        let c = s.get_char(j);
        if c == '{' {
            depth = depth + 1;
            j = j + 1;
        } else if c == '}' {
            if depth <= 1 {
                return Some(j + 1);
            }
            depth = depth - 1;
            j = j + 1;
        } else {
            j = j + 1;
        }
    }
}

// ---------------------------------------------------------------------
// Items, spec level
// ---------------------------------------------------------------------

/// What matching one item alternative at a position yields: the item's
/// pair and the position after it, or a positional error.
pub enum ItemStep {
    Good { pair: SpecPair, next: int },
    Bad { err: SpecParseError },
}

/// The simple tag alternative, tried at `i` where `s[i] == '<'`.
pub open spec fn spec_tag_item(s: Seq<char>, i: int) -> ItemStep {
    let name_end = scan_ident(s, i + 1);
    if name_end == i + 1 {
        ItemStep::Bad {
            err: SpecParseError { span: spec_span(i + 1, i + 1), message: msg_expected_name() },
        }
    } else {
        let c0 = skip_spaces(s, name_end);
        let c1 = scan_inline(s, c0);
        if c1 < s.len() && s[c1] == '>' {
            ItemStep::Good {
                pair: SpecPair {
                    rule: Rule::Tag,
                    span: spec_span(i, c1 + 1),
                    tokens: seq![
                        tok(s, i, i + 1),
                        tok(s, i + 1, name_end),
                        tok(s, c0, c1),
                        tok(s, c1, c1 + 1),
                    ],
                },
                next: c1 + 1,
            }
        } else {
            ItemStep::Bad {
                err: SpecParseError { span: spec_span(c1, c1), message: msg_expected_gt() },
            }
        }
    }
}

/// The advanced tag alternative, tried at `i` where `s[i] == '-'`.
pub open spec fn spec_advtag_item(s: Seq<char>, i: int) -> ItemStep {
    let name_end = scan_ident(s, i + 1);
    if name_end == i + 1 {
        ItemStep::Bad {
            err: SpecParseError { span: spec_span(i + 1, i + 1), message: msg_expected_name() },
        }
    } else {
        let b0 = skip_spaces(s, name_end);
        if b0 < s.len() && s[b0] == '{' {
            let be = scan_block(s, b0, 0);
            if be >= 0 {
                ItemStep::Good {
                    pair: SpecPair {
                        rule: Rule::AdvTag,
                        span: spec_span(i, be),
                        tokens: seq![tok(s, i, i + 1), tok(s, i + 1, name_end), tok(s, b0, be)],
                    },
                    next: be,
                }
            } else {
                ItemStep::Bad {
                    err: SpecParseError {
                        span: spec_span(b0, s.len() as int),
                        message: msg_unclosed_block(),
                    },
                }
            }
        } else {
            ItemStep::Bad {
                err: SpecParseError { span: spec_span(b0, b0), message: msg_expected_brace() },
            }
        }
    }
}

/// The code block alternative, tried at `i` where `s[i]` is a backtick.
pub open spec fn spec_codeblock_item(s: Seq<char>, i: int) -> ItemStep {
    if i + 3 <= s.len() && s[i + 1] == '`' && s[i + 2] == '`' {
        let name_end = scan_ident(s, i + 3);
        if name_end == i + 3 {
            ItemStep::Bad {
                err: SpecParseError {
                    span: spec_span(i + 3, i + 3),
                    message: msg_expected_name(),
                },
            }
        } else {
            let b0 = skip_spaces(s, name_end);
            if b0 < s.len() && s[b0] == '{' {
                let be = scan_block(s, b0, 0);
                if be >= 0 {
                    let f0 = skip_spaces(s, be);
                    if f0 + 3 <= s.len() && s[f0] == '`' && s[f0 + 1] == '`' && s[f0 + 2] == '`' {
                        ItemStep::Good {
                            pair: SpecPair {
                                rule: Rule::CodeBlock,
                                span: spec_span(i, f0 + 3),
                                tokens: seq![
                                    tok(s, i, i + 3),
                                    tok(s, i + 3, name_end),
                                    tok(s, b0, be),
                                    tok(s, f0, f0 + 3),
                                ],
                            },
                            next: f0 + 3,
                        }
                    } else {
                        ItemStep::Bad {
                            err: SpecParseError {
                                span: spec_span(f0, f0),
                                message: msg_expected_fence(),
                            },
                        }
                    }
                } else {
                    ItemStep::Bad {
                        err: SpecParseError {
                            span: spec_span(b0, s.len() as int),
                            message: msg_unclosed_block(),
                        },
                    }
                }
            } else {
                ItemStep::Bad {
                    err: SpecParseError { span: spec_span(b0, b0), message: msg_expected_brace() },
                }
            }
        }
    } else {
        ItemStep::Bad {
            err: SpecParseError { span: spec_span(i, i), message: msg_expected_item() },
        }
    }
}

/// One item at position `i`, which must hold the first character after
/// structural whitespace. The leading delimiters of the three
/// alternatives are disjoint, so the first matching alternative wins.
pub open spec fn spec_parse_item(s: Seq<char>, i: int) -> ItemStep {
    if s[i] == '<' {
        spec_tag_item(s, i)
    } else if s[i] == '-' {
        spec_advtag_item(s, i)
    } else if s[i] == '`' {
        spec_codeblock_item(s, i)
    } else {
        ItemStep::Bad {
            err: SpecParseError { span: spec_span(i, i), message: msg_expected_item() },
        }
    }
}

/// A successfully matched item always ends past where it began and
/// within the input.
pub proof fn lemma_item_advances(s: Seq<char>, i: int)
    requires
        0 <= i < s.len(),
    ensures
        spec_parse_item(s, i) matches ItemStep::Good { pair, next } ==> i < next <= s.len(),
{
    lemma_scan_ident_bounds(s, i + 1);
    let name_end = scan_ident(s, i + 1);
    if i + 3 <= s.len() {
        lemma_scan_ident_bounds(s, i + 3);
    }
    if s[i] == '<' {
        lemma_skip_spaces_bounds(s, name_end);
        lemma_scan_inline_bounds(s, skip_spaces(s, name_end));
    } else if s[i] == '-' {
        lemma_skip_spaces_bounds(s, name_end);
        let b0 = skip_spaces(s, name_end);
        lemma_scan_block_bounds(s, b0, 0);
    } else if s[i] == '`' && i + 3 <= s.len() {
        let name_end3 = scan_ident(s, i + 3);
        lemma_skip_spaces_bounds(s, name_end3);
        let b0 = skip_spaces(s, name_end3);
        lemma_scan_block_bounds(s, b0, 0);
        let be = scan_block(s, b0, 0);
        if 0 <= be <= s.len() {
            lemma_skip_spaces_bounds(s, be);
        }
    }
}

// ---------------------------------------------------------------------
// The document rule, spec level
// ---------------------------------------------------------------------

/// The end-of-input sentinel pair.
pub open spec fn eoi_pair(s: Seq<char>) -> SpecPair {
    SpecPair {
        rule: Rule::EOI,
        span: spec_span(s.len() as int, s.len() as int),
        tokens: seq![],
    }
}

/// The item sequence of the document rule, matched from position `i`:
/// items separated by structural whitespace until the input ends, the
/// end-of-input sentinel appended last. The first error wins; no partial
/// sequence is returned.
pub open spec fn spec_parse_items(s: Seq<char>, i: int) -> Result<Seq<SpecPair>, SpecParseError>
    decreases s.len() - i when 0 <= i <= s.len()
{
    let j = skip_spaces(s, i);
    if j >= s.len() {
        Ok(seq![eoi_pair(s)])
    } else {
        match spec_parse_item(s, j) {
            ItemStep::Bad { err } => Err(err),
            ItemStep::Good { pair, next } => {
                if i < next <= s.len() {
                    match spec_parse_items(s, next) {
                        Err(e) => Err(e),
                        Ok(rest) => Ok(seq![pair] + rest),
                    }
                } else {
                    Err(SpecParseError { span: spec_span(j, j), message: msg_expected_item() })
                }
            },
        }
    }
}

/// The whole document rule: its items and the root's rule tag and span.
pub open spec fn spec_parse_doc(s: Seq<char>) -> Result<SpecTree, SpecParseError> {
    match spec_parse_items(s, 0) {
        Err(e) => Err(e),
        Ok(items) => Ok(SpecTree { rule: Rule::Doc, span: spec_span(0, s.len() as int), items }),
    }
}

// ---------------------------------------------------------------------
// Items, executable
// ---------------------------------------------------------------------

fn mk_err(start: usize, end: usize, msg: &str) -> (e: ParseError)
    ensures
        e@ == (SpecParseError { span: Span { start, end }, message: msg@ }),
{
    ParseError { span: Span { start, end }, message: String::from_str(msg) }
}

fn mk_token(s: &str, n: usize, start: usize, end: usize) -> (t: Token)
    requires
        n == s@.len(),
        start <= end <= n,
    ensures
        t@ == tok(s@, start as int, end as int),
{
    Token { text: String::from_str(s.substring_char(start, end)), span: Span { start, end } }
}

fn parse_tag_item(s: &str, n: usize, i: usize) -> (r: Result<(Pair, usize), ParseError>)
    requires
        n == s@.len(),
        i < n,
        s@[i as int] == '<',
    ensures
        (match spec_tag_item(s@, i as int) {
            ItemStep::Good { pair, next } => r matches Ok(t) && t.0@ == pair && t.1 as int
                == next,
            ItemStep::Bad { err } => r matches Err(e) && e@ == err,
        }),
{
    let name_end = scan_ident_x(s, n, i + 1);
    if name_end == i + 1 {
        return Err(mk_err(i + 1, i + 1, "expected a name after the item's leading delimiter"));
    }
    let c0 = skip_spaces_x(s, n, name_end);
    let c1 = scan_inline_x(s, n, c0);
    if c1 < n && s.get_char(c1) == '>' {
        let mut tokens: Vec<Token> = Vec::new();
        tokens.push(mk_token(s, n, i, i + 1));
        tokens.push(mk_token(s, n, i + 1, name_end));
        tokens.push(mk_token(s, n, c0, c1));
        tokens.push(mk_token(s, n, c1, c1 + 1));
        let pair = Pair { rule: Rule::Tag, span: Span { start: i, end: c1 + 1 }, tokens };
        proof {
            let target = spec_tag_item(s@, i as int);
            assert(pair@.tokens =~= target->Good_pair.tokens);
        }
        Ok((pair, c1 + 1))
    } else {
        Err(mk_err(c1, c1, "expected '>' before the end of the line"))
    }
}

fn parse_advtag_item(s: &str, n: usize, i: usize) -> (r: Result<(Pair, usize), ParseError>)
    requires
        n == s@.len(),
        i < n,
        s@[i as int] == '-',
    ensures
        (match spec_advtag_item(s@, i as int) {
            ItemStep::Good { pair, next } => r matches Ok(t) && t.0@ == pair && t.1 as int
                == next,
            ItemStep::Bad { err } => r matches Err(e) && e@ == err,
        }),
{
    let name_end = scan_ident_x(s, n, i + 1);
    if name_end == i + 1 {
        return Err(mk_err(i + 1, i + 1, "expected a name after the item's leading delimiter"));
    }
    let b0 = skip_spaces_x(s, n, name_end);
    if b0 < n && s.get_char(b0) == '{' {
        match scan_block_x(s, n, b0) {
            Some(be) => {
                let mut tokens: Vec<Token> = Vec::new();
                tokens.push(mk_token(s, n, i, i + 1));
                tokens.push(mk_token(s, n, i + 1, name_end));
                tokens.push(mk_token(s, n, b0, be));
                let pair = Pair { rule: Rule::AdvTag, span: Span { start: i, end: be }, tokens };
                proof {
                    let target = spec_advtag_item(s@, i as int);
                    assert(pair@.tokens =~= target->Good_pair.tokens);
                }
                Ok((pair, be))
            },
            None => Err(mk_err(b0, n, "unclosed block")),
        }
    } else {
        Err(mk_err(b0, b0, "expected '{'"))
    }
}

fn parse_codeblock_item(s: &str, n: usize, i: usize) -> (r: Result<(Pair, usize), ParseError>)
    requires
        n == s@.len(),
        i < n,
        s@[i as int] == '`',
    ensures
        (match spec_codeblock_item(s@, i as int) {
            ItemStep::Good { pair, next } => r matches Ok(t) && t.0@ == pair && t.1 as int
                == next,
            ItemStep::Bad { err } => r matches Err(e) && e@ == err,
        }),
{
    if n - i >= 3 && s.get_char(i + 1) == '`' && s.get_char(i + 2) == '`' {
        let name_end = scan_ident_x(s, n, i + 3);
        if name_end == i + 3 {
            return Err(
                mk_err(i + 3, i + 3, "expected a name after the item's leading delimiter"),
            );
        }
        let b0 = skip_spaces_x(s, n, name_end);
        if b0 < n && s.get_char(b0) == '{' {
            match scan_block_x(s, n, b0) {
                Some(be) => {
                    let f0 = skip_spaces_x(s, n, be);
                    if n - f0 >= 3 && s.get_char(f0) == '`' && s.get_char(f0 + 1) == '`'
                        && s.get_char(f0 + 2) == '`' {
                        let mut tokens: Vec<Token> = Vec::new();
                        tokens.push(mk_token(s, n, i, i + 3));
                        tokens.push(mk_token(s, n, i + 3, name_end));
                        tokens.push(mk_token(s, n, b0, be));
                        tokens.push(mk_token(s, n, f0, f0 + 3));
                        let pair = Pair {
                            rule: Rule::CodeBlock,
                            span: Span { start: i, end: f0 + 3 },
                            tokens,
                        };
                        proof {
                            let target = spec_codeblock_item(s@, i as int);
                            assert(pair@.tokens =~= target->Good_pair.tokens);
                        }
                        Ok((pair, f0 + 3))
                    } else {
                        Err(mk_err(f0, f0, "expected a closing fence"))
                    }
                },
                None => Err(mk_err(b0, n, "unclosed block")),
            }
        } else {
            Err(mk_err(b0, b0, "expected '{'"))
        }
    } else {
        Err(mk_err(i, i, "expected a markup item"))
    }
}

fn parse_item(s: &str, n: usize, i: usize) -> (r: Result<(Pair, usize), ParseError>)
    requires
        n == s@.len(),
        i < n,
    ensures
        (match spec_parse_item(s@, i as int) {
            ItemStep::Good { pair, next } => r matches Ok(t) && t.0@ == pair && t.1 as int
                == next,
            ItemStep::Bad { err } => r matches Err(e) && e@ == err,
        }),
        r matches Ok(t) ==> i < t.1 <= n,
{
    proof {
        lemma_item_advances(s@, i as int);
    }
    let c = s.get_char(i);
    if c == '<' {
        parse_tag_item(s, n, i)
    } else if c == '-' {
        parse_advtag_item(s, n, i)
    } else if c == '`' {
        parse_codeblock_item(s, n, i)
    } else {
        Err(mk_err(i, i, "expected a markup item"))
    }
}

// ---------------------------------------------------------------------
// The document rule, executable
// ---------------------------------------------------------------------

/// `r` with `pre` prepended to its item sequence when it is `Ok`.
pub open spec fn prepend_items(
    pre: Seq<SpecPair>,
    r: Result<Seq<SpecPair>, SpecParseError>,
) -> Result<Seq<SpecPair>, SpecParseError> {
    match r {
        Ok(items) => Ok(pre + items),
        Err(e) => Err(e),
    }
}

pub(crate) fn parse_items(s: &str, n: usize) -> (r: Result<Vec<Pair>, ParseError>)
    requires
        n == s@.len(),
    ensures
        (match spec_parse_items(s@, 0) {
            Ok(items) => r matches Ok(v) && v@.map(|k: int, p: Pair| p@) == items,
            Err(e) => r matches Err(pe) && pe@ == e,
        }),
{
    let mut acc: Vec<Pair> = Vec::new();
    let mut i: usize = 0;
    proof {
        assert(acc@.map(|k: int, p: Pair| p@) =~= Seq::<SpecPair>::empty());
    }
    loop
        invariant
            i <= n,
            n == s@.len(),
            spec_parse_items(s@, 0) == prepend_items(
                acc@.map(|k: int, p: Pair| p@),
                spec_parse_items(s@, i as int),
            ),
        decreases n - i,
    {
        let ghost pre = acc@.map(|k: int, p: Pair| p@);
        proof {
            lemma_skip_spaces_bounds(s@, i as int);
        }
        let j = skip_spaces_x(s, n, i);
        if j >= n {
            let eoi = Pair { rule: Rule::EOI, span: Span { start: n, end: n }, tokens: Vec::new() };
            proof {
                assert(eoi@.tokens =~= Seq::<SpecToken>::empty());
                assert(eoi@ == eoi_pair(s@));
                assert(spec_parse_items(s@, i as int) == Ok::<_, SpecParseError>(
                    seq![eoi_pair(s@)],
                ));
            }
            acc.push(eoi);
            proof {
                assert(acc@.map(|k: int, p: Pair| p@) =~= pre + seq![eoi_pair(s@)]);
            }
            return Ok(acc);
        }
        match parse_item(s, n, j) {
            Err(e) => {
                return Err(e);
            },
            Ok((pair, next)) => {
                let ghost target = spec_parse_item(s@, j as int);
                proof {
                    assert(target matches ItemStep::Good { pair: p0, next: n0 } && p0 == pair@
                        && n0 == next as int);
                    assert(spec_parse_items(s@, i as int) == prepend_items(
                        seq![pair@],
                        spec_parse_items(s@, next as int),
                    ));
                }
                acc.push(pair);
                i = next;
                proof {
                    assert(acc@.map(|k: int, p: Pair| p@) =~= pre + seq![pair@]);
                    assert forall|rest: Seq<SpecPair>|
                        (pre + seq![pair@]) + rest =~= pre + (seq![pair@] + rest) by {}
                }
            },
        }
    }
}

} // verus!
