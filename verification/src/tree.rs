//! The concrete parse tree: spans, rules, tokens, items, and the tree root.

use vstd::prelude::*;

verus! {

/// A half-open range of character indices into the input text.
#[derive(Clone, Copy, PartialEq, Eq, Structural, Debug)]
pub struct Span {
    pub start: usize,
    pub end: usize,
}

/// The grammar's rules. `Doc` is the root rule, the next three are the
/// item alternatives, and `EOI` is the end-of-input sentinel that closes
/// every document.
#[derive(Clone, Copy, PartialEq, Eq, Structural, Debug)]
pub enum Rule {
    Doc,
    Tag,
    AdvTag,
    CodeBlock,
    EOI,
}

/// One token of the parse tree: the matched text and where it stands in
/// the input.
#[derive(Clone, PartialEq, Eq, Debug)]
pub struct Token {
    pub text: String,
    pub span: Span,
}

/// Mathematical model of a [`Token`].
pub struct SpecToken {
    pub text: Seq<char>,
    pub span: Span,
}

impl View for Token {
    type V = SpecToken;

    open spec fn view(&self) -> SpecToken {
        SpecToken { text: self.text@, span: self.span }
    }
}

/// One top-level item of the parse tree: an item alternative or the
/// end-of-input sentinel, with its sub-tokens in grammar order
/// (delimiters included).
#[derive(Clone, PartialEq, Eq, Debug)]
pub struct Pair {
    pub rule: Rule,
    pub span: Span,
    pub tokens: Vec<Token>,
}

/// Mathematical model of a [`Pair`].
pub struct SpecPair {
    pub rule: Rule,
    pub span: Span,
    pub tokens: Seq<SpecToken>,
}

impl View for Pair {
    type V = SpecPair;

    open spec fn view(&self) -> SpecPair {
        SpecPair { rule: self.rule, span: self.span, tokens: self.tokens@.map(|k: int, t: Token| t@) }
    }
}

/// The root of the parse tree: the document rule over its top-level items
/// in source order, the end-of-input sentinel last.
#[derive(Clone, PartialEq, Eq, Debug)]
pub struct ParseTree {
    pub rule: Rule,
    pub span: Span,
    pub items: Vec<Pair>,
}

/// Mathematical model of a [`ParseTree`].
pub struct SpecTree {
    pub rule: Rule,
    pub span: Span,
    pub items: Seq<SpecPair>,
}

impl View for ParseTree {
    type V = SpecTree;

    open spec fn view(&self) -> SpecTree {
        SpecTree { rule: self.rule, span: self.span, items: self.items@.map(|k: int, p: Pair| p@) }
    }
}

/// The token carrying `s.subrange(start, end)` at that very span.
pub open spec fn tok(s: Seq<char>, start: int, end: int) -> SpecToken {
    SpecToken { text: s.subrange(start, end), span: spec_span(start, end) }
}

/// A span from two mathematical indices.
pub open spec fn spec_span(start: int, end: int) -> Span {
    Span { start: start as usize, end: end as usize }
}

} // verus!
