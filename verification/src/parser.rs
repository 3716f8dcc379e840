//! Parsing a document text and extracting the document model.

use vstd::prelude::*;
use vstd::string::*;
use crate::grammar::{parse_items, spec_parse_doc};
use crate::model::{MarkupDocument, Node, SpecNode};
use crate::text::{spec_trim_payload, trim_payload};
use crate::tree::{Pair, ParseTree, Rule, Span, SpecPair, SpecTree};
use crate::util::{Error, ParseError, SpecParseError};

verus! {

/// Message of the defensive error raised when the root is no document
/// node.
pub open spec fn msg_expected_doc() -> Seq<char> {
    "Expected document"@
}

/// Message of the error raised on a top-level item whose rule is none of
/// the three known constructs.
pub open spec fn msg_unexpected() -> Seq<char> {
    "Got unexpected"@
}

/// Message of the internal invariant-violation error raised when an item
/// holds fewer sub-tokens than its rule guarantees.
pub open spec fn msg_missing_token() -> Seq<char> {
    "Reached the end of pairs"@
}

/// The flodoc parser.
pub struct FlodocParser;

impl FlodocParser {
    /// Parses a complete document text into its concrete parse tree.
    /// Returns exactly what the document grammar says: the tree on a
    /// well-formed document, the first positional grammar error
    /// otherwise.
    pub fn parse(input: &str) -> (r: Result<ParseTree, Error>)
        ensures
            (match spec_parse_doc(input@) {
                Ok(t) => r matches Ok(tree) && tree@ == t,
                Err(e) => r matches Err(err) && err matches Error::Parser(pe) && pe@ == e,
            }),
    {
        let n = input.unicode_len();
        match parse_items(input, n) {
            Ok(items) => Ok(ParseTree { rule: Rule::Doc, span: Span { start: 0, end: n }, items }),
            Err(pe) => Err(Error::Parser(pe)),
        }
    }
}

/// What extracting one top-level item yields: the typed node, or the
/// error the extractor raises on it. The two delimiter-stripping rules
/// stand here: a simple tag's payload is taken verbatim, an advanced
/// tag's and a code block's payloads get the four-stage trim of
/// [`spec_trim_payload`].
pub open spec fn spec_extract_pair(p: SpecPair) -> Result<SpecNode, SpecParseError> {
    match p.rule {
        Rule::Tag => if p.tokens.len() >= 4 {
            Ok(SpecNode::SimpleTag { tag: p.tokens[1].text, content: p.tokens[2].text })
        } else {
            Err(SpecParseError { span: p.span, message: msg_missing_token() })
        },
        Rule::AdvTag => if p.tokens.len() >= 3 {
            Ok(
                SpecNode::AdvancedTag {
                    tag: p.tokens[1].text,
                    content: spec_trim_payload(p.tokens[2].text),
                },
            )
        } else {
            Err(SpecParseError { span: p.span, message: msg_missing_token() })
        },
        Rule::CodeBlock => if p.tokens.len() >= 4 {
            Ok(
                SpecNode::CodeBlock {
                    language: p.tokens[1].text,
                    code: spec_trim_payload(p.tokens[2].text),
                },
            )
        } else {
            Err(SpecParseError { span: p.span, message: msg_missing_token() })
        },
        _ => Err(SpecParseError { span: p.span, message: msg_unexpected() }),
    }
}

/// Extraction over a top-level item sequence, in source order. The walk
/// stops at the end-of-input sentinel without yielding a node for it;
/// the first error wins and no partial sequence is returned.
pub open spec fn spec_extract_items(items: Seq<SpecPair>) -> Result<Seq<SpecNode>, SpecParseError>
    decreases items.len(),
{
    if items.len() == 0 {
        Ok(Seq::<SpecNode>::empty())
    } else if items[0].rule is EOI {
        Ok(Seq::<SpecNode>::empty())
    } else {
        match spec_extract_pair(items[0]) {
            Err(e) => Err(e),
            Ok(n) => match spec_extract_items(items.drop_first()) {
                Err(e) => Err(e),
                Ok(rest) => Ok(seq![n] + rest),
            },
        }
    }
}

/// Extraction over a whole parse tree: the root must be the document
/// rule; its items extract in source order.
pub open spec fn spec_extract_doc(t: SpecTree) -> Result<Seq<SpecNode>, SpecParseError> {
    if t.rule is Doc {
        spec_extract_items(t.items)
    } else {
        Err(SpecParseError { span: t.span, message: msg_expected_doc() })
    }
}

/// Parsing and extraction composed: what a document text means.
pub open spec fn spec_parse_content(s: Seq<char>) -> Result<Seq<SpecNode>, SpecParseError> {
    match spec_parse_doc(s) {
        Err(e) => Err(e),
        Ok(t) => spec_extract_doc(t),
    }
}

/// Maps one top-level item of the parse tree to its typed node,
/// returning exactly what [`spec_extract_pair`] says of it.
///
/// The payloads of advanced tags and code blocks get the same four-stage
/// trim. That a code block's payload has braces stripped although the
/// block is fenced by backticks looks like a carry-over from the
/// advanced-tag rule; it is kept on purpose, since the payload is
/// captured with the same brace framing and callers depend on the
/// resulting text.
pub fn parse_pair(item: &Pair) -> (r: Result<Node, Error>)
    ensures
        (match spec_extract_pair(item@) {
            Ok(n) => r matches Ok(node) && node@ == n,
            Err(e) => r matches Err(err) && err matches Error::Parser(pe) && pe@ == e,
        }),
{
    match item.rule {
        Rule::Tag => {
            if item.tokens.len() >= 4 {
                let tag = item.tokens[1].text.clone();
                let content = item.tokens[2].text.clone();
                Ok(Node::SimpleTag { tag, content })
            } else {
                Err(
                    Error::Parser(
                        ParseError {
                            span: item.span,
                            message: String::from_str("Reached the end of pairs"),
                        },
                    ),
                )
            }
        },
        Rule::AdvTag => {
            if item.tokens.len() >= 3 {
                let tag = item.tokens[1].text.clone();
                let content = trim_payload(item.tokens[2].text.as_str());
                Ok(Node::AdvancedTag { tag, content })
            } else {
                Err(
                    Error::Parser(
                        ParseError {
                            span: item.span,
                            message: String::from_str("Reached the end of pairs"),
                        },
                    ),
                )
            }
        },
        Rule::CodeBlock => {
            if item.tokens.len() >= 4 {
                let language = item.tokens[1].text.clone();
                let code = trim_payload(item.tokens[2].text.as_str());
                Ok(Node::CodeBlock { language, code })
            } else {
                Err(
                    Error::Parser(
                        ParseError {
                            span: item.span,
                            message: String::from_str("Reached the end of pairs"),
                        },
                    ),
                )
            }
        },
        _ => Err(
            Error::Parser(
                ParseError { span: item.span, message: String::from_str("Got unexpected") },
            ),
        ),
    }
}

/// `r` with `pre` prepended to its node sequence when it is `Ok`.
pub open spec fn prepend_nodes(
    pre: Seq<SpecNode>,
    r: Result<Seq<SpecNode>, SpecParseError>,
) -> Result<Seq<SpecNode>, SpecParseError> {
    match r {
        Ok(nodes) => Ok(pre + nodes),
        Err(e) => Err(e),
    }
}

/// Walks the tree's top-level items in source order and assembles the
/// document model, returning exactly what [`spec_extract_doc`] says.
pub fn extract(tree: &ParseTree) -> (r: Result<MarkupDocument, Error>)
    ensures
        (match spec_extract_doc(tree@) {
            Ok(ns) => r matches Ok(d) && d@ == ns,
            Err(e) => r matches Err(err) && err matches Error::Parser(pe) && pe@ == e,
        }),
{
    match tree.rule {
        Rule::Doc => {},
        _ => {
            return Err(
                Error::Parser(
                    ParseError { span: tree.span, message: String::from_str("Expected document") },
                ),
            );
        },
    }
    let mut nodes: Vec<Node> = Vec::new();
    let mut k: usize = 0;
    proof {
        assert(nodes@.map(|x: int, nd: Node| nd@) =~= Seq::<SpecNode>::empty());
        assert(tree@.items.skip(0) =~= tree@.items);
    }
    loop
        invariant
            k <= tree.items.len(),
            tree@.rule is Doc,
            spec_extract_items(tree@.items) == prepend_nodes(
                nodes@.map(|x: int, nd: Node| nd@),
                spec_extract_items(tree@.items.skip(k as int)),
            ),
        decreases tree.items.len() - k,
    {
        let ghost pre = nodes@.map(|x: int, nd: Node| nd@);
        let ghost restitems = tree@.items.skip(k as int);
        if k == tree.items.len() {
            proof {
                assert(restitems =~= Seq::<SpecPair>::empty());
                assert(pre + Seq::<SpecNode>::empty() =~= pre);
            }
            return Ok(MarkupDocument { nodes });
        }
        proof {
            assert(restitems[0] == tree@.items[k as int]);
        }
        let item = &tree.items[k];
        if let Rule::EOI = item.rule {
            proof {
                assert(pre + Seq::<SpecNode>::empty() =~= pre);
            }
            return Ok(MarkupDocument { nodes });
        }
        match parse_pair(item) {
            Err(e) => {
                return Err(e);
            },
            Ok(nd) => {
                proof {
                    assert(restitems.drop_first() =~= tree@.items.skip(k as int + 1));
                }
                let ghost ndv = nd@;
                nodes.push(nd);
                k = k + 1;
                proof {
                    assert(nodes@.map(|x: int, nd: Node| nd@) =~= pre + seq![ndv]);
                    if let Ok(rest) = spec_extract_items(tree@.items.skip(k as int)) {
                        assert((pre + seq![ndv]) + rest =~= pre + (seq![ndv] + rest));
                    }
                }
            },
        }
    }
}

/// Parses one complete document text and extracts its document model:
/// the core's whole surface, a pure function of the input text. On a
/// malformed document the first error is returned and no partial
/// document is built.
pub fn parse_content(content: String) -> (r: Result<MarkupDocument, Error>)
    ensures
        (match spec_parse_content(content@) {
            Ok(ns) => r matches Ok(d) && d@ == ns,
            Err(e) => r matches Err(err) && err matches Error::Parser(pe) && pe@ == e,
        }),
{
    let tree = match FlodocParser::parse(content.as_str()) {
        Ok(t) => t,
        Err(e) => {
            return Err(e);
        },
    };
    extract(&tree)
}

} // verus!
