//! The document model: the typed nodes a document extracts to.

use vstd::prelude::*;

verus! {

/// One semantic unit of a document. Tag and language names are never
/// empty once parsed; payloads are the source text exactly as written,
/// after delimiter stripping, with no escaping applied.
#[derive(Clone, PartialEq, Eq, Debug)]
pub enum Node {
    SimpleTag { tag: String, content: String },
    AdvancedTag { tag: String, content: String },
    CodeBlock { language: String, code: String },
}

/// Mathematical model of a [`Node`].
pub enum SpecNode {
    SimpleTag { tag: Seq<char>, content: Seq<char> },
    AdvancedTag { tag: Seq<char>, content: Seq<char> },
    CodeBlock { language: Seq<char>, code: Seq<char> },
}

impl View for Node {
    type V = SpecNode;

    open spec fn view(&self) -> SpecNode {
        match self {
            Node::SimpleTag { tag, content } => SpecNode::SimpleTag {
                tag: tag@,
                content: content@,
            },
            Node::AdvancedTag { tag, content } => SpecNode::AdvancedTag {
                tag: tag@,
                content: content@,
            },
            Node::CodeBlock { language, code } => SpecNode::CodeBlock {
                language: language@,
                code: code@,
            },
        }
    }
}

/// The name a node carries: its tag, or its language for a code block.
pub open spec fn spec_node_name(n: SpecNode) -> Seq<char> {
    match n {
        SpecNode::SimpleTag { tag, .. } => tag,
        SpecNode::AdvancedTag { tag, .. } => tag,
        SpecNode::CodeBlock { language, .. } => language,
    }
}

/// An ordered document: its nodes in source order. An empty sequence is
/// a valid (empty) document.
#[derive(Clone, PartialEq, Eq, Debug)]
pub struct MarkupDocument {
    pub nodes: Vec<Node>,
}

impl View for MarkupDocument {
    type V = Seq<SpecNode>;

    open spec fn view(&self) -> Seq<SpecNode> {
        self.nodes@.map(|k: int, n: Node| n@)
    }
}

} // verus!
