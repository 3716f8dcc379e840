use flodoc::model::Node;
use flodoc::parser::{extract, parse_content, parse_pair, FlodocParser};
use flodoc::tree::{Pair, ParseTree, Rule, Span};
use flodoc::util::Error;

fn nodes_of(input: &str) -> Vec<Node> {
    match parse_content(input.to_string()) {
        Ok(doc) => doc.nodes,
        Err(e) => panic!("expected a document for {:?}, got error {:?}", input, e),
    }
}

fn parser_message_of(input: &str) -> String {
    match parse_content(input.to_string()) {
        Ok(doc) => panic!("expected an error for {:?}, got {:?}", input, doc),
        Err(Error::Parser(pe)) => pe.message,
        Err(e) => panic!("expected a parser error for {:?}, got {:?}", input, e),
    }
}

#[test]
fn simple_tag_end_to_end() {
    let nodes = nodes_of("<b bold text>");
    assert_eq!(
        nodes,
        vec![Node::SimpleTag { tag: "b".to_string(), content: "bold text".to_string() }]
    );
}

#[test]
fn advanced_tag_end_to_end() {
    let nodes = nodes_of("-note{\nremember this\n}");
    assert_eq!(
        nodes,
        vec![Node::AdvancedTag { tag: "note".to_string(), content: "remember this".to_string() }]
    );
}

#[test]
fn code_block_end_to_end() {
    let nodes = nodes_of("```rust\n{\nfn main() {}\n}\n```");
    assert_eq!(
        nodes,
        vec![Node::CodeBlock { language: "rust".to_string(), code: "fn main() {}".to_string() }]
    );
}

#[test]
fn double_braces_lose_only_the_outer_pair() {
    let nodes = nodes_of("-x{{inner}}");
    assert_eq!(
        nodes,
        vec![Node::AdvancedTag { tag: "x".to_string(), content: "{inner}".to_string() }]
    );
}

#[test]
fn newline_trimming_order() {
    // One leading brace, then one leading newline, then the trailing
    // brace, then one trailing newline: one inner newline survives on
    // each side.
    let nodes = nodes_of("-x{\n\ncode\n\n}");
    assert_eq!(
        nodes,
        vec![Node::AdvancedTag { tag: "x".to_string(), content: "\ncode\n".to_string() }]
    );
}

#[test]
fn source_order_is_preserved() {
    let nodes = nodes_of("<a one> -b{two} ```c\n{three}\n```");
    assert_eq!(
        nodes,
        vec![
            Node::SimpleTag { tag: "a".to_string(), content: "one".to_string() },
            Node::AdvancedTag { tag: "b".to_string(), content: "two".to_string() },
            Node::CodeBlock { language: "c".to_string(), code: "three".to_string() },
        ]
    );
}

#[test]
fn sentinel_never_reaches_the_document() {
    // The parse tree ends with the end-of-input sentinel; the extracted
    // document holds a node for every item but that one.
    let tree = FlodocParser::parse("<a one> <b two>").unwrap();
    assert_eq!(tree.rule, Rule::Doc);
    assert_eq!(tree.items.len(), 3);
    assert_eq!(tree.items[0].rule, Rule::Tag);
    assert_eq!(tree.items[1].rule, Rule::Tag);
    assert_eq!(tree.items[2].rule, Rule::EOI);
    let doc = extract(&tree).unwrap();
    assert_eq!(doc.nodes.len(), 2);
}

#[test]
fn empty_document_is_valid() {
    assert_eq!(nodes_of(""), vec![]);
    assert_eq!(nodes_of(" \t\r\n "), vec![]);
}

#[test]
fn unknown_construct_is_rejected() {
    assert_eq!(parser_message_of("hello"), "expected a markup item");
    assert_eq!(parser_message_of("<a one> hello"), "expected a markup item");
    assert_eq!(parser_message_of("`x"), "expected a markup item");
}

#[test]
fn unterminated_simple_tag_is_rejected() {
    assert_eq!(parser_message_of("<b foo"), "expected '>' before the end of the line");
    assert_eq!(parser_message_of("<b fo\no>"), "expected '>' before the end of the line");
}

#[test]
fn missing_name_is_rejected() {
    assert_eq!(
        parser_message_of("-{x}"),
        "expected a name after the item's leading delimiter"
    );
    assert_eq!(
        parser_message_of("< x>"),
        "expected a name after the item's leading delimiter"
    );
}

#[test]
fn unclosed_block_is_rejected() {
    assert_eq!(parser_message_of("-x{open"), "unclosed block");
}

#[test]
fn missing_block_is_rejected() {
    assert_eq!(parser_message_of("-x y"), "expected '{'");
}

#[test]
fn missing_closing_fence_is_rejected() {
    assert_eq!(parser_message_of("```c {x}"), "expected a closing fence");
}

#[test]
fn simple_tag_payload_is_verbatim() {
    // Whitespace after the name is structural; the payload itself is
    // taken as written, inner spaces and braces included.
    let nodes = nodes_of("<b  {kept} spaces   inside>");
    assert_eq!(
        nodes,
        vec![Node::SimpleTag {
            tag: "b".to_string(),
            content: "{kept} spaces   inside".to_string(),
        }]
    );
}

#[test]
fn empty_simple_tag_payload() {
    let nodes = nodes_of("<b>");
    assert_eq!(nodes, vec![Node::SimpleTag { tag: "b".to_string(), content: "".to_string() }]);
}

#[test]
fn multibyte_characters_are_kept() {
    let nodes = nodes_of("<b héllo wörld>");
    assert_eq!(
        nodes,
        vec![Node::SimpleTag { tag: "b".to_string(), content: "héllo wörld".to_string() }]
    );
}

#[test]
fn nested_braces_stay_balanced() {
    let nodes = nodes_of("-x{a {b} c}");
    assert_eq!(
        nodes,
        vec![Node::AdvancedTag { tag: "x".to_string(), content: "a {b} c".to_string() }]
    );
}

#[test]
fn unexpected_rule_in_extraction() {
    let item = Pair { rule: Rule::Doc, span: Span { start: 0, end: 0 }, tokens: vec![] };
    match parse_pair(&item) {
        Err(Error::Parser(pe)) => assert_eq!(pe.message, "Got unexpected"),
        other => panic!("expected a parser error, got {:?}", other),
    }
}

#[test]
fn missing_subtokens_in_extraction() {
    let item = Pair { rule: Rule::Tag, span: Span { start: 0, end: 1 }, tokens: vec![] };
    match parse_pair(&item) {
        Err(Error::Parser(pe)) => assert_eq!(pe.message, "Reached the end of pairs"),
        other => panic!("expected a parser error, got {:?}", other),
    }
}

#[test]
fn non_document_root_is_rejected() {
    let tree = ParseTree { rule: Rule::Tag, span: Span { start: 0, end: 0 }, items: vec![] };
    match extract(&tree) {
        Err(Error::Parser(pe)) => assert_eq!(pe.message, "Expected document"),
        other => panic!("expected a parser error, got {:?}", other),
    }
}

#[test]
fn same_input_same_document() {
    let a = parse_content("<a one> -b{two}".to_string()).unwrap();
    let b = parse_content("<a one> -b{two}".to_string()).unwrap();
    assert_eq!(a, b);
}

#[test]
fn error_positions_point_at_the_offence() {
    match parse_content("<a one> hello".to_string()) {
        Err(Error::Parser(pe)) => {
            assert_eq!(pe.span.start, 8);
            assert_eq!(pe.span.end, 8);
        },
        other => panic!("expected a parser error, got {:?}", other),
    }
}
