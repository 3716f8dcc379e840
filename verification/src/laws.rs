//! Document-level laws: what parsing and extraction together guarantee.

use vstd::prelude::*;
use crate::grammar::{
    eoi_pair, lemma_item_advances, lemma_scan_ident_bounds, lemma_skip_spaces_bounds, scan_ident,
    scan_inline, skip_spaces, spec_parse_doc, spec_parse_item, spec_parse_items, ItemStep,
};
use crate::model::{spec_node_name, SpecNode};
use crate::parser::{
    spec_extract_doc, spec_extract_items, spec_extract_pair, spec_parse_content,
};
use crate::text::{
    is_ident_char, is_space_char, spec_trim_payload, strip_leading, strip_trailing,
};
use crate::tree::{SpecPair, SpecTree};
use crate::util::SpecParseError;

verus! {

// ---------------------------------------------------------------------
// Scanner runs
// ---------------------------------------------------------------------

proof fn lemma_skip_spaces_run(s: Seq<char>, i: int, j: int)
    requires
        0 <= i <= j <= s.len(),
        forall|k: int| i <= k < j ==> is_space_char(#[trigger] s[k]),
        j == s.len() || !is_space_char(s[j]),
    ensures
        skip_spaces(s, i) == j,
    decreases j - i,
{
    if i < j {
        lemma_skip_spaces_run(s, i + 1, j);
    }
}

proof fn lemma_scan_ident_run(s: Seq<char>, i: int, j: int)
    requires
        0 <= i <= j <= s.len(),
        forall|k: int| i <= k < j ==> is_ident_char(#[trigger] s[k]),
        j == s.len() || !is_ident_char(s[j]),
    ensures
        scan_ident(s, i) == j,
    decreases j - i,
{
    if i < j {
        lemma_scan_ident_run(s, i + 1, j);
    }
}

proof fn lemma_scan_inline_run(s: Seq<char>, i: int, j: int)
    requires
        0 <= i <= j <= s.len(),
        forall|k: int| i <= k < j ==> #[trigger] s[k] != '>' && s[k] != '\n',
        j == s.len() || s[j] == '>' || s[j] == '\n',
    ensures
        scan_inline(s, i) == j,
    decreases j - i,
{
    if i < j {
        lemma_scan_inline_run(s, i + 1, j);
    }
}

// ---------------------------------------------------------------------
// Item shape
// ---------------------------------------------------------------------

/// A successfully matched item is one of the three constructs, never the
/// sentinel or the document rule, and carries a nonempty name token.
proof fn lemma_item_wf(s: Seq<char>, i: int)
    requires
        0 <= i < s.len(),
    ensures
        spec_parse_item(s, i) matches ItemStep::Good { pair, next } ==> ((pair.rule is Tag
            || pair.rule is AdvTag || pair.rule is CodeBlock) && pair.tokens.len() >= 3
            && pair.tokens[1].text.len() >= 1),
{
    lemma_scan_ident_bounds(s, i + 1);
    if i + 3 <= s.len() {
        lemma_scan_ident_bounds(s, i + 3);
    }
}

// ---------------------------------------------------------------------
// The trimming laws
// ---------------------------------------------------------------------

/// Trimming a braced payload strips exactly its syntactic framing: the
/// two outer braces, and at most one newline just inside each of them.
pub proof fn lemma_trim_braced_payload(inner: Seq<char>)
    ensures
        spec_trim_payload(seq!['{'] + inner + seq!['}']) == strip_trailing(
            strip_leading(inner, '\n'),
            '\n',
        ),
{
    let p = seq!['{'] + inner + seq!['}'];
    assert(p[0] == '{');
    let q1 = strip_leading(p, '{');
    assert(q1 =~= inner + seq!['}']);
    let i2 = strip_leading(inner, '\n');
    let q2 = strip_leading(q1, '\n');
    if inner.len() > 0 && inner[0] == '\n' {
        assert(q1[0] == '\n');
        assert(q2 =~= i2 + seq!['}']);
    } else {
        assert(q2 == q1);
        assert(q2 =~= i2 + seq!['}']);
    }
    let q3 = strip_trailing(q2, '}');
    assert(q2[q2.len() - 1] == '}');
    assert(q3 =~= i2);
}

/// Each trimming stage is a single strip, never a loop: doubled braces
/// lose only the outer pair.
pub proof fn lemma_trim_single_strip(inner: Seq<char>)
    ensures
        spec_trim_payload(seq!['{', '{'] + inner + seq!['}', '}']) == seq!['{'] + inner
            + seq!['}'],
{
    let mid = seq!['{'] + inner + seq!['}'];
    assert(seq!['{', '{'] + inner + seq!['}', '}'] =~= seq!['{'] + mid + seq!['}']);
    lemma_trim_braced_payload(mid);
    assert(strip_leading(mid, '\n') == mid);
    assert(strip_trailing(mid, '\n') == mid);
}

// ---------------------------------------------------------------------
// Round-trip shape of the simple tag
// ---------------------------------------------------------------------

/// A well-formed simple tag `<tag content>` parses and extracts to
/// exactly that tag and that content, the content verbatim: no trimming
/// is applied to a simple tag's payload.
pub proof fn lemma_simple_tag_round_trip(tag: Seq<char>, content: Seq<char>)
    requires
        tag.len() >= 1,
        forall|k: int| 0 <= k < tag.len() ==> is_ident_char(#[trigger] tag[k]),
        forall|k: int| 0 <= k < content.len() ==> #[trigger] content[k] != '>' && content[k]
            != '\n',
        content.len() > 0 ==> !is_space_char(content[0]),
    ensures
        spec_parse_content(seq!['<'] + tag + seq![' '] + content + seq!['>']) == Ok::<
            Seq<SpecNode>,
            SpecParseError,
        >(seq![SpecNode::SimpleTag { tag: tag, content: content }]),
{
    let s = seq!['<'] + tag + seq![' '] + content + seq!['>'];
    let t = tag.len() as int;
    let c = content.len() as int;
    assert(s.len() == 3 + t + c);
    assert(s[0] == '<');
    assert(forall|k: int| 1 <= k < 1 + t ==> s[k] == tag[k - 1]);
    assert(s[1 + t] == ' ');
    assert(forall|k: int| 2 + t <= k < 2 + t + c ==> s[k] == content[k - 2 - t]);
    assert(s[2 + t + c] == '>');
    lemma_skip_spaces_run(s, 0, 0);
    lemma_scan_ident_run(s, 1, 1 + t);
    lemma_skip_spaces_run(s, 1 + t, 2 + t);
    lemma_scan_inline_run(s, 2 + t, 2 + t + c);
    lemma_skip_spaces_run(s, 3 + t + c, 3 + t + c);
    assert(s.subrange(1, 1 + t) =~= tag);
    assert(s.subrange(2 + t, 2 + t + c) =~= content);
    let step = spec_parse_item(s, 0);
    assert(step matches ItemStep::Good { pair, next } && next == s.len());
    let pair = step->Good_pair;
    assert(spec_parse_items(s, s.len() as int) == Ok::<Seq<SpecPair>, SpecParseError>(
        seq![eoi_pair(s)],
    ));
    let items = seq![pair] + seq![eoi_pair(s)];
    assert(spec_parse_items(s, 0) == Ok::<Seq<SpecPair>, SpecParseError>(items));
    assert(spec_parse_doc(s) matches Ok(tr) && tr.rule is Doc && tr.items == items);
    assert(pair.tokens[1].text == tag);
    assert(pair.tokens[2].text == content);
    assert(spec_extract_pair(pair) == Ok::<SpecNode, SpecParseError>(
        SpecNode::SimpleTag { tag: tag, content: content },
    ));
    assert(items.drop_first() =~= seq![eoi_pair(s)]);
    assert(spec_extract_items(seq![eoi_pair(s)]) == Ok::<Seq<SpecNode>, SpecParseError>(
        Seq::<SpecNode>::empty(),
    ));
    assert(seq![SpecNode::SimpleTag { tag: tag, content: content }] + Seq::<SpecNode>::empty()
        =~= seq![SpecNode::SimpleTag { tag: tag, content: content }]);
}

// ---------------------------------------------------------------------
// Order preservation and the sentinel
// ---------------------------------------------------------------------

/// Extraction preserves source order: the `k`-th node of the result is
/// exactly what the `k`-th top-level item extracts to, and no extracted
/// node stands for the end-of-input sentinel.
pub proof fn lemma_order_preserved(items: Seq<SpecPair>, ns: Seq<SpecNode>)
    requires
        spec_extract_items(items) == Ok::<Seq<SpecNode>, SpecParseError>(ns),
    ensures
        ns.len() <= items.len(),
        forall|k: int| 0 <= k < ns.len() ==> spec_extract_pair(#[trigger] items[k]) == Ok::<
            SpecNode,
            SpecParseError,
        >(ns[k]),
        forall|k: int| 0 <= k < ns.len() ==> !((#[trigger] items[k]).rule is EOI),
    decreases items.len(),
{
    if items.len() == 0 || items[0].rule is EOI {
    } else {
        if let Ok(n) = spec_extract_pair(items[0]) {
            if let Ok(rest) = spec_extract_items(items.drop_first()) {
                lemma_order_preserved(items.drop_first(), rest);
                assert(ns == seq![n] + rest);
                assert forall|k: int| 0 <= k < ns.len() implies spec_extract_pair(
                    #[trigger] items[k],
                ) == Ok::<SpecNode, SpecParseError>(ns[k]) && !(items[k].rule is EOI) by {
                    if k == 0 {
                        assert(ns[0] == n);
                    } else {
                        assert(items.drop_first()[k - 1] == items[k]);
                        assert(rest[k - 1] == ns[k]);
                    }
                }
            } else {
                assert(false);
            }
        } else {
            assert(false);
        }
    }
}

/// On an item sequence whose one sentinel stands last — which is what
/// the parser always produces — extraction yields a node for every item
/// but the sentinel.
proof fn lemma_extract_stops_at_sentinel(items: Seq<SpecPair>, ns: Seq<SpecNode>)
    requires
        spec_extract_items(items) == Ok::<Seq<SpecNode>, SpecParseError>(ns),
        items.len() >= 1,
        items[items.len() - 1].rule is EOI,
        forall|k: int| 0 <= k < items.len() - 1 ==> !((#[trigger] items[k]).rule is EOI),
    ensures
        ns.len() == items.len() - 1,
    decreases items.len(),
{
    if items.len() == 1 {
    } else {
        if let Ok(n) = spec_extract_pair(items[0]) {
            if let Ok(rest) = spec_extract_items(items.drop_first()) {
                assert(items.drop_first()[items.len() - 2] == items[items.len() - 1]);
                assert forall|k: int| 0 <= k < items.drop_first().len() - 1 implies !((
                #[trigger] items.drop_first()[k]).rule is EOI) by {
                    assert(items.drop_first()[k] == items[k + 1]);
                }
                lemma_extract_stops_at_sentinel(items.drop_first(), rest);
                assert(ns == seq![n] + rest);
            } else {
                assert(false);
            }
        } else {
            assert(false);
        }
    }
}

/// A well-formed top-level item: one of the three constructs, with its
/// sub-tokens present and its name token nonempty.
pub open spec fn wf_item(p: SpecPair) -> bool {
    &&& p.rule is Tag || p.rule is AdvTag || p.rule is CodeBlock
    &&& p.tokens.len() >= 3
    &&& p.tokens[1].text.len() >= 1
}

/// What the document rule yields always closes with exactly one
/// end-of-input sentinel, and every item before it is a well-formed
/// construct.
proof fn lemma_items_end_with_sentinel(s: Seq<char>, i: int, items: Seq<SpecPair>)
    requires
        0 <= i <= s.len(),
        spec_parse_items(s, i) == Ok::<Seq<SpecPair>, SpecParseError>(items),
    ensures
        items.len() >= 1,
        items[items.len() - 1].rule is EOI,
        forall|k: int| 0 <= k < items.len() - 1 ==> !((#[trigger] items[k]).rule is EOI),
        forall|k: int| 0 <= k < items.len() - 1 ==> wf_item(#[trigger] items[k]),
    decreases s.len() - i,
{
    lemma_skip_spaces_bounds(s, i);
    let j = skip_spaces(s, i);
    if j >= s.len() {
        assert(items == seq![eoi_pair(s)]);
    } else {
        lemma_item_advances(s, j);
        lemma_item_wf(s, j);
        if let ItemStep::Good { pair, next } = spec_parse_item(s, j) {
            if i < next <= s.len() {
                if let Ok(rest) = spec_parse_items(s, next) {
                    lemma_items_end_with_sentinel(s, next, rest);
                    assert(items == seq![pair] + rest);
                    assert(items[items.len() - 1] == rest[rest.len() - 1]);
                    assert forall|k: int| 0 <= k < items.len() - 1 implies !((
                    #[trigger] items[k]).rule is EOI) && wf_item(items[k]) by {
                        if k > 0 {
                            assert(items[k] == rest[k - 1]);
                        } else {
                            assert(items[0] == pair);
                        }
                    }
                } else {
                    assert(false);
                }
            } else {
                assert(false);
            }
        } else {
            assert(false);
        }
    }
}

/// The end-of-input sentinel is excluded from the document model: a
/// parsed and extracted document holds a node for every top-level item
/// but the sentinel, which stands last, once, and yields nothing.
pub proof fn lemma_sentinel_excluded(s: Seq<char>, t: SpecTree, ns: Seq<SpecNode>)
    requires
        spec_parse_doc(s) == Ok::<SpecTree, SpecParseError>(t),
        spec_extract_doc(t) == Ok::<Seq<SpecNode>, SpecParseError>(ns),
    ensures
        t.items.len() >= 1,
        t.items[t.items.len() - 1].rule is EOI,
        ns.len() == t.items.len() - 1,
        forall|k: int| 0 <= k < ns.len() ==> !((#[trigger] t.items[k]).rule is EOI),
{
    if let Ok(items) = spec_parse_items(s, 0) {
        assert(t.items == items);
        lemma_items_end_with_sentinel(s, 0, t.items);
        lemma_extract_stops_at_sentinel(t.items, ns);
        lemma_order_preserved(t.items, ns);
    } else {
        assert(false);
    }
}

/// Tag and language names in a parsed document are never empty: the
/// grammar demands at least one name character of every construct.
pub proof fn lemma_names_nonempty(s: Seq<char>, ns: Seq<SpecNode>)
    requires
        spec_parse_content(s) == Ok::<Seq<SpecNode>, SpecParseError>(ns),
    ensures
        forall|k: int| 0 <= k < ns.len() ==> spec_node_name(#[trigger] ns[k]).len() >= 1,
{
    if let Ok(t) = spec_parse_doc(s) {
        if let Ok(items) = spec_parse_items(s, 0) {
            assert(t.items == items);
            lemma_items_end_with_sentinel(s, 0, t.items);
            lemma_extract_stops_at_sentinel(t.items, ns);
            lemma_order_preserved(t.items, ns);
            assert forall|k: int| 0 <= k < ns.len() implies spec_node_name(
                #[trigger] ns[k],
            ).len() >= 1 by {
                assert(wf_item(t.items[k]));
                assert(spec_extract_pair(t.items[k]) == Ok::<SpecNode, SpecParseError>(ns[k]));
            }
        } else {
            assert(false);
        }
    } else {
        assert(false);
    }
}

// ---------------------------------------------------------------------
// Rejection of unknown constructs
// ---------------------------------------------------------------------

/// Text whose first character after structural whitespace starts none of
/// the three constructs is rejected with a grammar error: no partial
/// document is ever produced.
pub proof fn lemma_unknown_construct_rejected(s: Seq<char>)
    requires
        ({
            let j = skip_spaces(s, 0);
            j < s.len() && s[j] != '<' && s[j] != '-' && s[j] != '`'
        }),
    ensures
        spec_parse_doc(s) is Err,
        spec_parse_content(s) is Err,
{
    lemma_skip_spaces_bounds(s, 0);
}

} // verus!
