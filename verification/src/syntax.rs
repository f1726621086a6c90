//! Syntax the analyzer does not follow, found with tree-sitter's Bash grammar.
use vstd::prelude::*;
use crate::builder::{add_unknown, AnalysisBuilder, BuilderView};
use crate::text::{chars_eq, chars_of};

verus! {

broadcast use crate::text::lemma_char_vec_deep_view;

/// The outline of tree-sitter-bash's parse of a text: `None` when the Bash
/// grammar cannot be loaded, `Some(None)` when parsing gives no tree, and
/// otherwise whether the tree has errors and the kinds of all its nodes in
/// pre-order.
pub uninterp spec fn bash_outline(input: Seq<char>) -> Option<Option<(bool, Seq<Seq<char>>)>>;

/// The parse outline that the parser returned, as plain values.
pub struct SyntaxOutline {
    pub has_error: bool,
    pub node_kinds: Vec<String>,
}

/// The mathematical value of a parse outcome.
pub open spec fn outline_view(r: Option<Option<SyntaxOutline>>) -> Option<Option<(bool, Seq<Seq<char>>)>> {
    match r {
        None => None,
        Some(None) => Some(None),
        Some(Some(o)) => Some(Some((o.has_error, o.node_kinds.deep_view()))),
    }
}

/// Parses a text with tree-sitter (`Parser::new`, `Parser::set_language` with
/// `tree_sitter_bash::LANGUAGE`, `Parser::parse`) and reads the tree:
/// `Node::has_error` of the root and `Node::kind` of every node, visited with
/// `TreeCursor::goto_descendant` for each index below `Node::descendant_count`.
/// The result is named `bash_outline` and not described further.
#[verifier::external_body]
fn parse_bash_outline(input: &str) -> (r: Option<Option<SyntaxOutline>>)
    ensures
        outline_view(r) == bash_outline(input@),
{
    let mut parser = tree_sitter::Parser::new();
    let language: tree_sitter::Language = tree_sitter_bash::LANGUAGE.into();
    if parser.set_language(&language).is_err() {
        return None;
    }
    let Some(tree) = parser.parse(input, None) else { return Some(None) };
    let root = tree.root_node();
    let mut cursor = root.walk();
    let mut node_kinds = Vec::new();
    for i in 0..root.descendant_count() {
        cursor.goto_descendant(i);
        node_kinds.push(cursor.node().kind().to_string());
    }
    Some(Some(SyntaxOutline { has_error: root.has_error(), node_kinds }))
}

/// The unsupported construct that a node kind stands for, if any.
pub open spec fn kind_construct(kind: Seq<char>) -> Option<Seq<char>> {
    if kind == "case_statement"@ {
        Some("case_statement"@)
    } else if kind == "for_statement"@ {
        Some("for_statement"@)
    } else if kind == "while_statement"@ {
        Some("while_statement"@)
    } else if kind == "until_statement"@ {
        Some("until_statement"@)
    } else if kind == "if_statement"@ {
        Some("if_statement"@)
    } else if kind == "function_definition"@ {
        Some("function_definition"@)
    } else if kind == "heredoc_body"@ || kind == "heredoc_redirect"@ {
        Some("heredoc"@)
    } else if kind == "process_substitution"@ {
        Some("process_substitution"@)
    } else {
        None
    }
}

/// The builder after noting the constructs of the given node kinds, in order.
pub open spec fn note_kinds(b: BuilderView, kinds: Seq<Seq<char>>) -> BuilderView
    decreases kinds.len(),
{
    if kinds.len() == 0 {
        b
    } else {
        let prev = note_kinds(b, kinds.drop_last());
        match kind_construct(kinds.last()) {
            Some(c) => add_unknown(prev, c),
            None => prev,
        }
    }
}

/// The builder after noting what a parse outline shows.
pub open spec fn note_outline(b: BuilderView, outline: Option<Option<(bool, Seq<Seq<char>>)>>) -> BuilderView {
    match outline {
        None => add_unknown(b, "bash_parser_unavailable"@),
        Some(None) => add_unknown(b, "parse_failed"@),
        Some(Some((has_error, kinds))) => note_kinds(
            if has_error {
                add_unknown(b, "parse_error"@)
            } else {
                b
            },
            kinds,
        ),
    }
}

/// The unsupported construct that a node kind stands for, if any.
fn construct_for_kind(kind: &String) -> (r: Option<String>)
    ensures
        r.deep_view() == kind_construct(kind@),
{
    let k = chars_of(kind.as_str());
    if chars_eq(&k, &chars_of("case_statement")) {
        Some(String::from_str("case_statement"))
    } else if chars_eq(&k, &chars_of("for_statement")) {
        Some(String::from_str("for_statement"))
    } else if chars_eq(&k, &chars_of("while_statement")) {
        Some(String::from_str("while_statement"))
    } else if chars_eq(&k, &chars_of("until_statement")) {
        Some(String::from_str("until_statement"))
    } else if chars_eq(&k, &chars_of("if_statement")) {
        Some(String::from_str("if_statement"))
    } else if chars_eq(&k, &chars_of("function_definition")) {
        Some(String::from_str("function_definition"))
    } else if chars_eq(&k, &chars_of("heredoc_body")) || chars_eq(&k, &chars_of("heredoc_redirect")) {
        Some(String::from_str("heredoc"))
    } else if chars_eq(&k, &chars_of("process_substitution")) {
        Some(String::from_str("process_substitution"))
    } else {
        None
    }
}

/// Notes what a parse outline shows: a missing grammar, a failed parse, a
/// tree with errors, and the unsupported constructs among its nodes.
pub fn apply_syntax_outline(outline: Option<Option<SyntaxOutline>>, builder: &mut AnalysisBuilder)
    ensures
        final(builder)@ == note_outline(old(builder)@, outline_view(outline)),
{
    match outline {
        None => builder.add_unsupported(String::from_str("bash_parser_unavailable")),
        Some(None) => builder.add_unsupported(String::from_str("parse_failed")),
        Some(Some(o)) => {
            if o.has_error {
                builder.add_unsupported(String::from_str("parse_error"));
            }
            let ghost b0 = builder@;
            let ghost kinds = o.node_kinds.deep_view();
            let mut i: usize = 0;
            while i < o.node_kinds.len()
                invariant
                    i <= o.node_kinds@.len(),
                    kinds == o.node_kinds.deep_view(),
                    builder@ == note_kinds(b0, kinds.take(i as int)),
                decreases o.node_kinds@.len() - i,
            {
                assert(kinds.take(i + 1).drop_last() =~= kinds.take(i as int));
                match construct_for_kind(&o.node_kinds[i]) {
                    Some(c) => builder.add_unsupported(c),
                    None => {},
                }
                i = i + 1;
            }
            assert(kinds.take(i as int) =~= kinds);
        },
    }
}

/// Notes the syntax of a text that the analyzer does not follow.
pub fn collect_syntax_findings(input: &str, builder: &mut AnalysisBuilder)
    ensures
        final(builder)@ == note_outline(old(builder)@, bash_outline(input@)),
{
    let outline = parse_bash_outline(input);
    apply_syntax_outline(outline, builder);
}

} // verus!
