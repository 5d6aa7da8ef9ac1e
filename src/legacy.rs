//! Reading legacy build files: the tree-sitter parse, and its conversion
//! into the syntax tree that the translator reads.
use vstd::prelude::*;

use crate::syntax::{classify_kind, Position, SyntaxNode};
use crate::translate::{translate, translation, TranslateError, Unsupported};

verus! {

/// A tree-sitter grammar, `tree_sitter::Language`, handed to the parser.
#[verifier::external_type_specification]
#[verifier::external_body]
pub struct ExLanguage(tree_sitter::Language);

/// A `tree_sitter::Parser`.
#[verifier::external_type_specification]
#[verifier::external_body]
pub struct ExParser(tree_sitter::Parser);

/// A parsed `tree_sitter::Tree`.
#[verifier::external_type_specification]
#[verifier::external_body]
pub struct ExTree(tree_sitter::Tree);

/// A node of a `tree_sitter::Tree`, read through the wrappers below.
#[verifier::external_type_specification]
#[verifier::external_body]
pub struct ExNode<'tree>(tree_sitter::Node<'tree>);

/// Relies on `tree_sitter::Parser::new`: a parser with no language.
#[verifier::external_body]
fn new_parser() -> (r: tree_sitter::Parser) {
    tree_sitter::Parser::new()
}

/// Relies on `tree_sitter::Parser::set_language`: whether the language was
/// accepted.
#[verifier::external_body]
fn set_parser_language(p: &mut tree_sitter::Parser, language: &tree_sitter::Language) -> (r: bool) {
    p.set_language(language).is_ok()
}

/// Relies on `tree_sitter::Parser::parse`: the tree of the text, or `None`.
#[verifier::external_body]
fn parse_text(p: &mut tree_sitter::Parser, code: &str) -> (r: Option<tree_sitter::Tree>) {
    p.parse(code, None)
}

/// Relies on `tree_sitter::Tree::root_node`.
#[verifier::external_body]
fn root_node<'a>(t: &'a tree_sitter::Tree) -> (r: tree_sitter::Node<'a>) {
    t.root_node()
}

/// Relies on `tree_sitter::Node::kind`: the node's type name.
#[verifier::external_body]
fn node_kind(n: &tree_sitter::Node) -> (r: String) {
    n.kind().to_string()
}

/// Relies on `tree_sitter::Node::child_count`.
#[verifier::external_body]
fn node_child_count(n: &tree_sitter::Node) -> (r: u32) {
    n.child_count()
}

/// Relies on `tree_sitter::Node::child`: the child at index `i`, if any.
#[verifier::external_body]
fn node_child<'a>(n: &tree_sitter::Node<'a>, i: u32) -> (r: Option<tree_sitter::Node<'a>>) {
    n.child(i)
}

/// Relies on `tree_sitter::Node::descendant_count`: the number of nodes in
/// the subtree, the node itself included.
#[verifier::external_body]
fn node_descendant_count(n: &tree_sitter::Node) -> (r: usize) {
    n.descendant_count()
}

/// Relies on `tree_sitter::Node::start_position`.
#[verifier::external_body]
fn node_start(n: &tree_sitter::Node) -> (r: Position) {
    let p = n.start_position();
    Position { row: p.row, column: p.column }
}

/// Relies on `tree_sitter::Node::end_position`.
#[verifier::external_body]
fn node_end(n: &tree_sitter::Node) -> (r: Position) {
    let p = n.end_position();
    Position { row: p.row, column: p.column }
}

/// Relies on `tree_sitter::Node::start_byte`.
#[verifier::external_body]
fn node_start_byte(n: &tree_sitter::Node) -> (r: usize) {
    n.start_byte()
}

/// Relies on `tree_sitter::Node::end_byte`.
#[verifier::external_body]
fn node_end_byte(n: &tree_sitter::Node) -> (r: usize) {
    n.end_byte()
}

/// Relies on `str::get`: the text between two byte offsets, or `None` when
/// they are out of range or not on character boundaries.
#[verifier::external_body]
fn text_between(source: &str, start: usize, end: usize) -> (r: Option<String>) {
    match source.get(start..end) {
        Some(s) => Some(s.to_string()),
        None => None,
    }
}

/// Why a legacy build file could not be read into a syntax tree.
#[derive(Clone, Copy, Debug, PartialEq, Eq, Structural)]
pub enum LegacyParseError {
    /// The parser refused the grammar.
    LanguageRejected,
    /// The parser gave no tree.
    NoTree,
    /// A node's span does not lie within the source text.
    SpanOutsideSource,
    /// The tree is deeper than it has nodes.
    TooDeep,
}

/// Why a legacy build file could not be translated.
pub enum LegacyError {
    Parse(LegacyParseError),
    Translate(TranslateError),
}

fn lift(n: &tree_sitter::Node, source: &str, depth: usize) -> (r: Result<SyntaxNode, LegacyParseError>)
    decreases depth,
{
    let kind_name = node_kind(n);
    let kind = classify_kind(kind_name.as_str());
    let text = match text_between(source, node_start_byte(n), node_end_byte(n)) {
        Some(t) => t,
        None => {
            return Err(LegacyParseError::SpanOutsideSource);
        },
    };
    let count = node_child_count(n);
    let mut children: Vec<SyntaxNode> = Vec::new();
    let mut i: u32 = 0;
    while i < count
        decreases count - i,
    {
        if let Some(c) = node_child(n, i) {
            if depth == 0 {
                return Err(LegacyParseError::TooDeep);
            }
            match lift(&c, source, depth - 1) {
                Ok(child) => children.push(child),
                Err(e) => {
                    return Err(e);
                },
            }
        }
        i = i + 1;
    }
    Ok(SyntaxNode { kind, text, start: node_start(n), end: node_end(n), children })
}

/// Parses `code` with the legacy grammar `language` into a syntax tree.
pub fn parse_legacy(code: &str, language: &tree_sitter::Language) -> (r: Result<SyntaxNode, LegacyParseError>) {
    let mut parser = new_parser();
    if !set_parser_language(&mut parser, language) {
        return Err(LegacyParseError::LanguageRejected);
    }
    let tree = match parse_text(&mut parser, code) {
        Some(t) => t,
        None => {
            return Err(LegacyParseError::NoTree);
        },
    };
    let root = root_node(&tree);
    let depth = node_descendant_count(&root);
    lift(&root, code, depth)
}

/// Parses `code` with the legacy grammar `language` and translates it,
/// giving the tree that the parse gave together with its translation.
pub fn translate_legacy(code: &str, language: &tree_sitter::Language) -> (r: Result<(SyntaxNode, String), LegacyError>)
    ensures
        r matches Ok((t, s)) ==> translation(t) == Ok::<Seq<char>, Unsupported>(s@),
{
    match parse_legacy(code, language) {
        Err(e) => Err(LegacyError::Parse(e)),
        Ok(tree) => match translate(&tree) {
            Ok(s) => Ok((tree, s)),
            Err(e) => Err(LegacyError::Translate(e)),
        },
    }
}

} // verus!
