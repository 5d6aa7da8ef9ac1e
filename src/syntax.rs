//! The syntax tree of the legacy build-description language, as the
//! translator reads it.
use vstd::prelude::*;

use crate::text::{owned, text_eq};

verus! {

/// A zero-based row and column in the source text.
#[derive(Clone, Copy, PartialEq, Eq, Structural)]
pub struct Position {
    pub row: usize,
    pub column: usize,
}

/// The kind of a syntax node. Token kinds that pass through unchanged hold
/// their token.
pub enum NodeKind {
    SourceFile,
    ExpressionStatement,
    NormalCommand,
    Pair,
    VarUnit,
    VariableUnit,
    OperatorUnit,
    List,
    Dictionaries,
    IfCondition,
    IfCommand,
    ElseifCommand,
    ElseCommand,
    ForeachCommand,
    StringLiteral,
    BoolLiteral,
    NumberLiteral,
    Identifier,
    If,
    Elif,
    Else,
    Foreach,
    Break,
    Continue,
    Endif,
    Endforeach,
    Comment,
    Colon,
    Dot,
    Comma,
    /// One of `(`, `)`, `[`, `]`, `{`, `}`.
    Bracket(String),
    /// A binary, logical or assignment operator, such as `!=` or `and`.
    Operator(String),
    /// A kind the translator does not support.
    Other(String),
}

/// A node of the legacy syntax tree: its kind, the source text it spans,
/// where it starts and ends, and its children in source order.
pub struct SyntaxNode {
    pub kind: NodeKind,
    pub text: String,
    pub start: Position,
    pub end: Position,
    pub children: Vec<SyntaxNode>,
}

/// The brackets that pass through the translator unchanged.
pub open spec fn is_bracket_token(s: Seq<char>) -> bool {
    s == "("@ || s == ")"@ || s == "["@ || s == "]"@ || s == "{"@ || s == "}"@
}

/// The operators that the translator surrounds with single spaces.
pub open spec fn is_operator_token(s: Seq<char>) -> bool {
    s == "="@ || s == "+="@ || s == "=="@ || s == "!="@ || s == ">"@ || s == ">="@ || s == "<="@
        || s == "<"@ || s == "and"@ || s == "or"@ || s == "not"@ || s == "in"@ || s == "+"@ || s
        == "-"@ || s == "*"@ || s == "/"@ || s == "%"@
}

/// The name of a node kind in the legacy grammar.
pub open spec fn kind_name(k: NodeKind) -> Seq<char> {
    match k {
        NodeKind::SourceFile => "source_file"@,
        NodeKind::ExpressionStatement => "expression_statement"@,
        NodeKind::NormalCommand => "normal_command"@,
        NodeKind::Pair => "pair"@,
        NodeKind::VarUnit => "var_unit"@,
        NodeKind::VariableUnit => "variableunit"@,
        NodeKind::OperatorUnit => "operatorunit"@,
        NodeKind::List => "list"@,
        NodeKind::Dictionaries => "dictionaries"@,
        NodeKind::IfCondition => "if_condition"@,
        NodeKind::IfCommand => "if_command"@,
        NodeKind::ElseifCommand => "elseif_command"@,
        NodeKind::ElseCommand => "else_command"@,
        NodeKind::ForeachCommand => "foreach_command"@,
        NodeKind::StringLiteral => "string"@,
        NodeKind::BoolLiteral => "bool"@,
        NodeKind::NumberLiteral => "number"@,
        NodeKind::Identifier => "identifier"@,
        NodeKind::If => "if"@,
        NodeKind::Elif => "elif"@,
        NodeKind::Else => "else"@,
        NodeKind::Foreach => "foreach"@,
        NodeKind::Break => "keyword_break"@,
        NodeKind::Continue => "keyword_continue"@,
        NodeKind::Endif => "endif"@,
        NodeKind::Endforeach => "endforeach"@,
        NodeKind::Comment => "comment"@,
        NodeKind::Colon => ":"@,
        NodeKind::Dot => "."@,
        NodeKind::Comma => ","@,
        NodeKind::Bracket(s) => s@,
        NodeKind::Operator(s) => s@,
        NodeKind::Other(s) => s@,
    }
}

/// The names of the kinds that the translator supports.
pub open spec fn is_known_kind_name(s: Seq<char>) -> bool {
    s == "source_file"@ || s == "expression_statement"@ || s == "normal_command"@ || s == "pair"@
        || s == "var_unit"@ || s == "variableunit"@ || s == "operatorunit"@ || s == "list"@ || s
        == "dictionaries"@ || s == "if_condition"@ || s == "if_command"@ || s == "elseif_command"@
        || s == "else_command"@ || s == "foreach_command"@ || s == "string"@ || s == "bool"@ || s
        == "number"@ || s == "identifier"@ || s == "if"@ || s == "elif"@ || s == "else"@ || s
        == "foreach"@ || s == "keyword_break"@ || s == "keyword_continue"@ || s == "endif"@ || s
        == "endforeach"@ || s == "comment"@ || s == ":"@ || s == "."@ || s == ","@
        || is_bracket_token(s) || is_operator_token(s)
}

/// The name of `k` in the legacy grammar.
pub fn kind_text(k: &NodeKind) -> (r: String)
    ensures
        r@ == kind_name(*k),
{
    match k {
        NodeKind::SourceFile => owned("source_file"),
        NodeKind::ExpressionStatement => owned("expression_statement"),
        NodeKind::NormalCommand => owned("normal_command"),
        NodeKind::Pair => owned("pair"),
        NodeKind::VarUnit => owned("var_unit"),
        NodeKind::VariableUnit => owned("variableunit"),
        NodeKind::OperatorUnit => owned("operatorunit"),
        NodeKind::List => owned("list"),
        NodeKind::Dictionaries => owned("dictionaries"),
        NodeKind::IfCondition => owned("if_condition"),
        NodeKind::IfCommand => owned("if_command"),
        NodeKind::ElseifCommand => owned("elseif_command"),
        NodeKind::ElseCommand => owned("else_command"),
        NodeKind::ForeachCommand => owned("foreach_command"),
        NodeKind::StringLiteral => owned("string"),
        NodeKind::BoolLiteral => owned("bool"),
        NodeKind::NumberLiteral => owned("number"),
        NodeKind::Identifier => owned("identifier"),
        NodeKind::If => owned("if"),
        NodeKind::Elif => owned("elif"),
        NodeKind::Else => owned("else"),
        NodeKind::Foreach => owned("foreach"),
        NodeKind::Break => owned("keyword_break"),
        NodeKind::Continue => owned("keyword_continue"),
        NodeKind::Endif => owned("endif"),
        NodeKind::Endforeach => owned("endforeach"),
        NodeKind::Comment => owned("comment"),
        NodeKind::Colon => owned(":"),
        NodeKind::Dot => owned("."),
        NodeKind::Comma => owned(","),
        NodeKind::Bracket(s) => s.clone(),
        NodeKind::Operator(s) => s.clone(),
        NodeKind::Other(s) => s.clone(),
    }
}

fn is_bracket(s: &str) -> (r: bool)
    ensures
        r == is_bracket_token(s@),
{
    text_eq(s, "(") || text_eq(s, ")") || text_eq(s, "[") || text_eq(s, "]") || text_eq(s, "{")
        || text_eq(s, "}")
}

fn is_operator(s: &str) -> (r: bool)
    ensures
        r == is_operator_token(s@),
{
    text_eq(s, "=") || text_eq(s, "+=") || text_eq(s, "==") || text_eq(s, "!=") || text_eq(s, ">")
        || text_eq(s, ">=") || text_eq(s, "<=") || text_eq(s, "<") || text_eq(s, "and") || text_eq(
        s,
        "or",
    ) || text_eq(s, "not") || text_eq(s, "in") || text_eq(s, "+") || text_eq(s, "-") || text_eq(
        s,
        "*",
    ) || text_eq(s, "/") || text_eq(s, "%")
}

/// The node kind named `s` in the legacy grammar; `Other` for a name the
/// translator does not support.
pub fn classify_kind(s: &str) -> (r: NodeKind)
    ensures
        kind_name(r) == s@,
        r is Other <==> !is_known_kind_name(s@),
        r is Bracket ==> is_bracket_token(s@),
        r is Operator ==> is_operator_token(s@),
{
    if text_eq(s, "source_file") {
        NodeKind::SourceFile
    } else if text_eq(s, "expression_statement") {
        NodeKind::ExpressionStatement
    } else if text_eq(s, "normal_command") {
        NodeKind::NormalCommand
    } else if text_eq(s, "pair") {
        NodeKind::Pair
    } else if text_eq(s, "var_unit") {
        NodeKind::VarUnit
    } else if text_eq(s, "variableunit") {
        NodeKind::VariableUnit
    } else if text_eq(s, "operatorunit") {
        NodeKind::OperatorUnit
    } else if text_eq(s, "list") {
        NodeKind::List
    } else if text_eq(s, "dictionaries") {
        NodeKind::Dictionaries
    } else if text_eq(s, "if_condition") {
        NodeKind::IfCondition
    } else if text_eq(s, "if_command") {
        NodeKind::IfCommand
    } else if text_eq(s, "elseif_command") {
        NodeKind::ElseifCommand
    } else if text_eq(s, "else_command") {
        NodeKind::ElseCommand
    } else if text_eq(s, "foreach_command") {
        NodeKind::ForeachCommand
    } else if text_eq(s, "string") {
        NodeKind::StringLiteral
    } else if text_eq(s, "bool") {
        NodeKind::BoolLiteral
    } else if text_eq(s, "number") {
        NodeKind::NumberLiteral
    } else if text_eq(s, "identifier") {
        NodeKind::Identifier
    } else if text_eq(s, "if") {
        NodeKind::If
    } else if text_eq(s, "elif") {
        NodeKind::Elif
    } else if text_eq(s, "else") {
        NodeKind::Else
    } else if text_eq(s, "foreach") {
        NodeKind::Foreach
    } else if text_eq(s, "keyword_break") {
        NodeKind::Break
    } else if text_eq(s, "keyword_continue") {
        NodeKind::Continue
    } else if text_eq(s, "endif") {
        NodeKind::Endif
    } else if text_eq(s, "endforeach") {
        NodeKind::Endforeach
    } else if text_eq(s, "comment") {
        NodeKind::Comment
    } else if text_eq(s, ":") {
        NodeKind::Colon
    } else if text_eq(s, ".") {
        NodeKind::Dot
    } else if text_eq(s, ",") {
        NodeKind::Comma
    } else if is_bracket(s) {
        NodeKind::Bracket(owned(s))
    } else if is_operator(s) {
        NodeKind::Operator(owned(s))
    } else {
        NodeKind::Other(owned(s))
    }
}

} // verus!
