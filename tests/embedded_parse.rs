use autoconfig::syntax::{NodeKind, Position, SyntaxNode};
use autoconfig::translate::translate;
use starlark::syntax::{AstModule, Dialect};

fn mk(kind: NodeKind, text: &str, children: Vec<SyntaxNode>) -> SyntaxNode {
    let p = Position { row: 0, column: 0 };
    SyntaxNode { kind, text: text.to_string(), start: p, end: p, children }
}

fn id(s: &str) -> SyntaxNode {
    mk(NodeKind::Identifier, s, vec![])
}

fn oper(s: &str) -> SyntaxNode {
    mk(NodeKind::Operator(s.to_string()), s, vec![])
}

fn br(s: &str) -> SyntaxNode {
    mk(NodeKind::Bracket(s.to_string()), s, vec![])
}

fn lit(s: &str) -> SyntaxNode {
    mk(NodeKind::StringLiteral, s, vec![])
}

fn parses(tree: &SyntaxNode) -> String {
    let text = match translate(tree) {
        Ok(t) => t,
        Err(e) => panic!("unsupported {}", e.kind),
    };
    let dialect = Dialect { enable_top_level_stmt: true, ..Dialect::Extended };
    if let Err(e) = AstModule::parse("translated.star", text.clone(), &dialect) {
        panic!("{}\n{}", text, e);
    }
    text
}

#[test]
fn translated_statements_parse() {
    let pair = mk(NodeKind::Pair, "", vec![id("version"), mk(NodeKind::Colon, ":", vec![]), lit("'0.5.0'")]);
    let project = mk(
        NodeKind::NormalCommand,
        "",
        vec![id("project"), br("("), lit("'wayvnc'"), mk(NodeKind::Comma, ",", vec![]), pair, br(")")],
    );
    let entry = mk(NodeKind::Pair, "", vec![lit("'k'"), mk(NodeKind::Colon, ":", vec![]), mk(NodeKind::BoolLiteral, "false", vec![])]);
    let dict = mk(NodeKind::Dictionaries, "", vec![br("{"), entry, br("}")]);
    let assign = mk(NodeKind::ExpressionStatement, "", vec![id("d"), oper("="), dict]);
    let version = mk(
        NodeKind::NormalCommand,
        "",
        vec![id("v"), oper("="), id("meson"), mk(NodeKind::Dot, ".", vec![]), id("project_version"), br("("), br(")")],
    );
    let tree = mk(NodeKind::SourceFile, "", vec![project, assign, version]);
    assert_eq!(parses(&tree), "project('wayvnc', version = '0.5.0')\nd = {'k': False}\nv = autoconfig.project_version()\n");
}

#[test]
fn translated_blocks_parse() {
    let cond = mk(NodeKind::OperatorUnit, "", vec![id("buildtype"), oper("!="), lit("'debug'"), oper("and"), id("x"), oper("<"), mk(NodeKind::NumberLiteral, "3", vec![])]);
    let body = mk(NodeKind::ExpressionStatement, "", vec![id("c_args"), oper("+="), lit("'-DNDEBUG'")]);
    let elif = mk(NodeKind::ElseifCommand, "", vec![mk(NodeKind::Elif, "elif", vec![]), id("y")]);
    let els = mk(
        NodeKind::ElseCommand,
        "",
        vec![mk(NodeKind::Else, "else", vec![]), mk(NodeKind::ExpressionStatement, "", vec![mk(NodeKind::Continue, "continue", vec![])])],
    );
    let cond_block = mk(
        NodeKind::IfCommand,
        "",
        vec![mk(NodeKind::If, "if", vec![]), cond, body, elif, els, mk(NodeKind::Endif, "endif", vec![])],
    );
    let list = mk(NodeKind::List, "", vec![br("["), lit("'a'"), br("]")]);
    let loop_block = mk(
        NodeKind::ForeachCommand,
        "",
        vec![mk(NodeKind::Foreach, "foreach", vec![]), id("x"), mk(NodeKind::Colon, ":", vec![]), list, cond_block, mk(NodeKind::Endforeach, "endforeach", vec![])],
    );
    let def = mk(
        NodeKind::SourceFile,
        "",
        vec![mk(NodeKind::Comment, "# c", vec![]), loop_block],
    );
    let text = parses(&def);
    assert!(text.starts_with("for x in ['a']:\n  if buildtype != 'debug' and x < 3:\n"));
}
