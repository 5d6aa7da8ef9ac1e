use autoconfig::syntax::{classify_kind, NodeKind, Position, SyntaxNode};
use autoconfig::translate::translate;

fn at(row: usize, column: usize) -> Position {
    Position { row, column }
}

fn leaf(kind: NodeKind, text: &str) -> SyntaxNode {
    SyntaxNode { kind, text: text.to_string(), start: at(0, 0), end: at(0, 0), children: vec![] }
}

fn inner(kind: NodeKind, children: Vec<SyntaxNode>) -> SyntaxNode {
    SyntaxNode { kind, text: String::new(), start: at(0, 0), end: at(0, 0), children }
}

fn op(s: &str) -> SyntaxNode {
    leaf(NodeKind::Operator(s.to_string()), s)
}

fn ident(s: &str) -> SyntaxNode {
    leaf(NodeKind::Identifier, s)
}

fn string(s: &str) -> SyntaxNode {
    leaf(NodeKind::StringLiteral, s)
}

fn bracket(s: &str) -> SyntaxNode {
    leaf(NodeKind::Bracket(s.to_string()), s)
}

fn ok(tree: &SyntaxNode) -> String {
    match translate(tree) {
        Ok(s) => s,
        Err(e) => panic!("unsupported {} at {}:{}", e.kind, e.start.row, e.start.column),
    }
}

fn ndebug_if(with_comment: bool) -> SyntaxNode {
    let cond = inner(
        NodeKind::OperatorUnit,
        vec![
            ident("buildtype"),
            op("!="),
            string("'debug'"),
            op("and"),
            ident("buildtype"),
            op("!="),
            string("'debugoptimized'"),
        ],
    );
    let stmt = inner(NodeKind::ExpressionStatement, vec![ident("c_args"), op("+="), string("'-DNDEBUG'")]);
    let mut children = vec![leaf(NodeKind::If, "if"), cond, stmt];
    if with_comment {
        children.push(leaf(NodeKind::Comment, "# comment"));
    }
    children.push(leaf(NodeKind::Endif, "endif"));
    inner(NodeKind::SourceFile, vec![inner(NodeKind::IfCommand, children)])
}

#[test]
fn condition_translates_to_two_lines() {
    let out = ok(&ndebug_if(true));
    assert_eq!(out, "if buildtype != 'debug' and buildtype != 'debugoptimized':\n  c_args += '-DNDEBUG'\n");
    assert_eq!(out.lines().count(), 2);
    assert!(!out.contains("endif"));
}

#[test]
fn comments_do_not_change_the_output() {
    assert_eq!(ok(&ndebug_if(true)), ok(&ndebug_if(false)));
    let with_top_comment = inner(
        NodeKind::SourceFile,
        vec![leaf(NodeKind::Comment, "# top"), inner(NodeKind::ExpressionStatement, vec![ident("x"), op("="), leaf(NodeKind::NumberLiteral, "1")])],
    );
    let without = inner(
        NodeKind::SourceFile,
        vec![inner(NodeKind::ExpressionStatement, vec![ident("x"), op("="), leaf(NodeKind::NumberLiteral, "1")])],
    );
    assert_eq!(ok(&with_top_comment), ok(&without));
    assert_eq!(ok(&without), "x = 1\n");
}

#[test]
fn positions_do_not_change_the_output() {
    let mut a = ndebug_if(false);
    a.children[0].start = at(7, 3);
    a.children[0].children[1].end = at(9, 40);
    assert_eq!(ok(&a), ok(&ndebug_if(false)));
}

#[test]
fn booleans_and_root_namespace_are_mapped() {
    let call = inner(
        NodeKind::NormalCommand,
        vec![
            ident("meson"),
            leaf(NodeKind::Dot, "."),
            ident("project_version"),
            bracket("("),
            bracket(")"),
        ],
    );
    let tree = inner(
        NodeKind::SourceFile,
        vec![
            call,
            inner(NodeKind::ExpressionStatement, vec![ident("a"), op("="), leaf(NodeKind::BoolLiteral, "true")]),
            inner(NodeKind::ExpressionStatement, vec![ident("b"), op("="), leaf(NodeKind::BoolLiteral, "false")]),
        ],
    );
    assert_eq!(ok(&tree), "autoconfig.project_version()\na = True\nb = False\n");
}

#[test]
fn colon_follows_its_context() {
    let named = inner(NodeKind::Pair, vec![ident("native"), leaf(NodeKind::Colon, ":"), leaf(NodeKind::BoolLiteral, "true")]);
    let call = inner(
        NodeKind::NormalCommand,
        vec![ident("find_program"), bracket("("), string("'git'"), leaf(NodeKind::Comma, ","), named, bracket(")")],
    );
    let entry = inner(NodeKind::Pair, vec![string("'a'"), leaf(NodeKind::Colon, ":"), leaf(NodeKind::NumberLiteral, "1")]);
    let dict = inner(NodeKind::Dictionaries, vec![bracket("{"), entry, bracket("}")]);
    let tree = inner(
        NodeKind::SourceFile,
        vec![call, inner(NodeKind::ExpressionStatement, vec![ident("d"), op("="), dict])],
    );
    assert_eq!(ok(&tree), "find_program('git', native = True)\nd = {'a': 1}\n");
}

#[test]
fn foreach_and_nested_blocks_are_indented() {
    let list = inner(
        NodeKind::List,
        vec![bracket("["), string("'a'"), leaf(NodeKind::Comma, ","), string("'b'"), bracket("]")],
    );
    let inner_if = inner(
        NodeKind::IfCommand,
        vec![
            leaf(NodeKind::If, "if"),
            ident("x"),
            inner(NodeKind::ExpressionStatement, vec![leaf(NodeKind::Break, "break")]),
            leaf(NodeKind::Endif, "endif"),
        ],
    );
    let body = inner(NodeKind::NormalCommand, vec![ident("message"), bracket("("), ident("x"), bracket(")")]);
    let foreach = inner(
        NodeKind::ForeachCommand,
        vec![
            leaf(NodeKind::Foreach, "foreach"),
            ident("x"),
            leaf(NodeKind::Colon, ":"),
            list,
            body,
            inner_if,
            leaf(NodeKind::Endforeach, "endforeach"),
        ],
    );
    let tree = inner(NodeKind::SourceFile, vec![foreach]);
    assert_eq!(ok(&tree), "for x in ['a', 'b']:\n  message(x)\n  if x:\n    break\n");
}

#[test]
fn branches_stay_at_the_level_of_their_conditional() {
    let elif = inner(
        NodeKind::ElseifCommand,
        vec![leaf(NodeKind::Elif, "elif"), ident("b"), inner(NodeKind::ExpressionStatement, vec![ident("y"), op("="), leaf(NodeKind::NumberLiteral, "2")])],
    );
    let els = inner(NodeKind::ElseCommand, vec![leaf(NodeKind::Else, "else")]);
    let cond = inner(
        NodeKind::IfCommand,
        vec![
            leaf(NodeKind::If, "if"),
            ident("a"),
            inner(NodeKind::ExpressionStatement, vec![ident("y"), op("="), leaf(NodeKind::NumberLiteral, "1")]),
            elif,
            els,
            leaf(NodeKind::Endif, "endif"),
        ],
    );
    let tree = inner(NodeKind::SourceFile, vec![cond]);
    assert_eq!(ok(&tree), "if a:\n  y = 1\nelif b:\n  y = 2\nelse:\n  pass\n");
}

#[test]
fn unsupported_node_reports_kind_and_position() {
    let mut odd = leaf(NodeKind::Other("ternary".to_string()), "a ? b : c");
    odd.start = at(4, 2);
    odd.end = at(4, 11);
    let tree = inner(NodeKind::SourceFile, vec![inner(NodeKind::ExpressionStatement, vec![ident("x"), op("="), odd])]);
    match translate(&tree) {
        Ok(_) => panic!("translation should fail"),
        Err(e) => {
            assert_eq!(e.kind, "ternary");
            assert_eq!(e.text, "a ? b : c");
            assert!(e.start == at(4, 2));
            assert!(e.end == at(4, 11));
        }
    }
}

#[test]
fn stray_colon_is_unsupported() {
    let tree = inner(NodeKind::SourceFile, vec![inner(NodeKind::ExpressionStatement, vec![ident("x"), leaf(NodeKind::Colon, ":")])]);
    match translate(&tree) {
        Ok(_) => panic!("translation should fail"),
        Err(e) => assert_eq!(e.kind, ":"),
    }
}

#[test]
fn kind_names_are_classified() {
    assert!(matches!(classify_kind("if_command"), NodeKind::IfCommand));
    assert!(matches!(classify_kind("keyword_break"), NodeKind::Break));
    assert!(matches!(classify_kind(":"), NodeKind::Colon));
    assert!(matches!(classify_kind("("), NodeKind::Bracket(ref s) if s == "("));
    assert!(matches!(classify_kind("!="), NodeKind::Operator(ref s) if s == "!="));
    assert!(matches!(classify_kind("ternary"), NodeKind::Other(ref s) if s == "ternary"));
}

#[test]
fn unsupported_node_under_a_literal_is_reported() {
    let mut lit = string("'a'");
    let mut odd = leaf(NodeKind::Other("escape_sequence".to_string()), "\\q");
    odd.start = at(2, 5);
    lit.children.push(odd);
    let tree = inner(NodeKind::SourceFile, vec![inner(NodeKind::ExpressionStatement, vec![ident("x"), op("="), lit])]);
    match translate(&tree) {
        Ok(_) => panic!("translation should fail"),
        Err(e) => {
            assert_eq!(e.kind, "escape_sequence");
            assert!(e.start == at(2, 5));
        }
    }
}
