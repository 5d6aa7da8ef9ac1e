//! Syntax-directed translation of the legacy build-description language into
//! the embedded scripting dialect.
//!
//! Literals pass through (booleans take the dialect's spelling), the legacy
//! root namespace is renamed, operators gain single spaces, the `:` token
//! takes its meaning from where it stands, and conditional and loop bodies
//! are indented by two spaces. Comments and block terminators emit nothing.
use vstd::prelude::*;

use crate::syntax::{kind_name, kind_text, NodeKind, Position, SyntaxNode};
use crate::text::{owned, text_eq};

verus! {

/// A line as `str::lines` yields it: a `\r` before the line break is dropped.
pub open spec fn strip_cr(l: Seq<char>) -> Seq<char> {
    if l.len() > 0 && l.last() == '\r' {
        l.drop_last()
    } else {
        l
    }
}

/// The lines of `s`, the current line having begun with `cur`, split at
/// `\n`; a final line break opens no further line.
pub open spec fn lines_from(s: Seq<char>, cur: Seq<char>) -> Seq<Seq<char>>
    decreases s.len(),
{
    if s.len() == 0 {
        if cur.len() == 0 {
            Seq::empty()
        } else {
            seq![cur]
        }
    } else if s[0] == '\n' {
        seq![strip_cr(cur)] + lines_from(s.drop_first(), Seq::empty())
    } else {
        lines_from(s.drop_first(), cur.push(s[0]))
    }
}

/// The lines of `s`, as `str::lines` yields them.
pub open spec fn text_lines(s: Seq<char>) -> Seq<Seq<char>> {
    lines_from(s, Seq::empty())
}

/// A line with the prefix put before it, unless it is empty.
pub open spec fn prefixed(p: Seq<char>, l: Seq<char>) -> Seq<char> {
    if l.len() == 0 {
        l
    } else {
        p + l
    }
}

/// The lines, each non-empty one prefixed, joined by `\n`.
pub open spec fn join_prefixed(p: Seq<char>, ls: Seq<Seq<char>>) -> Seq<char>
    decreases ls.len(),
{
    if ls.len() == 0 {
        Seq::empty()
    } else if ls.len() == 1 {
        prefixed(p, ls[0])
    } else {
        join_prefixed(p, ls.drop_last()) + "\n"@ + prefixed(p, ls.last())
    }
}

/// `s` with every non-empty line prefixed by `p`; a final line break is kept.
pub open spec fn indented(p: Seq<char>, s: Seq<char>) -> Seq<char> {
    join_prefixed(p, text_lines(s)) + if s.len() > 0 && s.last() == '\n' {
        "\n"@
    } else {
        Seq::empty()
    }
}

/// Relies on `indent::indent_all_by`: each line of `s` as `str::lines`
/// yields it, with two spaces before it unless it is empty, the lines joined
/// by `\n`, and a `\n` added when `s` ends with one.
#[verifier::external_body]
fn indent_block(s: &String) -> (r: String)
    ensures
        r@ == indented("  "@, s@),
{
    indent::indent_all_by(2, s.as_str())
}

/// What a `:` token stands for, by where it stands.
#[derive(Clone, Copy, PartialEq, Eq, Structural)]
pub enum ColonPlace {
    /// Between a loop's variables and what they range over.
    ForeachHeader,
    /// Between a key and its value in a dictionary literal.
    DictEntry,
    /// Between a named argument and its value.
    NamedArgument,
    /// Anywhere else, where it is not supported.
    Elsewhere,
}

/// The place of a `:` whose parent has kind `parent`, the parent itself
/// standing in a dictionary literal when `parent_in_dict`.
pub open spec fn colon_place(parent: NodeKind, parent_in_dict: bool) -> ColonPlace {
    if parent is ForeachCommand {
        ColonPlace::ForeachHeader
    } else if parent_in_dict {
        ColonPlace::DictEntry
    } else if parent is Pair {
        ColonPlace::NamedArgument
    } else {
        ColonPlace::Elsewhere
    }
}

/// A node the translator cannot render: its kind, text and span.
pub type Unsupported = (Seq<char>, Seq<char>, Position, Position);

pub open spec fn unsupported(n: SyntaxNode) -> Unsupported {
    (kind_name(n.kind), n.text@, n.start, n.end)
}

/// Why a translation failed: the first node, in source order, that the
/// translator does not support.
pub struct TranslateError {
    pub kind: String,
    pub text: String,
    pub start: Position,
    pub end: Position,
}

impl TranslateError {
    pub open spec fn reports(&self, u: Unsupported) -> bool {
        &&& self.kind@ == u.0
        &&& self.text@ == u.1
        &&& self.start == u.2
        &&& self.end == u.3
    }
}

/// Conditionals, their branches, and loops: a header, then an indented body.
pub open spec fn is_block(k: NodeKind) -> bool {
    k is IfCommand || k is ElseifCommand || k is ElseCommand || k is ForeachCommand
}

/// The index of the first `:` child at or after `i`, or the number of
/// children when there is none.
pub open spec fn first_colon(s: Seq<SyntaxNode>, i: int) -> int
    decreases s.len() - i,
{
    if i >= s.len() {
        s.len() as int
    } else if s[i].kind is Colon {
        i
    } else {
        first_colon(s, i + 1)
    }
}

/// The number of children that make up a block's header: the keyword and
/// the condition of a conditional, the keyword of `else`, and of a loop the
/// keyword, its variables, the `:` and what they range over.
pub open spec fn header_len(n: SyntaxNode) -> int {
    match n.kind {
        NodeKind::ElseCommand => 1,
        NodeKind::ForeachCommand => first_colon(n.children@, 0) + 2,
        _ => 2,
    }
}

/// The text gathered from a node's children: the header or the whole text,
/// a block's body, and a conditional's further branches.
pub type Parts = (Seq<char>, Seq<char>, Seq<char>);

/// Where the text `t` of child `c`, the `j`th child of `n`, goes.
pub open spec fn add_part(n: SyntaxNode, j: int, c: SyntaxNode, t: Seq<char>, p: Parts) -> Parts {
    if n.kind is SourceFile {
        if c.kind is Comment {
            p
        } else {
            (p.0 + t + "\n"@, p.1, p.2)
        }
    } else if is_block(n.kind) {
        if j < header_len(n) {
            (p.0 + (if j == 1 {
                " "@
            } else {
                Seq::empty()
            }) + t, p.1, p.2)
        } else if c.kind is ElseifCommand || c.kind is ElseCommand {
            (p.0, p.1, p.2 + "\n"@ + t)
        } else if c.kind is Comment || c.kind is Endif || c.kind is Endforeach {
            p
        } else {
            (p.0, p.1 + "\n"@ + t, p.2)
        }
    } else {
        (p.0 + t, p.1, p.2)
    }
}

/// The parts gathered from the first `i` children of `n`, which stands in a
/// dictionary literal when `in_dict`.
pub open spec fn fold_children(n: SyntaxNode, i: int, in_dict: bool) -> Result<Parts, Unsupported>
    decreases n, i,
{
    if 0 < i <= n.children@.len() {
        match fold_children(n, i - 1, in_dict) {
            Err(u) => Err(u),
            Ok(p) => {
                let c = n.children@[i - 1];
                match render(c, n.kind is Dictionaries, colon_place(n.kind, in_dict)) {
                    Err(u) => Err(u),
                    Ok(t) => Ok(add_part(n, i - 1, c, t, p)),
                }
            },
        }
    } else {
        Ok((Seq::empty(), Seq::empty(), Seq::empty()))
    }
}

/// A block body, or `pass` where the body holds no statement.
pub open spec fn body_or_pass(b: Seq<char>) -> Seq<char> {
    if b.len() == 0 {
        "\npass"@
    } else {
        b
    }
}

/// The text a node contributes once its children gave the parts `p`:
/// literals and tokens their own text, blocks their header, indented body
/// and branches, everything else the text of its children.
pub open spec fn node_text(n: SyntaxNode, place: ColonPlace, p: Parts) -> Seq<char> {
    match n.kind {
        NodeKind::StringLiteral => n.text@,
        NodeKind::NumberLiteral => n.text@,
        NodeKind::BoolLiteral => if n.text@ == "true"@ {
            "True"@
        } else {
            "False"@
        },
        NodeKind::Identifier => if n.text@ == "meson"@ {
            "autoconfig"@
        } else {
            n.text@
        },
        NodeKind::If => "if"@,
        NodeKind::Elif => "elif"@,
        NodeKind::Else => "else"@,
        NodeKind::Foreach => "for"@,
        NodeKind::Break => "break"@,
        NodeKind::Continue => "continue"@,
        NodeKind::Endif => Seq::empty(),
        NodeKind::Endforeach => Seq::empty(),
        NodeKind::Comment => Seq::empty(),
        NodeKind::Dot => "."@,
        NodeKind::Comma => ", "@,
        NodeKind::Bracket(s) => s@,
        NodeKind::Operator(s) => " "@ + s@ + " "@,
        NodeKind::Colon => match place {
            ColonPlace::ForeachHeader => " in "@,
            ColonPlace::DictEntry => ": "@,
            ColonPlace::NamedArgument => " = "@,
            ColonPlace::Elsewhere => Seq::empty(),
        },
        _ => if is_block(n.kind) {
            p.0 + ":"@ + indented("  "@, body_or_pass(p.1)) + p.2
        } else {
            p.0
        },
    }
}

/// A node that is itself unsupported: a kind the translator does not know,
/// a `:` where it means nothing, or a block without its whole header.
pub open spec fn unsupported_here(n: SyntaxNode, place: ColonPlace) -> bool {
    ||| n.kind is Other
    ||| (n.kind is Colon && place == ColonPlace::Elsewhere)
    ||| (is_block(n.kind) && header_len(n) > n.children@.len())
}

/// The embedded-dialect text of `n`, which stands in a dictionary literal
/// when `in_dict`; `place` is what a `:` token means there. Every node of the
/// subtree is checked, the children of literals and tokens included.
pub open spec fn render(n: SyntaxNode, in_dict: bool, place: ColonPlace) -> Result<Seq<char>, Unsupported>
    decreases n, n.children@.len() + 1,
{
    if unsupported_here(n, place) {
        Err(unsupported(n))
    } else {
        match fold_children(n, n.children@.len() as int, in_dict) {
            Err(u) => Err(u),
            Ok(p) => Ok(node_text(n, place, p)),
        }
    }
}

/// The translation of a whole legacy syntax tree.
pub open spec fn translation(tree: SyntaxNode) -> Result<Seq<char>, Unsupported> {
    render(tree, false, ColonPlace::Elsewhere)
}

fn report(n: &SyntaxNode) -> (e: TranslateError)
    ensures
        e.reports(unsupported(*n)),
{
    TranslateError { kind: kind_text(&n.kind), text: n.text.clone(), start: n.start, end: n.end }
}

fn is_block_kind(k: &NodeKind) -> (r: bool)
    ensures
        r == is_block(*k),
{
    match k {
        NodeKind::IfCommand | NodeKind::ElseifCommand | NodeKind::ElseCommand | NodeKind::ForeachCommand => true,
        _ => false,
    }
}

fn header_fits(n: &SyntaxNode) -> (r: Option<usize>)
    ensures
        match r {
            Some(h) => h == header_len(*n) && h <= n.children@.len(),
            None => header_len(*n) > n.children@.len(),
        },
{
    match n.kind {
        NodeKind::ElseCommand => if n.children.len() < 1 {
            None
        } else {
            Some(1)
        },
        NodeKind::ForeachCommand => {
            let mut i: usize = 0;
            while i < n.children.len()
                invariant
                    i <= n.children.len(),
                    first_colon(n.children@, 0) == first_colon(n.children@, i as int),
                ensures
                    i <= n.children.len(),
                    first_colon(n.children@, 0) == i,
                decreases n.children.len() - i,
            {
                if matches!(n.children[i].kind, NodeKind::Colon) {
                    break;
                }
                i = i + 1;
            }
            if i >= n.children.len() || i + 1 >= n.children.len() {
                None
            } else {
                Some(i + 2)
            }
        },
        _ => if n.children.len() < 2 {
            None
        } else {
            Some(2)
        },
    }
}

proof fn lemma_fold_error_stays(n: SyntaxNode, i: int, j: int, in_dict: bool)
    requires
        0 <= i <= j <= n.children@.len(),
        fold_children(n, i, in_dict) is Err,
    ensures
        fold_children(n, j, in_dict) == fold_children(n, i, in_dict),
    decreases j - i,
{
    if i < j {
        lemma_fold_error_stays(n, i, j - 1, in_dict);
    }
}

fn render_children(n: &SyntaxNode, in_dict: bool) -> (r: Result<(String, String, String), TranslateError>)
    ensures
        match fold_children(*n, n.children@.len() as int, in_dict) {
            Ok(p) => r matches Ok(q) && q.0@ == p.0 && q.1@ == p.1 && q.2@ == p.2,
            Err(u) => r matches Err(e) && e.reports(u),
        },
    decreases n, n.children@.len(),
{
    let block = is_block_kind(&n.kind);
    let header: usize = if block {
        match header_fits(n) {
            Some(h) => h,
            None => n.children.len(),
        }
    } else {
        0
    };
    let child_in_dict = matches!(n.kind, NodeKind::Dictionaries);
    let place = if matches!(n.kind, NodeKind::ForeachCommand) {
        ColonPlace::ForeachHeader
    } else if in_dict {
        ColonPlace::DictEntry
    } else if matches!(n.kind, NodeKind::Pair) {
        ColonPlace::NamedArgument
    } else {
        ColonPlace::Elsewhere
    };
    let mut head = String::new();
    let mut body = String::new();
    let mut branches = String::new();
    let mut i: usize = 0;
    while i < n.children.len()
        invariant
            i <= n.children.len(),
            block == is_block(n.kind),
            block ==> header == header_len(*n) || (header_len(*n) > n.children@.len() && header
                == n.children@.len()),
            child_in_dict == matches!(n.kind, NodeKind::Dictionaries),
            place == colon_place(n.kind, in_dict),
            fold_children(*n, i as int, in_dict) matches Ok(p) && head@ == p.0 && body@ == p.1
                && branches@ == p.2,
        decreases n.children.len() - i,
    {
        let c = &n.children[i];
        let t = match render_node(c, child_in_dict, place) {
            Ok(t) => t,
            Err(e) => {
                proof {
                    lemma_fold_error_stays(*n, i + 1, n.children@.len() as int, in_dict);
                }
                return Err(e);
            },
        };
        if matches!(n.kind, NodeKind::SourceFile) {
            if !(matches!(c.kind, NodeKind::Comment)) {
                head.append(t.as_str());
                head.append("\n");
            }
        } else if block {
            if i < header {
                if i == 1 {
                    head.append(" ");
                }
                head.append(t.as_str());
            } else if matches!(c.kind, NodeKind::ElseifCommand) || matches!(c.kind, NodeKind::ElseCommand) {
                branches.append("\n");
                branches.append(t.as_str());
            } else if matches!(c.kind, NodeKind::Comment) || matches!(c.kind, NodeKind::Endif) || matches!(c.kind, NodeKind::Endforeach) {
            } else {
                body.append("\n");
                body.append(t.as_str());
            }
        } else {
            head.append(t.as_str());
        }
        i = i + 1;
    }
    Ok((head, body, branches))
}

fn node_own_text(n: &SyntaxNode, place: ColonPlace, head: String, body: String, branches: String) -> (r: String)
    ensures
        r@ == node_text(*n, place, (head@, body@, branches@)),
{
    match &n.kind {
        NodeKind::StringLiteral => n.text.clone(),
        NodeKind::NumberLiteral => n.text.clone(),
        NodeKind::BoolLiteral => if text_eq(n.text.as_str(), "true") {
            owned("True")
        } else {
            owned("False")
        },
        NodeKind::Identifier => if text_eq(n.text.as_str(), "meson") {
            owned("autoconfig")
        } else {
            n.text.clone()
        },
        NodeKind::If => owned("if"),
        NodeKind::Elif => owned("elif"),
        NodeKind::Else => owned("else"),
        NodeKind::Foreach => owned("for"),
        NodeKind::Break => owned("break"),
        NodeKind::Continue => owned("continue"),
        NodeKind::Endif => String::new(),
        NodeKind::Endforeach => String::new(),
        NodeKind::Comment => String::new(),
        NodeKind::Dot => owned("."),
        NodeKind::Comma => owned(", "),
        NodeKind::Bracket(s) => s.clone(),
        NodeKind::Operator(s) => {
            let mut r = owned(" ");
            r.append(s.as_str());
            r.append(" ");
            r
        },
        NodeKind::Colon => match place {
            ColonPlace::ForeachHeader => owned(" in "),
            ColonPlace::DictEntry => owned(": "),
            ColonPlace::NamedArgument => owned(" = "),
            ColonPlace::Elsewhere => String::new(),
        },
        _ => if is_block_kind(&n.kind) {
            let mut r = head;
            r.append(":");
            let inner = if body.as_str().unicode_len() == 0 {
                owned("\npass")
            } else {
                body
            };
            let ind = indent_block(&inner);
            r.append(ind.as_str());
            r.append(branches.as_str());
            r
        } else {
            head
        },
    }
}

fn render_node(n: &SyntaxNode, in_dict: bool, place: ColonPlace) -> (r: Result<String, TranslateError>)
    ensures
        match render(*n, in_dict, place) {
            Ok(t) => r matches Ok(s) && s@ == t,
            Err(u) => r matches Err(e) && e.reports(u),
        },
    decreases n, n.children@.len() + 1,
{
    let misplaced_colon = match &n.kind {
        NodeKind::Colon => place == ColonPlace::Elsewhere,
        _ => false,
    };
    let malformed = is_block_kind(&n.kind) && header_fits(n).is_none();
    if matches!(n.kind, NodeKind::Other(_)) || misplaced_colon || malformed {
        return Err(report(n));
    }
    match render_children(n, in_dict) {
        Err(e) => Err(e),
        Ok((head, body, branches)) => Ok(node_own_text(n, place, head, body, branches)),
    }
}


/// The text of a node that its translation shows: that of literals and names.
pub open spec fn shown_text(n: SyntaxNode) -> Seq<char> {
    match n.kind {
        NodeKind::StringLiteral => n.text@,
        NodeKind::NumberLiteral => n.text@,
        NodeKind::BoolLiteral => n.text@,
        NodeKind::Identifier => n.text@,
        _ => Seq::empty(),
    }
}

/// The child at `k` is a comment that stands outside a block header.
pub open spec fn removable_comment(n: SyntaxNode, k: int) -> bool {
    &&& 0 <= k < n.children@.len()
    &&& n.children@[k].kind is Comment
    &&& n.children@[k].children@.len() == 0
    &&& !(is_block(n.kind) && k < header_len(n))
}

/// `b` is `a` laid out differently: positions, white space inside nodes and
/// the text that translation does not show may differ, and at any node one
/// comment without children, outside a block header, may be left out.
pub open spec fn same_modulo_layout(a: SyntaxNode, b: SyntaxNode) -> bool
    decreases a,
{
    &&& a.kind == b.kind
    &&& shown_text(a) == shown_text(b)
    &&& {
        ||| {
            &&& b.children@.len() == a.children@.len()
            &&& forall|i: int|
                0 <= i < a.children@.len() ==> same_modulo_layout(a.children@[i], b.children@[i])
        }
        ||| exists|k: int|
            {
                &&& removable_comment(a, k)
                &&& b.children@.len() + 1 == a.children@.len()
                &&& forall|i: int|
                    0 <= i < k ==> same_modulo_layout(a.children@[i], b.children@[i])
                &&& forall|i: int|
                    k < i < a.children@.len() ==> same_modulo_layout(
                        a.children@[i],
                        b.children@[i - 1],
                    )
            }
    }
}

/// Two outcomes agree: both succeed with the same value, or both fail.
pub open spec fn agree<T, E>(r1: Result<T, E>, r2: Result<T, E>) -> bool {
    &&& (r1 is Ok <==> r2 is Ok)
    &&& (r1 is Ok ==> r1->Ok_0 == r2->Ok_0)
}

proof fn lemma_first_colon_bounds(s: Seq<SyntaxNode>, i: int)
    requires
        0 <= i <= s.len(),
    ensures
        i <= first_colon(s, i) <= s.len(),
        first_colon(s, i) < s.len() ==> s[first_colon(s, i)].kind is Colon,
    decreases s.len() - i,
{
    if i < s.len() && !(s[i].kind is Colon) {
        lemma_first_colon_bounds(s, i + 1);
    }
}

/// The first `:` is found at the same place in two child sequences whose
/// kinds agree up to index `k` (the second one shifted by `d` after it).
proof fn lemma_first_colon_agrees(sa: Seq<SyntaxNode>, sb: Seq<SyntaxNode>, k: int, d: int, i: int)
    requires
        d == 0 || d == 1,
        d == 0 ==> sb.len() == sa.len() && k == sa.len(),
        d == 1 ==> sb.len() + 1 == sa.len() && 0 <= k < sa.len() && !(sa[k].kind is Colon),
        0 <= i <= sa.len(),
        forall|j: int| 0 <= j < k ==> sa[j].kind == sb[j].kind,
        forall|j: int| k < j < sa.len() ==> sa[j].kind == sb[j - d].kind,
        d == 1 ==> first_colon(sa, i) < k,
        d == 1 ==> i <= k,
    ensures
        first_colon(sb, i) == first_colon(sa, i),
    decreases sa.len() - i,
{
    lemma_first_colon_bounds(sa, i);
    if i < sa.len() && !(sa[i].kind is Colon) {
        if d == 1 {
            lemma_first_colon_bounds(sa, i + 1);
            assert(i != k || first_colon(sa, i) == first_colon(sa, i + 1));
        }
        lemma_first_colon_agrees(sa, sb, k, d, i + 1);
    }
}

proof fn lemma_header_agrees(a: SyntaxNode, b: SyntaxNode)
    requires
        same_modulo_layout(a, b),
    ensures
        is_block(a.kind) ==> (header_len(a) > a.children@.len() <==> header_len(b) > b.children@.len()),
        forall|j: int|
            0 <= j && is_block(a.kind) && #[trigger] removable_comment(a, j) ==> header_len(b) == header_len(a),
        b.children@.len() == a.children@.len() ==> header_len(b) == header_len(a),
{
    if b.children@.len() == a.children@.len() {
        if a.kind is ForeachCommand {
            assert forall|j: int| 0 <= j < a.children@.len() implies a.children@[j].kind == b.children@[j].kind by {
                assert(same_modulo_layout(a.children@[j], b.children@[j]));
            }
            lemma_first_colon_agrees(a.children@, b.children@, a.children@.len() as int, 0, 0);
        }
    } else {
        let k = choose|k: int|
            {
                &&& removable_comment(a, k)
                &&& b.children@.len() + 1 == a.children@.len()
                &&& forall|i: int|
                    0 <= i < k ==> same_modulo_layout(a.children@[i], b.children@[i])
                &&& forall|i: int|
                    k < i < a.children@.len() ==> same_modulo_layout(
                        a.children@[i],
                        b.children@[i - 1],
                    )
            };
        if a.kind is ForeachCommand {
            lemma_first_colon_bounds(a.children@, 0);
            assert forall|j: int| 0 <= j < k implies a.children@[j].kind == b.children@[j].kind by {
                assert(same_modulo_layout(a.children@[j], b.children@[j]));
            }
            assert forall|j: int| k < j < a.children@.len() implies a.children@[j].kind
                == b.children@[j - 1].kind by {
                assert(same_modulo_layout(a.children@[j], b.children@[j - 1]));
            }
            lemma_first_colon_agrees(a.children@, b.children@, k, 1, 0);
        }
        assert forall|j: int|
            0 <= j && is_block(a.kind) && #[trigger] removable_comment(a, j) implies header_len(b)
            == header_len(a) by {
            if a.kind is ForeachCommand {
                lemma_first_colon_bounds(a.children@, 0);
            }
        }
    }
}


proof fn lemma_comment_adds_nothing(a: SyntaxNode, k: int, p: Parts)
    requires
        removable_comment(a, k),
    ensures
        add_part(a, k, a.children@[k], Seq::empty(), p) == p,
{
    assert(p.0 + Seq::<char>::empty() =~= p.0);
}

proof fn lemma_render_layout(a: SyntaxNode, b: SyntaxNode, in_dict: bool, place: ColonPlace)
    requires
        same_modulo_layout(a, b),
    ensures
        agree(render(a, in_dict, place), render(b, in_dict, place)),
    decreases a, a.children@.len() + 1,
{
    lemma_header_agrees(a, b);
    if b.children@.len() == a.children@.len() {
        lemma_fold_pairwise(a, b, a.children@.len() as int, in_dict);
    } else {
        let k = choose|k: int|
            {
                &&& removable_comment(a, k)
                &&& b.children@.len() + 1 == a.children@.len()
                &&& forall|i: int|
                    0 <= i < k ==> same_modulo_layout(a.children@[i], b.children@[i])
                &&& forall|i: int|
                    k < i < a.children@.len() ==> same_modulo_layout(
                        a.children@[i],
                        b.children@[i - 1],
                    )
            };
        lemma_fold_removed(a, b, k, a.children@.len() as int, in_dict);
    }
}

proof fn lemma_fold_pairwise(a: SyntaxNode, b: SyntaxNode, i: int, in_dict: bool)
    requires
        same_modulo_layout(a, b),
        b.children@.len() == a.children@.len(),
        0 <= i <= a.children@.len(),
    ensures
        agree(fold_children(a, i, in_dict), fold_children(b, i, in_dict)),
    decreases a, i,
{
    if i > 0 {
        lemma_fold_pairwise(a, b, i - 1, in_dict);
        lemma_header_agrees(a, b);
        let ca = a.children@[i - 1];
        let cb = b.children@[i - 1];
        assert(same_modulo_layout(ca, cb));
        lemma_render_layout(ca, cb, a.kind is Dictionaries, colon_place(a.kind, in_dict));
    }
}

proof fn lemma_fold_removed(a: SyntaxNode, b: SyntaxNode, k: int, i: int, in_dict: bool)
    requires
        a.kind == b.kind,
        removable_comment(a, k),
        b.children@.len() + 1 == a.children@.len(),
        forall|j: int| 0 <= j < k ==> same_modulo_layout(a.children@[j], b.children@[j]),
        forall|j: int| k < j < a.children@.len() ==> same_modulo_layout(a.children@[j], b.children@[j - 1]),
        header_len(a) == header_len(b),
        0 <= i <= a.children@.len(),
    ensures
        i <= k ==> agree(fold_children(a, i, in_dict), fold_children(b, i, in_dict)),
        i > k ==> agree(fold_children(a, i, in_dict), fold_children(b, i - 1, in_dict)),
    decreases a, i,
{
    if i > 0 {
        lemma_fold_removed(a, b, k, i - 1, in_dict);
        let ca = a.children@[i - 1];
        let ctx_dict = a.kind is Dictionaries;
        let ctx_place = colon_place(a.kind, in_dict);
        if i - 1 < k {
            let cb = b.children@[i - 1];
            assert(same_modulo_layout(ca, cb));
            lemma_render_layout(ca, cb, ctx_dict, ctx_place);
        } else if i - 1 == k {
            assert(fold_children(ca, 0, ctx_dict) == Ok::<Parts, Unsupported>(
                (Seq::empty(), Seq::empty(), Seq::empty()),
            ));
            assert(render(ca, ctx_dict, ctx_place) == Ok::<Seq<char>, Unsupported>(Seq::empty()));
            match fold_children(a, k, in_dict) {
                Ok(p) => {
                    lemma_comment_adds_nothing(a, k, p);
                },
                Err(_) => {},
            }
        } else {
            let cb = b.children@[i - 2];
            assert(same_modulo_layout(ca, cb));
            lemma_render_layout(ca, cb, ctx_dict, ctx_place);
        }
    }
}

/// Two legacy trees that differ only in layout translate alike: where one
/// translates, so does the other, to the same text. Layout is what
/// `same_modulo_layout` allows to differ: positions, white space inside
/// nodes, and at each node one comment (a leaf) outside a block header; taking such
/// steps one after another, any number of those comments.
pub proof fn lemma_translation_ignores_layout(a: SyntaxNode, b: SyntaxNode)
    requires
        same_modulo_layout(a, b),
    ensures
        agree(translation(a), translation(b)),
{
    lemma_render_layout(a, b, false, ColonPlace::Elsewhere);
}

/// Translates a legacy syntax tree into embedded-dialect source text, or
/// reports the first node, in source order, that is not supported.
pub fn translate(tree: &SyntaxNode) -> (r: Result<String, TranslateError>)
    ensures
        match translation(*tree) {
            Ok(t) => r matches Ok(s) && s@ == t,
            Err(u) => r matches Err(e) && e.reports(u),
        },
{
    render_node(tree, false, ColonPlace::Elsewhere)
}

} // verus!
