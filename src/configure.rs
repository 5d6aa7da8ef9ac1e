//! Generated-header rendering: line-oriented substitution of a template
//! against configuration data.
use vstd::prelude::*;

use crate::config::{has_key, key_index, ConfigEntry, ConfigValue, ConfigurationData};
use crate::text::{
    chars_of, decimal_of, decimal_text, starts_with_seq, starts_with_text, string_of, sub_chars, trim_text,
    trimmed, views,
};
use crate::translate::{lines_from, strip_cr, text_lines};

verus! {

/// Why a template could not be rendered.
pub enum RenderError {
    /// A `#cmakedefine` line with no name after the marker.
    MalformedMacroLine(String),
}

/// The commented-out line for a key that is not defined.
pub open spec fn undef_line(k: Seq<char>) -> Seq<char> {
    "/* #undef "@ + k + " */"@
}

/// The line that a macro for key `k` becomes: a definition with the value
/// for strings and integers, a bare definition for `true`, and a
/// commented-out line for anything else or a missing key.
pub open spec fn define_line(es: Seq<ConfigEntry>, k: Seq<char>) -> Seq<char> {
    if !has_key(es, k) {
        undef_line(k)
    } else {
        match es[key_index(es, k)].value {
            ConfigValue::Text { text: _, repr } => "#define "@ + k + " "@ + repr@,
            ConfigValue::Integer(n) => "#define "@ + k + " "@ + decimal_of(n as int),
            ConfigValue::Boolean(b) => if b {
                "#define "@ + k
            } else {
                undef_line(k)
            },
            ConfigValue::Other { text: _ } => undef_line(k),
        }
    }
}

/// A value in its string form.
pub open spec fn value_text(v: ConfigValue) -> Seq<char> {
    match v {
        ConfigValue::Text { text, repr: _ } => text@,
        ConfigValue::Integer(n) => decimal_of(n as int),
        ConfigValue::Boolean(b) => if b {
            "True"@
        } else {
            "False"@
        },
        ConfigValue::Other { text } => text@,
    }
}

/// The index of the first space at or after `i`, or the length of `l`.
pub open spec fn space_from(l: Seq<char>, i: int) -> int
    decreases l.len() - i,
{
    if i >= l.len() {
        l.len() as int
    } else if l[i] == ' ' {
        i
    } else {
        space_from(l, i + 1)
    }
}

/// The key that a macro line names: the `KEY` of a trailing `@KEY@`, or else
/// the word after the marker.
pub open spec fn macro_key(l: Seq<char>) -> Seq<char> {
    let a = space_from(l, 0);
    let b = space_from(l, a + 1);
    let v = trimmed(l.subrange(b, l.len() as int));
    if v.len() >= 2 && v[0] == '@' && v.last() == '@' {
        v.subrange(1, v.len() - 1)
    } else {
        l.subrange(a + 1, b)
    }
}

/// What a template line becomes, or `None` for a macro line with no name.
pub open spec fn rendered_line(es: Seq<ConfigEntry>, l: Seq<char>) -> Option<Seq<char>> {
    if starts_with_seq(l, "#cmakedefine"@) {
        if space_from(l, 0) >= l.len() {
            None
        } else {
            Some(define_line(es, macro_key(l)))
        }
    } else if has_key(es, l) {
        Some(value_text(es[key_index(es, l)].value))
    } else {
        Some(l)
    }
}

/// The rendering of the lines, each followed by a line break, or the first
/// malformed macro line.
pub open spec fn rendered_lines(es: Seq<ConfigEntry>, lines: Seq<Seq<char>>) -> Result<Seq<char>, Seq<char>>
    decreases lines.len(),
{
    if lines.len() == 0 {
        Ok(Seq::empty())
    } else {
        match rendered_lines(es, lines.drop_last()) {
            Err(l) => Err(l),
            Ok(a) => match rendered_line(es, lines.last()) {
                None => Err(lines.last()),
                Some(b) => Ok(a + b + "\n"@),
            },
        }
    }
}

/// The rendering of a whole template.
pub open spec fn rendered(es: Seq<ConfigEntry>, template: Seq<char>) -> Result<Seq<char>, Seq<char>> {
    rendered_lines(es, text_lines(template))
}

/// The lines of `s`, as `str::lines` and `BufRead::lines` split them.
pub fn split_lines(s: &str) -> (r: Vec<String>)
    ensures
        views(r@) == text_lines(s@),
{
    let v = chars_of(s);
    let mut lines: Vec<String> = Vec::new();
    let mut cur: Vec<char> = Vec::new();
    let mut i: usize = 0;
    assert(v@.skip(0) =~= v@);
    assert(views(lines@) =~= Seq::<Seq<char>>::empty());
    while i < v.len()
        invariant
            i <= v.len(),
            v@ == s@,
            views(lines@) + lines_from(v@.skip(i as int), cur@) == text_lines(s@),
        decreases v.len() - i,
    {
        let ghost rest = v@.skip(i as int);
        assert(rest.drop_first() =~= v@.skip(i + 1));
        assert(rest[0] == v@[i as int]);
        if v[i] == '\n' {
            let mut line = cur;
            if line.len() > 0 && line[line.len() - 1] == '\r' {
                line.pop();
            }
            proof {
                if cur@.len() > 0 && cur@.last() == '\r' {
                    assert(line@ =~= cur@.drop_last());
                }
            }
            let ghost before = lines@;
            lines.push(string_of(&line));
            assert(views(lines@) =~= views(before).push(strip_cr(cur@)));
            assert(views(lines@) + lines_from(v@.skip(i + 1), Seq::empty()) =~= views(before)
                + lines_from(rest, cur@));
            cur = Vec::new();
        } else {
            let ghost old_cur = cur@;
            cur.push(v[i]);
            assert(lines_from(rest, old_cur) == lines_from(v@.skip(i + 1), cur@));
        }
        i = i + 1;
    }
    assert(v@.skip(i as int) =~= Seq::<char>::empty());
    if cur.len() > 0 {
        let ghost before = lines@;
        lines.push(string_of(&cur));
        assert(views(lines@) =~= views(before).push(cur@));
    }
    assert(views(lines@) =~= text_lines(s@));
    lines
}

fn space_index(l: &Vec<char>, from: usize) -> (r: usize)
    requires
        from <= l.len(),
    ensures
        r == space_from(l@, from as int),
        from <= r <= l.len(),
{
    let mut i: usize = from;
    while i < l.len()
        invariant
            from <= i <= l.len(),
            space_from(l@, from as int) == space_from(l@, i as int),
        decreases l.len() - i,
    {
        if l[i] == ' ' {
            return i;
        }
        i = i + 1;
    }
    i
}

fn macro_key_of(l: &Vec<char>) -> (r: String)
    requires
        space_from(l@, 0) < l@.len(),
    ensures
        r@ == macro_key(l@),
{
    let a = space_index(l, 0);
    let b = space_index(l, a + 1);
    let tail = string_of(&sub_chars(l, b, l.len()));
    let v = chars_of(trim_text(tail.as_str()).as_str());
    if v.len() >= 2 && v[0] == '@' && v[v.len() - 1] == '@' {
        string_of(&sub_chars(&v, 1, v.len() - 1))
    } else {
        string_of(&sub_chars(l, a + 1, b))
    }
}

fn push_undef(out: &mut String, k: &str)
    ensures
        final(out)@ == old(out)@ + undef_line(k@),
{
    out.append("/* #undef ");
    out.append(k);
    out.append(" */");
}

fn push_define(out: &mut String, data: &ConfigurationData, k: &str)
    requires
        data.wf(),
    ensures
        final(out)@ == old(out)@ + define_line(data.entries(), k@),
{
    match data.get(k) {
        None => push_undef(out, k),
        Some(e) => match &e.value {
            ConfigValue::Text { text: _, repr } => {
                out.append("#define ");
                out.append(k);
                out.append(" ");
                out.append(repr.as_str());
            },
            ConfigValue::Integer(n) => {
                out.append("#define ");
                out.append(k);
                out.append(" ");
                out.append(decimal_text(*n).as_str());
            },
            ConfigValue::Boolean(b) => if *b {
                out.append("#define ");
                out.append(k);
            } else {
                push_undef(out, k);
            },
            ConfigValue::Other { text: _ } => push_undef(out, k),
        },
    }
}

fn push_value(out: &mut String, v: &ConfigValue)
    ensures
        final(out)@ == old(out)@ + value_text(*v),
{
    match v {
        ConfigValue::Text { text, repr: _ } => out.append(text.as_str()),
        ConfigValue::Integer(n) => out.append(decimal_text(*n).as_str()),
        ConfigValue::Boolean(b) => if *b {
            out.append("True");
        } else {
            out.append("False");
        },
        ConfigValue::Other { text } => out.append(text.as_str()),
    }
}

/// Renders a template against configuration data: a line starting with
/// `#cmakedefine NAME` (optionally followed by `@KEY@`) becomes a definition
/// or a commented-out undefinition of its key; any other line that equals a
/// key becomes that key's value; every other line stays. Each output line
/// ends with a line break.
pub fn render_template(template: &str, data: &ConfigurationData) -> (r: Result<String, RenderError>)
    requires
        data.wf(),
    ensures
        match rendered(data.entries(), template@) {
            Ok(t) => r matches Ok(s) && s@ == t,
            Err(l) => r matches Err(RenderError::MalformedMacroLine(x)) && x@ == l,
        },
{
    let lines = split_lines(template);
    let ghost ls = text_lines(template@);
    let mut out = String::new();
    let mut i: usize = 0;
    while i < lines.len()
        invariant
            i <= lines.len(),
            data.wf(),
            views(lines@) == ls,
            ls == text_lines(template@),
            rendered_lines(data.entries(), ls.take(i as int)) == Ok::<Seq<char>, Seq<char>>(out@),
        decreases lines.len() - i,
    {
        let line = &lines[i];
        assert(ls.take(i + 1).drop_last() =~= ls.take(i as int));
        assert(ls[i as int] == line@);
        if starts_with_text(line.as_str(), "#cmakedefine") {
            let l = chars_of(line.as_str());
            let a = space_index(&l, 0);
            if a >= l.len() {
                proof {
                    lemma_render_error_stays(data.entries(), ls, i as int + 1, ls.len() as int);
                    assert(ls.take(ls.len() as int) =~= ls);
                }
                return Err(RenderError::MalformedMacroLine(line.clone()));
            }
            let k = macro_key_of(&l);
            push_define(&mut out, data, k.as_str());
        } else {
            match data.get(line.as_str()) {
                Some(e) => push_value(&mut out, &e.value),
                None => out.append(line.as_str()),
            }
        }
        out.append("\n");
        i = i + 1;
    }
    assert(ls.take(ls.len() as int) =~= ls);
    Ok(out)
}

proof fn lemma_render_error_stays(es: Seq<ConfigEntry>, ls: Seq<Seq<char>>, i: int, j: int)
    requires
        0 <= i <= j <= ls.len(),
        rendered_lines(es, ls.take(i)) is Err,
    ensures
        rendered_lines(es, ls.take(j)) == rendered_lines(es, ls.take(i)),
    decreases j - i,
{
    if i < j {
        lemma_render_error_stays(es, ls, i, j - 1);
        assert(ls.take(j).drop_last() =~= ls.take(j - 1));
    }
}

} // verus!
