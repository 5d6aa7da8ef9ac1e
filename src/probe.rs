//! Toolchain capability probes: the programs each probe compiles, the command
//! lines that compile them, and the decisions taken on the outcomes.
//!
//! Running the compiler is left to the caller: each probe here says what to
//! compile and how to read what came back.
use vstd::prelude::*;

use crate::text::{contains_text, starts_with_text, contains_seq, starts_with_seq, views};

verus! {

/// The identity of the toolchain that answers the probes of one run.
pub struct CompilerHandle {
    pub toolchain: String,
    pub executable: String,
    pub args: Vec<String>,
}

/// The arguments of a compile-only invocation that reads the program from
/// standard input and discards the object file.
pub open spec fn compile_only_args(handle_args: Seq<Seq<char>>, extra: Seq<Seq<char>>) -> Seq<Seq<char>> {
    seq!["-O0"@, "-v"@, "-c"@, "-x"@, "c++"@, "-"@, "-o"@, "/dev/null"@] + handle_args + extra
}

/// The arguments of an invocation that compiles and links the program read
/// from standard input and discards the executable: it succeeds only when
/// every symbol the program uses is defined.
pub open spec fn link_check_args(handle_args: Seq<Seq<char>>) -> Seq<Seq<char>> {
    seq!["-O0"@, "-x"@, "c++"@, "-"@, "-o"@, "/dev/null"@] + handle_args
}

/// The arguments of an invocation that compiles and links the program read
/// from standard input into `output`.
pub open spec fn compile_and_link_args(handle_args: Seq<Seq<char>>, output: Seq<char>) -> Seq<Seq<char>> {
    seq!["-v"@, "-x"@, "c++"@, "-"@, "-o"@, output] + handle_args
}

fn push_text(v: &mut Vec<String>, s: &str)
    ensures
        views(final(v)@) == views(old(v)@).push(s@),
{
    let mut t = String::new();
    t.append(s);
    v.push(t);
    assert(views(final(v)@) =~= views(old(v)@).push(s@));
}

fn push_all(v: &mut Vec<String>, w: &Vec<String>)
    ensures
        views(final(v)@) == views(old(v)@) + views(w@),
{
    let mut i: usize = 0;
    while i < w.len()
        invariant
            i <= w.len(),
            views(v@) == views(old(v)@) + views(w@.take(i as int)),
        decreases w.len() - i,
    {
        let ghost before = v@;
        v.push(w[i].clone());
        assert(views(w@.take(i + 1)) =~= views(w@.take(i as int)).push(w@[i as int]@));
        assert(views(v@) =~= views(before).push(w@[i as int]@));
        i = i + 1;
    }
    assert(w@.take(w.len() as int) =~= w@);
}

impl CompilerHandle {
    /// The arguments that compile a program from standard input without
    /// linking, the handle's own arguments and then `extra` appended.
    pub fn compile_only_command(&self, extra: &Vec<String>) -> (r: Vec<String>)
        ensures
            views(r@) == compile_only_args(views(self.args@), views(extra@)),
    {
        let mut r: Vec<String> = Vec::new();
        push_text(&mut r, "-O0");
        push_text(&mut r, "-v");
        push_text(&mut r, "-c");
        push_text(&mut r, "-x");
        push_text(&mut r, "c++");
        push_text(&mut r, "-");
        push_text(&mut r, "-o");
        push_text(&mut r, "/dev/null");
        push_all(&mut r, &self.args);
        push_all(&mut r, extra);
        assert(views(r@) =~= compile_only_args(views(self.args@), views(extra@)));
        r
    }

    /// The arguments that compile and link a program from standard input,
    /// discarding the executable; `has_function` checks its programs so.
    pub fn link_check_command(&self) -> (r: Vec<String>)
        ensures
            views(r@) == link_check_args(views(self.args@)),
    {
        let mut r: Vec<String> = Vec::new();
        push_text(&mut r, "-O0");
        push_text(&mut r, "-x");
        push_text(&mut r, "c++");
        push_text(&mut r, "-");
        push_text(&mut r, "-o");
        push_text(&mut r, "/dev/null");
        push_all(&mut r, &self.args);
        assert(views(r@) =~= link_check_args(views(self.args@)));
        r
    }

    /// The arguments that compile and link a program from standard input
    /// into the executable `output`.
    pub fn compile_and_link_command(&self, output: &str) -> (r: Vec<String>)
        ensures
            views(r@) == compile_and_link_args(views(self.args@), output@),
    {
        let mut r: Vec<String> = Vec::new();
        push_text(&mut r, "-v");
        push_text(&mut r, "-x");
        push_text(&mut r, "c++");
        push_text(&mut r, "-");
        push_text(&mut r, "-o");
        push_text(&mut r, output);
        push_all(&mut r, &self.args);
        assert(views(r@) =~= compile_and_link_args(views(self.args@), output@));
        r
    }
}

/// The program of `has_type`: `sizeof` of the type under the prefix.
pub open spec fn type_program(sym: Seq<char>, prefix: Seq<char>) -> Seq<char> {
    prefix + "\nint main(void) {\n    (void) sizeof("@ + sym + ");\n    return 0;\n}\n"@
}

/// The program of `has_header`: a conditional `__has_include` where the
/// compiler offers it, an unconditional inclusion otherwise.
pub open spec fn header_program(header: Seq<char>, prefix: Seq<char>) -> Seq<char> {
    prefix + "\n#ifdef __has_include\n    #if !__has_include(\""@ + header
        + "\")\n    #error \"Header '"@ + header + "' could not be found\"\n    #endif\n#else\n    #include <"@
        + header + ">\n#endif\n"@
}

/// The program of `has_header_symbol`: the header included, the symbol used
/// as a value unless it is a macro.
pub open spec fn header_symbol_program(header: Seq<char>, symbol: Seq<char>, prefix: Seq<char>) -> Seq<char> {
    prefix + "\n#include <"@ + header
        + ">\nint main(void) {\n    /* If it's not defined as a macro, try to use as a symbol */\n    #ifndef "@
        + symbol + "\n        "@ + symbol + ";\n    #endif\n    return 0;\n}\n"@
}

/// The program of `has_member`: a variable of the type, its member referenced.
pub open spec fn member_program(record_type: Seq<char>, member: Seq<char>, prefix: Seq<char>) -> Seq<char> {
    prefix + "\nint main(void) {\n    "@ + record_type + " foo;\n    (void) ( foo."@ + member
        + " );\n    (void) foo;\n    return 0;\n}\n"@
}

/// The program of `sizeof`: prints the size of the symbol in decimal.
pub open spec fn size_program(sym: Seq<char>, prefix: Seq<char>) -> Seq<char> {
    prefix + "\n#include <stddef.h>\n#include <stdio.h>\nint main(void) {\n    printf(\"%ld\", (long)(sizeof("@
        + sym + ")));\n    return 0;\n}\n"@
}

/// The program that each flag of `get_supported_arguments` is tried with.
pub open spec fn argument_program() -> Seq<char> {
    "extern int i;\nint i;\n"@
}

/// The guard against functions that the C library defines as failing stubs.
pub open spec fn stub_guard(func: Seq<char>) -> Seq<char> {
    "\n#if defined __stub_"@ + func + " || defined __stub___"@ + func
        + "\nfail fail fail this function is not going to work\n#endif\n"@
}

/// Whether the prefix brings in headers of its own.
pub open spec fn prefix_includes(prefix: Seq<char>) -> bool {
    contains_seq(prefix, "#include"@)
}

/// The first program of `has_function`. Under a prefix with headers, the
/// function's address is taken with the headers' prototype and cast to an
/// integer so that it is not optimised away. Otherwise the symbol is
/// redeclared with a return type that no real prototype has and called.
pub open spec fn function_program(func: Seq<char>, prefix: Seq<char>) -> Seq<char> {
    if prefix_includes(prefix) {
        prefix + "\n#include <limits.h>\n"@ + stub_guard(func)
            + "\nint main(void) {\n    void *a = (void*) &"@ + func
            + ";\n    long long b = (long long) a;\n    return (int) b;\n}\n"@
    } else {
        "\n#define "@ + func + " meson_disable_define_of_"@ + func + "\n"@ + prefix
            + "\n#include <limits.h>\n#undef "@ + func + "\n"@ + stub_guard(func)
            + "\n#ifdef __cplusplus\nextern \"C\"\n#endif\nchar "@ + func + " (void);\n"@
            + "\nint main(void) {\n    return "@ + func + " ();\n}\n"@
    }
}

pub open spec fn flag_text(b: bool) -> Seq<char> {
    if b {
        "1"@
    } else {
        "0"@
    }
}

/// Whether the function's name is itself a compiler built-in.
pub open spec fn is_builtin_name(func: Seq<char>) -> bool {
    starts_with_seq(func, "__builtin_"@)
}

/// The second program of `has_function`, which looks for the function as a
/// compiler built-in. Under a prefix with headers that leave the name
/// undefined, a built-in that the compiler accepts but does not implement
/// is refused.
pub open spec fn builtin_program(func: Seq<char>, prefix: Seq<char>) -> Seq<char> {
    let b = if is_builtin_name(func) {
        ""@
    } else {
        "__builtin_"@
    };
    prefix + "\nint main(void) {\n#if !"@ + flag_text(!prefix_includes(prefix)) + " && !defined("@
        + func + ") && !"@ + flag_text(is_builtin_name(func)) + "\n    #error \"No definition for "@ + b
        + func + " found in the prefix\"\n#endif\n#ifdef __has_builtin\n    #if !__has_builtin("@ + b
        + func + ")\n        #error \""@ + b + func + " not found\"\n    #endif\n#elif ! defined("@
        + func + ")\n    "@ + b + func + ";\n#endif\n    return 0;\n}\n"@
}

/// The program that `has_type` compiles.
pub fn has_type_source(sym: &str, prefix: &str) -> (r: String)
    ensures
        r@ == type_program(sym@, prefix@),
{
    let mut r = String::new();
    r.append(prefix);
    r.append("\nint main(void) {\n    (void) sizeof(");
    r.append(sym);
    r.append(");\n    return 0;\n}\n");
    r
}

/// The program that `has_header` compiles.
pub fn has_header_source(header: &str, prefix: &str) -> (r: String)
    ensures
        r@ == header_program(header@, prefix@),
{
    let mut r = String::new();
    r.append(prefix);
    r.append("\n#ifdef __has_include\n    #if !__has_include(\"");
    r.append(header);
    r.append("\")\n    #error \"Header '");
    r.append(header);
    r.append("' could not be found\"\n    #endif\n#else\n    #include <");
    r.append(header);
    r.append(">\n#endif\n");
    r
}

/// The program that `has_header_symbol` compiles.
pub fn has_header_symbol_source(header: &str, symbol: &str, prefix: &str) -> (r: String)
    ensures
        r@ == header_symbol_program(header@, symbol@, prefix@),
{
    let mut r = String::new();
    r.append(prefix);
    r.append("\n#include <");
    r.append(header);
    r.append(
        ">\nint main(void) {\n    /* If it's not defined as a macro, try to use as a symbol */\n    #ifndef ",
    );
    r.append(symbol);
    r.append("\n        ");
    r.append(symbol);
    r.append(";\n    #endif\n    return 0;\n}\n");
    r
}

/// The program that `has_member` compiles.
pub fn has_member_source(record_type: &str, member: &str, prefix: &str) -> (r: String)
    ensures
        r@ == member_program(record_type@, member@, prefix@),
{
    let mut r = String::new();
    r.append(prefix);
    r.append("\nint main(void) {\n    ");
    r.append(record_type);
    r.append(" foo;\n    (void) ( foo.");
    r.append(member);
    r.append(" );\n    (void) foo;\n    return 0;\n}\n");
    r
}

/// The program that `sizeof` compiles, links and runs.
pub fn sizeof_source(sym: &str, prefix: &str) -> (r: String)
    ensures
        r@ == size_program(sym@, prefix@),
{
    let mut r = String::new();
    r.append(prefix);
    r.append("\n#include <stddef.h>\n#include <stdio.h>\nint main(void) {\n    printf(\"%ld\", (long)(sizeof(");
    r.append(sym);
    r.append(")));\n    return 0;\n}\n");
    r
}

/// The program that each flag of `get_supported_arguments` is tried with.
pub fn supported_argument_source() -> (r: String)
    ensures
        r@ == argument_program(),
{
    let mut r = String::new();
    r.append("extern int i;\nint i;\n");
    r
}

/// The extra arguments with which `flag` is tried: compile only, then the flag.
pub fn supported_argument_args(flag: &str) -> (r: Vec<String>)
    ensures
        views(r@) == seq!["-c"@, flag@],
{
    let mut r: Vec<String> = Vec::new();
    push_text(&mut r, "-c");
    push_text(&mut r, flag);
    assert(views(r@) =~= seq!["-c"@, flag@]);
    r
}

fn append_stub_guard(r: &mut String, func: &str)
    ensures
        final(r)@ == old(r)@ + stub_guard(func@),
{
    r.append("\n#if defined __stub_");
    r.append(func);
    r.append(" || defined __stub___");
    r.append(func);
    r.append("\nfail fail fail this function is not going to work\n#endif\n");
}

/// The first program that `has_function` compiles.
pub fn has_function_source(func: &str, prefix: &str) -> (r: String)
    ensures
        r@ == function_program(func@, prefix@),
{
    let mut r = String::new();
    if contains_text(prefix, "#include") {
        r.append(prefix);
        r.append("\n#include <limits.h>\n");
        append_stub_guard(&mut r, func);
        r.append("\nint main(void) {\n    void *a = (void*) &");
        r.append(func);
        r.append(";\n    long long b = (long long) a;\n    return (int) b;\n}\n");
    } else {
        r.append("\n#define ");
        r.append(func);
        r.append(" meson_disable_define_of_");
        r.append(func);
        r.append("\n");
        r.append(prefix);
        r.append("\n#include <limits.h>\n#undef ");
        r.append(func);
        r.append("\n");
        append_stub_guard(&mut r, func);
        r.append("\n#ifdef __cplusplus\nextern \"C\"\n#endif\nchar ");
        r.append(func);
        r.append(" (void);\n");
        r.append("\nint main(void) {\n    return ");
        r.append(func);
        r.append(" ();\n}\n");
    }
    r
}

fn flag_str(b: bool) -> (r: &'static str)
    ensures
        r@ == flag_text(b),
{
    if b {
        "1"
    } else {
        "0"
    }
}

/// The second program that `has_function` compiles, when the first failed.
pub fn has_builtin_source(func: &str, prefix: &str) -> (r: String)
    ensures
        r@ == builtin_program(func@, prefix@),
{
    let builtin = starts_with_text(func, "__builtin_");
    let no_includes = !contains_text(prefix, "#include");
    let b: &str = if builtin {
        ""
    } else {
        "__builtin_"
    };
    let mut r = String::new();
    r.append(prefix);
    r.append("\nint main(void) {\n#if !");
    r.append(flag_str(no_includes));
    r.append(" && !defined(");
    r.append(func);
    r.append(") && !");
    r.append(flag_str(builtin));
    r.append("\n    #error \"No definition for ");
    r.append(b);
    r.append(func);
    r.append(" found in the prefix\"\n#endif\n#ifdef __has_builtin\n    #if !__has_builtin(");
    r.append(b);
    r.append(func);
    r.append(")\n        #error \"");
    r.append(b);
    r.append(func);
    r.append(" not found\"\n    #endif\n#elif ! defined(");
    r.append(func);
    r.append(")\n    ");
    r.append(b);
    r.append(func);
    r.append(";\n#endif\n    return 0;\n}\n");
    r
}

/// Where a `has_function` probe stands.
#[derive(PartialEq, Eq, Structural)]
pub enum FunctionProbeStage {
    /// The first program is still to be compiled.
    Prototype,
    /// The first program failed; the built-in program is still to be compiled.
    Builtin,
    /// The answer is known.
    Answered(bool),
}

/// The stage a `has_function` probe reaches when the program of `stage`
/// compiled (`compiled`) or not.
pub open spec fn function_step(stage: FunctionProbeStage, compiled: bool) -> FunctionProbeStage {
    match stage {
        FunctionProbeStage::Prototype => if compiled {
            FunctionProbeStage::Answered(true)
        } else {
            FunctionProbeStage::Builtin
        },
        FunctionProbeStage::Builtin => FunctionProbeStage::Answered(compiled),
        FunctionProbeStage::Answered(b) => FunctionProbeStage::Answered(b),
    }
}

/// A `has_function` probe: the first program, and when it fails the
/// built-in program; the function is found when either compiles and links
/// (see `CompilerHandle::link_check_command`).
pub struct FunctionProbe {
    pub func: String,
    pub prefix: String,
    pub stage: FunctionProbeStage,
}

impl FunctionProbe {
    /// A probe for `func` under `prefix`, with nothing compiled yet.
    pub fn new(func: &str, prefix: &str) -> (r: FunctionProbe)
        ensures
            r.func@ == func@,
            r.prefix@ == prefix@,
            r.stage == FunctionProbeStage::Prototype,
    {
        let mut f = String::new();
        f.append(func);
        let mut p = String::new();
        p.append(prefix);
        FunctionProbe { func: f, prefix: p, stage: FunctionProbeStage::Prototype }
    }

    /// The program to compile next, or `None` once the answer is known.
    pub fn next_source(&self) -> (r: Option<String>)
        ensures
            match self.stage {
                FunctionProbeStage::Prototype => r matches Some(s) && s@ == function_program(
                    self.func@,
                    self.prefix@,
                ),
                FunctionProbeStage::Builtin => r matches Some(s) && s@ == builtin_program(
                    self.func@,
                    self.prefix@,
                ),
                FunctionProbeStage::Answered(_) => r is None,
            },
    {
        match self.stage {
            FunctionProbeStage::Prototype => Some(has_function_source(self.func.as_str(), self.prefix.as_str())),
            FunctionProbeStage::Builtin => Some(has_builtin_source(self.func.as_str(), self.prefix.as_str())),
            FunctionProbeStage::Answered(_) => None,
        }
    }

    /// Takes in whether the program of `next_source` compiled and linked.
    pub fn record(&mut self, compiled: bool)
        ensures
            final(self).func == old(self).func,
            final(self).prefix == old(self).prefix,
            final(self).stage == function_step(old(self).stage, compiled),
    {
        let next = match self.stage {
            FunctionProbeStage::Prototype => if compiled {
                FunctionProbeStage::Answered(true)
            } else {
                FunctionProbeStage::Builtin
            },
            FunctionProbeStage::Builtin => FunctionProbeStage::Answered(compiled),
            FunctionProbeStage::Answered(b) => FunctionProbeStage::Answered(b),
        };
        self.stage = next;
    }

    /// The answer, once known.
    pub fn answer(&self) -> (r: Option<bool>)
        ensures
            match self.stage {
                FunctionProbeStage::Answered(b) => r == Some(b),
                _ => r is None,
            },
    {
        match self.stage {
            FunctionProbeStage::Answered(b) => Some(b),
            _ => None,
        }
    }
}

/// A `has_function` probe answers `true` as soon as the first program
/// compiles, and otherwise answers whether the built-in program compiles.
pub proof fn lemma_function_probe_answer(first: bool, second: bool)
    ensures
        first ==> function_step(FunctionProbeStage::Prototype, first) == FunctionProbeStage::Answered(true),
        !first ==> function_step(function_step(FunctionProbeStage::Prototype, first), second)
            == FunctionProbeStage::Answered(second),
{
}

/// The flags kept by `get_supported_arguments`: those whose check compiled,
/// in the order given.
pub open spec fn kept_flags(checks: Seq<(String, bool)>) -> Seq<Seq<char>>
    decreases checks.len(),
{
    if checks.len() == 0 {
        Seq::empty()
    } else {
        let rest = kept_flags(checks.drop_last());
        if checks.last().1 {
            rest.push(checks.last().0@)
        } else {
            rest
        }
    }
}

/// The positions of the flags kept by `get_supported_arguments`.
pub open spec fn kept_positions(checks: Seq<(String, bool)>) -> Seq<int>
    decreases checks.len(),
{
    if checks.len() == 0 {
        Seq::empty()
    } else {
        let rest = kept_positions(checks.drop_last());
        if checks.last().1 {
            rest.push(checks.len() - 1)
        } else {
            rest
        }
    }
}

/// The flags that compiled, each paired with the outcome of its check, in
/// the order given.
pub fn select_supported(checks: &Vec<(String, bool)>) -> (r: Vec<String>)
    ensures
        views(r@) == kept_flags(checks@),
{
    let mut r: Vec<String> = Vec::new();
    let mut i: usize = 0;
    while i < checks.len()
        invariant
            i <= checks.len(),
            views(r@) == kept_flags(checks@.take(i as int)),
        decreases checks.len() - i,
    {
        let ghost before = r@;
        assert(checks@.take(i + 1).drop_last() =~= checks@.take(i as int));
        if checks[i].1 {
            r.push(checks[i].0.clone());
            assert(views(r@) =~= views(before).push(checks@[i as int].0@));
        }
        i = i + 1;
    }
    assert(checks@.take(checks.len() as int) =~= checks@);
    r
}

/// `get_supported_arguments` keeps its input's order and drops exactly the
/// flags whose check failed: the kept flags stand at strictly increasing
/// positions of the input, each of them compiled, and every flag that
/// compiled is among them.
pub proof fn lemma_supported_arguments_order(checks: Seq<(String, bool)>)
    ensures
        kept_positions(checks).len() == kept_flags(checks).len(),
        forall|k: int|
            0 <= k < kept_flags(checks).len() ==> {
                let p = #[trigger] kept_positions(checks)[k];
                &&& 0 <= p < checks.len()
                &&& checks[p].1
                &&& kept_flags(checks)[k] == checks[p].0@
            },
        forall|k1: int, k2: int|
            0 <= k1 < k2 < kept_positions(checks).len() ==> kept_positions(checks)[k1]
                < kept_positions(checks)[k2],
        forall|i: int|
            0 <= i < checks.len() && #[trigger] checks[i].1 ==> exists|k: int|
                0 <= k < kept_positions(checks).len() && kept_positions(checks)[k] == i,
    decreases checks.len(),
{
    if checks.len() > 0 {
        let rest = checks.drop_last();
        lemma_supported_arguments_order(rest);
        assert forall|i: int| 0 <= i < checks.len() && #[trigger] checks[i].1 implies exists|k: int|
            0 <= k < kept_positions(checks).len() && kept_positions(checks)[k] == i by {
            if i < checks.len() - 1 {
                assert(rest[i] == checks[i]);
                let k = choose|k: int| 0 <= k < kept_positions(rest).len() && kept_positions(rest)[k] == i;
                assert(kept_positions(checks)[k] == i);
            } else {
                assert(kept_positions(checks)[kept_positions(rest).len() as int] == i);
            }
        }
        assert forall|k: int| 0 <= k < kept_flags(checks).len() implies {
            let p = #[trigger] kept_positions(checks)[k];
            &&& 0 <= p < checks.len()
            &&& checks[p].1
            &&& kept_flags(checks)[k] == checks[p].0@
        } by {
            if k < kept_flags(rest).len() {
                let p = kept_positions(rest)[k];
                assert(rest[p] == checks[p]);
            }
        }
    }
}

/// Why a `sizeof` probe gave no size.
pub enum SizeofError {
    /// The compiler could not be started or did not succeed.
    ToolchainFailed { code: i32, stderr: String, stdout: String },
    /// The probe program printed something other than an unsigned integer.
    UnparsableOutput,
}

/// The value of a sequence of ASCII decimal digits.
pub open spec fn digits_value(d: Seq<u8>) -> int
    decreases d.len(),
{
    if d.len() == 0 {
        0
    } else {
        digits_value(d.drop_last()) * 10 + (d.last() - 48)
    }
}

pub open spec fn all_digits(d: Seq<u8>) -> bool {
    forall|i: int| 0 <= i < d.len() ==> 48 <= #[trigger] d[i] <= 57
}

/// The digits of an unsigned decimal, after an optional `+` sign.
pub open spec fn unsigned_digits(out: Seq<u8>) -> Seq<u8> {
    if out.len() > 0 && out[0] == 43 {
        out.drop_first()
    } else {
        out
    }
}

/// The output is an unsigned decimal that fits in 32 bits.
pub open spec fn is_size_text(out: Seq<u8>) -> bool {
    let d = unsigned_digits(out);
    &&& d.len() > 0
    &&& all_digits(d)
    &&& digits_value(d) <= u32::MAX
}

proof fn lemma_digits_value_grows(d: Seq<u8>, i: int, j: int)
    requires
        all_digits(d),
        0 <= i <= j <= d.len(),
    ensures
        0 <= digits_value(d.take(i)) <= digits_value(d.take(j)),
    decreases j,
{
    if j == 0 {
        assert(d.take(0).len() == 0);
    } else {
        assert(d.take(j).drop_last() =~= d.take(j - 1));
        assert(d.take(j).last() == d[j - 1]);
        if i == j {
            lemma_digits_value_grows(d, 0, j - 1);
        } else {
            lemma_digits_value_grows(d, i, j - 1);
        }
    }
}

/// Reads the size that the `sizeof` program printed.
pub fn parse_size_output(out: &Vec<u8>) -> (r: Result<u32, SizeofError>)
    ensures
        match r {
            Ok(n) => is_size_text(out@) && n == digits_value(unsigned_digits(out@)),
            Err(e) => !is_size_text(out@) && e is UnparsableOutput,
        },
{
    let start: usize = if out.len() > 0 && out[0] == 43u8 {
        1
    } else {
        0
    };
    let ghost d = unsigned_digits(out@);
    assert(d =~= out@.subrange(start as int, out@.len() as int));
    if start == out.len() {
        return Err(SizeofError::UnparsableOutput);
    }
    let mut acc: u64 = 0;
    let mut i: usize = start;
    while i < out.len()
        invariant
            start <= i <= out.len(),
            d == unsigned_digits(out@),
            d == out@.subrange(start as int, out@.len() as int),
            forall|k: int| 0 <= k < i - start ==> 48 <= #[trigger] d[k] <= 57,
            acc == digits_value(d.take(i - start)),
            acc <= u32::MAX,
        decreases out.len() - i,
    {
        let c = out[i];
        if c < 48u8 || c > 57u8 {
            assert(d[i - start] == c);
            return Err(SizeofError::UnparsableOutput);
        }
        assert(d.take(i - start + 1).drop_last() =~= d.take(i - start));
        assert(d.take(i - start + 1).last() == c);
        let next: u64 = acc * 10 + (c - 48u8) as u64;
        if next > 4294967295u64 {
            proof {
                if all_digits(d) {
                    lemma_digits_value_grows(d, i - start + 1, d.len() as int);
                    assert(d.take(d.len() as int) =~= d);
                }
            }
            return Err(SizeofError::UnparsableOutput);
        }
        acc = next;
        i = i + 1;
    }
    assert(d.take(d.len() as int) =~= d);
    Ok(acc as u32)
}

} // verus!
