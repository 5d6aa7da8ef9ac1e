use autoconfig::probe::{
    has_builtin_source, has_function_source, has_header_source, has_header_symbol_source,
    has_member_source, has_type_source, parse_size_output, select_supported, sizeof_source,
    supported_argument_args, supported_argument_source, CompilerHandle, FunctionProbe,
    FunctionProbeStage, SizeofError,
};

fn handle() -> CompilerHandle {
    CompilerHandle {
        toolchain: "gcc".to_string(),
        executable: "/usr/bin/gcc".to_string(),
        args: vec!["-iquote=inc".to_string()],
    }
}

#[test]
fn compile_only_command_appends_handle_and_extra_args() {
    let args = handle().compile_only_command(&vec!["-c".to_string(), "-Wall".to_string()]);
    assert_eq!(
        args,
        vec!["-O0", "-v", "-c", "-x", "c++", "-", "-o", "/dev/null", "-iquote=inc", "-c", "-Wall"]
    );
}

#[test]
fn link_check_command_links_without_keeping_output() {
    let args = handle().link_check_command();
    assert_eq!(args, vec!["-O0", "-x", "c++", "-", "-o", "/dev/null", "-iquote=inc"]);
}

#[test]
fn compile_and_link_command_names_the_output() {
    let args = handle().compile_and_link_command("/tmp/probe");
    assert_eq!(args, vec!["-v", "-x", "c++", "-", "-o", "/tmp/probe", "-iquote=inc"]);
}

#[test]
fn has_type_program_takes_sizeof() {
    assert_eq!(
        has_type_source("struct stat", "#include <sys/stat.h>"),
        "#include <sys/stat.h>\nint main(void) {\n    (void) sizeof(struct stat);\n    return 0;\n}\n"
    );
}

#[test]
fn has_header_program_checks_has_include() {
    let p = has_header_source("stdio.h", "");
    assert!(p.contains("#if !__has_include(\"stdio.h\")"));
    assert!(p.contains("#error \"Header 'stdio.h' could not be found\""));
    assert!(p.contains("#include <stdio.h>"));
}

#[test]
fn has_header_symbol_program_uses_symbol() {
    let p = has_header_symbol_source("stdio.h", "printf", "#define X 1");
    assert!(p.starts_with("#define X 1\n#include <stdio.h>\n"));
    assert!(p.contains("#ifndef printf\n        printf;\n    #endif"));
}

#[test]
fn has_member_program_references_member() {
    let p = has_member_source("struct tm", "tm_gmtoff", "#include <time.h>");
    assert!(p.contains("struct tm foo;"));
    assert!(p.contains("(void) ( foo.tm_gmtoff );"));
    assert_eq!(p.matches("#include <time.h>").count(), 1);
}

#[test]
fn sizeof_program_prints_size() {
    let p = sizeof_source("int", "");
    assert!(p.contains("printf(\"%ld\", (long)(sizeof(int)));"));
}

#[test]
fn has_function_with_headers_takes_address() {
    let p = has_function_source("strlen", "#include <string.h>");
    assert!(p.starts_with("#include <string.h>\n#include <limits.h>\n"));
    assert!(p.contains("#if defined __stub_strlen || defined __stub___strlen"));
    assert!(p.contains("void *a = (void*) &strlen;"));
    assert!(!p.contains("char strlen (void);"));
}

#[test]
fn has_function_without_headers_redeclares() {
    let p = has_function_source("totally_fake_fn_xyz", "");
    assert!(p.starts_with("\n#define totally_fake_fn_xyz meson_disable_define_of_totally_fake_fn_xyz\n"));
    assert!(p.contains("#undef totally_fake_fn_xyz"));
    assert!(p.contains("extern \"C\"\n#endif\nchar totally_fake_fn_xyz (void);"));
    assert!(p.contains("return totally_fake_fn_xyz ();"));
}

#[test]
fn builtin_program_flags() {
    let p = has_builtin_source("alloca", "");
    assert!(p.contains("#if !1 && !defined(alloca) && !0"));
    assert!(p.contains("#if !__has_builtin(__builtin_alloca)"));
    let q = has_builtin_source("__builtin_expect", "#include <x.h>");
    assert!(q.contains("#if !0 && !defined(__builtin_expect) && !1"));
    assert!(q.contains("#if !__has_builtin(__builtin_expect)"));
}

#[test]
fn function_probe_found_by_first_program() {
    let mut probe = FunctionProbe::new("strlen", "#include <string.h>");
    let first = probe.next_source().unwrap();
    assert_eq!(first, has_function_source("strlen", "#include <string.h>"));
    probe.record(true);
    assert_eq!(probe.answer(), Some(true));
    assert!(probe.next_source().is_none());
}

#[test]
fn function_probe_falls_back_to_builtin() {
    let mut probe = FunctionProbe::new("totally_fake_fn_xyz", "");
    probe.record(false);
    assert!(probe.stage == FunctionProbeStage::Builtin);
    assert_eq!(probe.next_source().unwrap(), has_builtin_source("totally_fake_fn_xyz", ""));
    assert_eq!(probe.answer(), None);
    probe.record(false);
    assert_eq!(probe.answer(), Some(false));
}

#[test]
fn supported_arguments_keep_order() {
    assert_eq!(supported_argument_source(), "extern int i;\nint i;\n");
    assert_eq!(supported_argument_args("-Wall"), vec!["-c", "-Wall"]);
    let checks = vec![
        ("-Wall".to_string(), true),
        ("-Wbogus".to_string(), false),
        ("-O2".to_string(), true),
        ("-fnope".to_string(), false),
        ("-g".to_string(), true),
    ];
    assert_eq!(select_supported(&checks), vec!["-Wall", "-O2", "-g"]);
    assert!(select_supported(&vec![]).is_empty());
}

#[test]
fn size_output_parses_unsigned_decimal() {
    assert!(matches!(parse_size_output(&b"8".to_vec()), Ok(8)));
    assert!(matches!(parse_size_output(&b"+16".to_vec()), Ok(16)));
    assert!(matches!(parse_size_output(&b"4294967295".to_vec()), Ok(4294967295)));
}

#[test]
fn size_output_rejects_other_text() {
    for bad in [&b""[..], b"+", b"-1", b"8\n", b" 8", b"4294967296", b"99999999999999999999999", b"x"] {
        assert!(matches!(parse_size_output(&bad.to_vec()), Err(SizeofError::UnparsableOutput)));
    }
}
