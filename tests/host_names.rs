use autoconfig::host::{cpu_family_name, cpu_name, endian_name, kernel_name, subsystem_name, system_name, HostError};

#[test]
fn system_names() {
    assert_eq!(system_name("linux", false).ok().unwrap(), "linux");
    assert_eq!(system_name("macos", false).ok().unwrap(), "darwin");
    assert_eq!(system_name("solaris", false).ok().unwrap(), "sunos");
    assert_eq!(system_name("whatever", true).ok().unwrap(), "cygwin");
    assert!(matches!(system_name("plan9", false), Err(HostError::UnknownSystem(ref s)) if s == "plan9"));
}

#[test]
fn kernel_names() {
    assert_eq!(kernel_name("android", false).ok().unwrap(), "linux");
    assert_eq!(kernel_name("windows", false).ok().unwrap(), "nt");
    assert_eq!(kernel_name("ios", false).ok().unwrap(), "xnu");
    assert_eq!(kernel_name("emscripten", false).ok().unwrap(), "none");
    assert!(matches!(kernel_name("plan9", false), Err(HostError::UnknownKernel(ref s)) if s == "plan9"));
}

#[test]
fn subsystem_and_endian() {
    assert_eq!(subsystem_name("macos", false), "macos");
    assert_eq!(subsystem_name("ios", true), "ios-simulator");
    assert_eq!(subsystem_name("tvos", false), "tvos");
    assert_eq!(subsystem_name("linux", true), "none");
    assert_eq!(endian_name(true), "little");
    assert_eq!(endian_name(false), "big");
}

#[test]
fn cpu_names() {
    assert_eq!(cpu_family_name("powerpc64"), "ppc64");
    assert_eq!(cpu_family_name("x86_64"), "x86_64");
    assert_eq!(cpu_family_name("z80"), "unknown");
    assert_eq!(cpu_name("x86", false, false, false), "i686");
    assert_eq!(cpu_name("arm", true, true, false), "armv7l");
    assert_eq!(cpu_name("arm", false, true, false), "armv6l");
    assert_eq!(cpu_name("aarch64", false, false, true), "armv8.2-a");
    assert_eq!(cpu_name("aarch64", false, false, false), "armv8-a");
    assert_eq!(cpu_name("riscv64", false, false, false), "rv64");
    assert_eq!(cpu_name("loongarch64", false, false, false), "unknown");
}
