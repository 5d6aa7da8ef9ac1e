//! Host-platform introspection: the names that `host_machine` reports, from
//! the operating system and architecture names of the running build.
use vstd::prelude::*;

use crate::text::{owned, text_eq};

verus! {

/// A platform that the tables below do not know.
pub enum HostError {
    UnknownSystem(String),
    UnknownKernel(String),
}

/// The build-description name of an operating system, where one is known.
pub open spec fn system_of(os: Seq<char>, cygwin: bool) -> Option<Seq<char>> {
    if os == "android"@ {
        Some("android"@)
    } else if os == "macos"@ {
        Some("darwin"@)
    } else if os == "ios"@ {
        Some("darwin"@)
    } else if os == "dragonfly"@ {
        Some("dragonfly"@)
    } else if os == "emscripten"@ {
        Some("emscripten"@)
    } else if os == "freebsd"@ {
        Some("freebsd"@)
    } else if os == "hurd"@ {
        Some("gnu"@)
    } else if os == "haiku"@ {
        Some("haiku"@)
    } else if os == "linux"@ {
        Some("linux"@)
    } else if os == "netbsd"@ {
        Some("netbsd"@)
    } else if os == "openbsd"@ {
        Some("openbsd"@)
    } else if os == "windows"@ {
        Some("windows"@)
    } else if os == "solaris"@ {
        Some("sunos"@)
    } else if os == "illumos"@ {
        Some("sunos"@)
    } else if cygwin {
        Some("cygwin"@)
    } else {
        None
    }
}

/// The kernel that an operating system runs on, where one is known.
pub open spec fn kernel_of(os: Seq<char>, cygwin: bool) -> Option<Seq<char>> {
    if os == "linux"@ {
        Some("linux"@)
    } else if os == "android"@ {
        Some("linux"@)
    } else if os == "freebsd"@ {
        Some("freebsd"@)
    } else if os == "openbsd"@ {
        Some("openbsd"@)
    } else if os == "netbsd"@ {
        Some("netbsd"@)
    } else if os == "hurd"@ {
        Some("gnu"@)
    } else if os == "windows"@ {
        Some("nt"@)
    } else if os == "macos"@ {
        Some("xnu"@)
    } else if os == "ios"@ {
        Some("xnu"@)
    } else if os == "illumos"@ {
        Some("illumos"@)
    } else if os == "solaris"@ {
        Some("solaris"@)
    } else if os == "dragonfly"@ {
        Some("dragonfly"@)
    } else if os == "haiku"@ {
        Some("haiku"@)
    } else if os == "emscripten"@ {
        Some("none"@)
    } else if cygwin {
        Some("nt"@)
    } else {
        None
    }
}

/// The subsystem of an operating system: the Apple device families, with a
/// `-simulator` suffix in a simulator build, `macos`, or `none`.
pub open spec fn subsystem_of(os: Seq<char>, simulator: bool) -> Seq<char> {
    if os == "macos"@ {
        "macos"@
    } else if os == "ios"@ || os == "tvos"@ || os == "visionos"@ || os == "watchos"@ {
        if simulator {
            os + "-simulator"@
        } else {
            os
        }
    } else {
        "none"@
    }
}

/// The CPU family of an architecture.
pub open spec fn cpu_family_of(arch: Seq<char>) -> Seq<char> {
    if arch == "powerpc"@ {
        "ppc"@
    } else if arch == "powerpc64"@ {
        "ppc64"@
    } else if arch == "aarch64"@ || arch == "alpha"@ || arch == "arc"@ || arch == "arm"@ || arch
        == "avr"@ || arch == "csky"@ || arch == "ia64"@ || arch == "loongarch64"@ || arch == "m68k"@
        || arch == "microblaze"@ || arch == "mips"@ || arch == "mips64"@ || arch == "msp430"@ || arch
        == "parisc"@ || arch == "riscv32"@ || arch == "riscv64"@ || arch == "rl78"@ || arch == "rx"@
        || arch == "s390x"@ || arch == "sparc"@ || arch == "sparc64"@ || arch == "wasm32"@ || arch
        == "wasm64"@ || arch == "x86"@ || arch == "x86_64"@ {
        arch
    } else {
        "unknown"@
    }
}

/// The CPU of an architecture, refined for ARM by the instruction-set level
/// the build targets.
pub open spec fn cpu_of(arch: Seq<char>, arm_v7: bool, arm_v6: bool, arm_v8_2a: bool) -> Seq<char> {
    if arch == "x86"@ {
        "i686"@
    } else if arch == "arm"@ {
        if arm_v7 {
            "armv7l"@
        } else if arm_v6 {
            "armv6l"@
        } else {
            "arm"@
        }
    } else if arch == "aarch64"@ {
        if arm_v8_2a {
            "armv8.2-a"@
        } else {
            "armv8-a"@
        }
    } else if arch == "powerpc"@ {
        "ppc"@
    } else if arch == "powerpc64"@ {
        "ppc64"@
    } else if arch == "riscv32"@ {
        "rv32"@
    } else if arch == "riscv64"@ {
        "rv64"@
    } else if arch == "x86_64"@ || arch == "mips"@ || arch == "mips64"@ || arch == "s390x"@ || arch
        == "sparc"@ || arch == "sparc64"@ {
        arch
    } else {
        "unknown"@
    }
}

fn known(s: &str) -> (r: Result<String, HostError>)
    ensures
        r matches Ok(t) && t@ == s@,
{
    Ok(owned(s))
}

/// The name that `host_machine.system()` reports for the operating system
/// `os`; `cygwin` says whether the build targets Cygwin.
pub fn system_name(os: &str, cygwin: bool) -> (r: Result<String, HostError>)
    ensures
        match system_of(os@, cygwin) {
            Some(n) => r matches Ok(t) && t@ == n,
            None => r matches Err(HostError::UnknownSystem(s)) && s@ == os@,
        },
{
    if text_eq(os, "android") {
        known("android")
    } else if text_eq(os, "macos") {
        known("darwin")
    } else if text_eq(os, "ios") {
        known("darwin")
    } else if text_eq(os, "dragonfly") {
        known("dragonfly")
    } else if text_eq(os, "emscripten") {
        known("emscripten")
    } else if text_eq(os, "freebsd") {
        known("freebsd")
    } else if text_eq(os, "hurd") {
        known("gnu")
    } else if text_eq(os, "haiku") {
        known("haiku")
    } else if text_eq(os, "linux") {
        known("linux")
    } else if text_eq(os, "netbsd") {
        known("netbsd")
    } else if text_eq(os, "openbsd") {
        known("openbsd")
    } else if text_eq(os, "windows") {
        known("windows")
    } else if text_eq(os, "solaris") {
        known("sunos")
    } else if text_eq(os, "illumos") {
        known("sunos")
    } else if cygwin {
        known("cygwin")
    } else {
        Err(HostError::UnknownSystem(owned(os)))
    }
}

/// The name that `host_machine.kernel()` reports for the operating system
/// `os`; `cygwin` says whether the build targets Cygwin.
pub fn kernel_name(os: &str, cygwin: bool) -> (r: Result<String, HostError>)
    ensures
        match kernel_of(os@, cygwin) {
            Some(n) => r matches Ok(t) && t@ == n,
            None => r matches Err(HostError::UnknownKernel(s)) && s@ == os@,
        },
{
    if text_eq(os, "linux") {
        known("linux")
    } else if text_eq(os, "android") {
        known("linux")
    } else if text_eq(os, "freebsd") {
        known("freebsd")
    } else if text_eq(os, "openbsd") {
        known("openbsd")
    } else if text_eq(os, "netbsd") {
        known("netbsd")
    } else if text_eq(os, "hurd") {
        known("gnu")
    } else if text_eq(os, "windows") {
        known("nt")
    } else if text_eq(os, "macos") {
        known("xnu")
    } else if text_eq(os, "ios") {
        known("xnu")
    } else if text_eq(os, "illumos") {
        known("illumos")
    } else if text_eq(os, "solaris") {
        known("solaris")
    } else if text_eq(os, "dragonfly") {
        known("dragonfly")
    } else if text_eq(os, "haiku") {
        known("haiku")
    } else if text_eq(os, "emscripten") {
        known("none")
    } else if cygwin {
        known("nt")
    } else {
        Err(HostError::UnknownKernel(owned(os)))
    }
}

/// The name that `host_machine.subsystem()` reports for the operating system
/// `os`; `simulator` says whether the build targets a device simulator.
pub fn subsystem_name(os: &str, simulator: bool) -> (r: String)
    ensures
        r@ == subsystem_of(os@, simulator),
{
    if text_eq(os, "macos") {
        owned("macos")
    } else if text_eq(os, "ios") || text_eq(os, "tvos") || text_eq(os, "visionos") || text_eq(
        os,
        "watchos",
    ) {
        let mut r = owned(os);
        if simulator {
            r.append("-simulator");
        }
        r
    } else {
        owned("none")
    }
}

/// The name that `host_machine.endian()` reports.
pub fn endian_name(little: bool) -> (r: String)
    ensures
        r@ == (if little {
            "little"@
        } else {
            "big"@
        }),
{
    if little {
        owned("little")
    } else {
        owned("big")
    }
}

/// The name that `host_machine.cpu_family()` reports for the architecture
/// `arch`.
pub fn cpu_family_name(arch: &str) -> (r: String)
    ensures
        r@ == cpu_family_of(arch@),
{
    if text_eq(arch, "powerpc") {
        owned("ppc")
    } else if text_eq(arch, "powerpc64") {
        owned("ppc64")
    } else if text_eq(arch, "aarch64") || text_eq(arch, "alpha") || text_eq(arch, "arc") || text_eq(
        arch,
        "arm",
    ) || text_eq(arch, "avr") || text_eq(arch, "csky") || text_eq(arch, "ia64") || text_eq(
        arch,
        "loongarch64",
    ) || text_eq(arch, "m68k") || text_eq(arch, "microblaze") || text_eq(arch, "mips") || text_eq(
        arch,
        "mips64",
    ) || text_eq(arch, "msp430") || text_eq(arch, "parisc") || text_eq(arch, "riscv32") || text_eq(
        arch,
        "riscv64",
    ) || text_eq(arch, "rl78") || text_eq(arch, "rx") || text_eq(arch, "s390x") || text_eq(
        arch,
        "sparc",
    ) || text_eq(arch, "sparc64") || text_eq(arch, "wasm32") || text_eq(arch, "wasm64") || text_eq(
        arch,
        "x86",
    ) || text_eq(arch, "x86_64") {
        owned(arch)
    } else {
        owned("unknown")
    }
}

/// The name that `host_machine.cpu()` reports for the architecture `arch`;
/// the flags say which ARM instruction-set level the build targets.
pub fn cpu_name(arch: &str, arm_v7: bool, arm_v6: bool, arm_v8_2a: bool) -> (r: String)
    ensures
        r@ == cpu_of(arch@, arm_v7, arm_v6, arm_v8_2a),
{
    if text_eq(arch, "x86") {
        owned("i686")
    } else if text_eq(arch, "arm") {
        if arm_v7 {
            owned("armv7l")
        } else if arm_v6 {
            owned("armv6l")
        } else {
            owned("arm")
        }
    } else if text_eq(arch, "aarch64") {
        if arm_v8_2a {
            owned("armv8.2-a")
        } else {
            owned("armv8-a")
        }
    } else if text_eq(arch, "powerpc") {
        owned("ppc")
    } else if text_eq(arch, "powerpc64") {
        owned("ppc64")
    } else if text_eq(arch, "riscv32") {
        owned("rv32")
    } else if text_eq(arch, "riscv64") {
        owned("rv64")
    } else if text_eq(arch, "x86_64") || text_eq(arch, "mips") || text_eq(arch, "mips64") || text_eq(
        arch,
        "s390x",
    ) || text_eq(arch, "sparc") || text_eq(arch, "sparc64") {
        owned(arch)
    } else {
        owned("unknown")
    }
}

} // verus!
