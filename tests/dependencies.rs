use autoconfig::dependency::{dependency, manifest_names, parse_manifest_entry, version_compare, DependencyError, DependencySpec, ManifestError, SemVersion};

fn manifest(entries: &[&str]) -> Vec<DependencySpec> {
    entries.iter().map(|e| parse_manifest_entry(e).ok().expect("valid entry")).collect()
}

#[test]
fn found_dependency_satisfies_requirement() {
    let m = manifest(&["pixman-1=0.40.0"]);
    let d = dependency(&m, "pixman-1", false).ok().unwrap();
    assert!(d.found());
    assert_eq!(d.name, "pixman-1");
    assert_eq!(d.version.text(), "0.40.0");
    assert!(matches!(version_compare(&d.version, ">=0.4.0"), Ok(true)));
    assert!(matches!(version_compare(&d.version, ">=1.0.0"), Ok(false)));
    assert!(matches!(version_compare(&d.version, "not a range"), Err(DependencyError::InvalidRequirement(ref s)) if s == "not a range"));
}

#[test]
fn missing_required_dependency_names_it() {
    let m = manifest(&["pixman-1=0.40.0"]);
    match dependency(&m, "missing-lib", true) {
        Ok(_) => panic!("should be missing"),
        Err(DependencyError::Missing(n)) => assert_eq!(n, "missing-lib"),
        Err(_) => panic!("wrong error"),
    }
}

#[test]
fn missing_optional_dependency_is_not_found() {
    let m = manifest(&["pixman-1=0.40.0", "gbm=21.0.0"]);
    let d = dependency(&m, "missing-lib", false).ok().unwrap();
    assert!(!d.found());
    assert_eq!(d.version.text(), "0.0.0");
    assert_eq!(manifest_names(&m), vec!["pixman-1", "gbm"]);
}

#[test]
fn later_manifest_entry_wins() {
    let m = manifest(&["zlib=1.2.0", "zlib=1.3.1"]);
    let d = dependency(&m, "zlib", true).ok().unwrap();
    assert_eq!(d.version.text(), "1.3.1");
}

#[test]
fn manifest_entries_are_trimmed_and_checked() {
    let p = parse_manifest_entry("pixman-1=0.40.0").ok().unwrap();
    assert_eq!(p.name, "pixman-1");
    assert_eq!((p.version.major, p.version.minor, p.version.patch), (0, 40, 0));
    let u = parse_manifest_entry("\u{3000}zlib\u{a0}=\t1.3.1\u{2028}").ok().unwrap();
    assert_eq!(u.name, "zlib");
    assert_eq!(u.version.text(), "1.3.1");
    let d = parse_manifest_entry("  wayland-client = 1.20.0 ").ok().unwrap();
    assert_eq!(d.name, "wayland-client");
    assert_eq!(d.version.text(), "1.20.0");
    assert!(matches!(parse_manifest_entry("novalue"), Err(ManifestError::InvalidFormat(ref s)) if s == "novalue"));
    assert!(matches!(parse_manifest_entry("a=1=2"), Err(ManifestError::InvalidFormat(_))));
    assert!(matches!(parse_manifest_entry(" =1.0.0"), Err(ManifestError::EmptyField(_))));
    assert!(matches!(parse_manifest_entry("a= "), Err(ManifestError::EmptyField(_))));
    assert!(matches!(parse_manifest_entry("a= 1.0 "), Err(ManifestError::InvalidVersion(ref s)) if s == "1.0"));
    assert!(matches!(parse_manifest_entry("foo="), Err(ManifestError::EmptyField(_))));
    let g = parse_manifest_entry(" gbm = 21.3.1 ").ok().unwrap();
    assert_eq!(g.name, "gbm");
    assert_eq!((g.version.major, g.version.minor, g.version.patch), (21, 3, 1));
}

#[test]
fn prerelease_and_build_are_kept() {
    let d = parse_manifest_entry("lib=1.2.3-rc.1+build.5").ok().unwrap();
    assert_eq!(d.version.pre, "rc.1");
    assert_eq!(d.version.build, "build.5");
    assert_eq!(d.version.text(), "1.2.3-rc.1+build.5");
    assert!(matches!(version_compare(&d.version, ">=1.2.3-rc.0"), Ok(true)));
    assert!(matches!(version_compare(&d.version, ">=1.2.3"), Ok(false)));
    let m = vec![d];
    let found = dependency(&m, "lib", true).ok().unwrap();
    assert_eq!(found.version.text(), "1.2.3-rc.1+build.5");
}

#[test]
fn invalid_prerelease_is_refused() {
    let v = SemVersion { major: 1, minor: 0, patch: 0, pre: "bad pre".to_string(), build: String::new() };
    assert!(matches!(version_compare(&v, ">=1.0.0"), Err(DependencyError::InvalidPrerelease(ref p)) if p == "bad pre"));
    assert!(matches!(version_compare(&v, "nope"), Err(DependencyError::InvalidRequirement(_))));
}

#[test]
fn empty_manifest_finds_nothing() {
    let m: Vec<DependencySpec> = vec![];
    assert!(matches!(dependency(&m, "zlib", true), Err(DependencyError::Missing(ref n)) if n == "zlib"));
    let d = dependency(&m, "zlib", false).ok().unwrap();
    assert!(!d.found);
    assert!(manifest_names(&m).is_empty());
}
