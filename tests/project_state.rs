use autoconfig::project::{project_arguments_text, ArgumentValue, ArgumentsError, ProjectError, ProjectState};
use autoconfig::text::decimal_text;

#[test]
fn version_before_project_is_refused() {
    let mut p = ProjectState::new();
    assert_eq!(p.project_version().err(), Some(ProjectError::NotDeclared));
    assert!(p.declare("wayvnc".to_string(), "0.5.0".to_string()).is_ok());
    assert_eq!(p.project_version().ok().unwrap(), "0.5.0");
    assert_eq!(p.declare("other".to_string(), "1.0".to_string()).err(), Some(ProjectError::AlreadyDeclared));
    assert_eq!(p.info.as_ref().unwrap().name, "wayvnc");
}

#[test]
fn project_arguments_are_space_joined() {
    let args = vec![
        ArgumentValue::List(vec!["-DPROJECT_VERSION=1".to_string(), "-D_GNU_SOURCE".to_string()]),
        ArgumentValue::Text("-DNDEBUG".to_string()),
    ];
    assert_eq!(project_arguments_text(&args).ok().unwrap(), "-DPROJECT_VERSION=1 -D_GNU_SOURCE -DNDEBUG ");
    assert_eq!(project_arguments_text(&vec![]).ok().unwrap(), "");
    let bad = vec![ArgumentValue::Text("-a".to_string()), ArgumentValue::Other];
    assert_eq!(project_arguments_text(&bad).err(), Some(ArgumentsError::UnsupportedArgument));
}

#[test]
fn decimal_text_of_integers() {
    assert_eq!(decimal_text(0), "0");
    assert_eq!(decimal_text(1234), "1234");
    assert_eq!(decimal_text(-7), "-7");
    assert_eq!(decimal_text(i64::MIN), "-9223372036854775808");
    assert_eq!(decimal_text(i64::MAX), "9223372036854775807");
}
