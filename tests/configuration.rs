use autoconfig::config::{ConfigError, ConfigValue, ConfigurationData};
use autoconfig::configure::{render_template, split_lines, RenderError};

fn text(s: &str) -> ConfigValue {
    ConfigValue::Text { text: s.to_string(), repr: format!("\"{}\"", s) }
}

fn render(template: &str, data: &ConfigurationData) -> String {
    match render_template(template, data) {
        Ok(s) => s,
        Err(RenderError::MalformedMacroLine(l)) => panic!("malformed line {}", l),
    }
}

#[test]
fn set_keeps_insertion_order_and_overwrites() {
    let mut cd = ConfigurationData::new();
    assert!(cd.set("A".to_string(), ConfigValue::Integer(1), None).is_ok());
    assert!(cd.set("B".to_string(), ConfigValue::Integer(2), Some("second".to_string())).is_ok());
    assert!(cd.set("A".to_string(), ConfigValue::Integer(3), None).is_ok());
    assert_eq!(cd.len(), 2);
    assert_eq!(cd.entry_at(0).key, "A");
    assert!(matches!(cd.entry_at(0).value, ConfigValue::Integer(3)));
    assert_eq!(cd.entry_at(1).key, "B");
    assert_eq!(cd.get("B").unwrap().description.as_deref(), Some("second"));
    assert!(cd.get("C").is_none());
}

#[test]
fn set10_stores_one_or_zero() {
    let mut cd = ConfigurationData::new();
    assert!(cd.set10("ON".to_string(), true, None).is_ok());
    assert!(cd.set10("OFF".to_string(), false, None).is_ok());
    assert!(matches!(cd.get("ON").unwrap().value, ConfigValue::Integer(1)));
    assert!(matches!(cd.get("OFF").unwrap().value, ConfigValue::Integer(0)));
}

#[test]
fn set_during_borrow_is_mutation_during_iteration() {
    let mut cd = ConfigurationData::new();
    assert!(cd.begin_read().is_ok());
    assert_eq!(cd.set("K".to_string(), ConfigValue::Boolean(true), None), Err(ConfigError::MutationDuringIteration));
    assert_eq!(cd.begin_write(), Err(ConfigError::MutationDuringIteration));
    cd.end_read();
    assert!(cd.begin_write().is_ok());
    assert_eq!(cd.begin_read(), Err(ConfigError::MutationDuringIteration));
    assert_eq!(cd.set("K".to_string(), ConfigValue::Boolean(true), None), Err(ConfigError::MutationDuringIteration));
    cd.end_write();
    assert!(cd.set("K".to_string(), ConfigValue::Boolean(true), None).is_ok());
    assert_eq!(cd.len(), 1);
}

#[test]
fn set_on_frozen_cannot_mutate_immutable_value() {
    let mut cd = ConfigurationData::with_freeze_support(true);
    assert!(cd.set("K".to_string(), ConfigValue::Integer(1), None).is_ok());
    assert!(cd.begin_read().is_ok());
    assert_eq!(cd.freeze(), Err(ConfigError::FreezeWhileBorrowed));
    cd.end_read();
    assert!(cd.freeze().is_ok());
    assert!(cd.is_frozen());
    assert_eq!(cd.set("K".to_string(), ConfigValue::Integer(2), None), Err(ConfigError::CannotMutateImmutableValue));
    assert!(matches!(cd.get("K").unwrap().value, ConfigValue::Integer(1)));
}

#[test]
fn freeze_is_refused_without_support() {
    let mut cd = ConfigurationData::new();
    assert_eq!(cd.freeze(), Err(ConfigError::FreezeUnsupported));
    assert!(!cd.is_frozen());
}

#[test]
fn cmakedefine_boolean_true_and_false() {
    let mut cd = ConfigurationData::new();
    assert!(cd.set("HAVE_FOO".to_string(), ConfigValue::Boolean(true), None).is_ok());
    assert_eq!(render("#cmakedefine HAVE_FOO", &cd), "#define HAVE_FOO\n");
    let mut off = ConfigurationData::new();
    assert!(off.set("HAVE_FOO".to_string(), ConfigValue::Boolean(false), None).is_ok());
    assert_eq!(render("#cmakedefine HAVE_FOO", &off), "/* #undef HAVE_FOO */\n");
}

#[test]
fn cmakedefine_values_and_missing_keys() {
    let mut cd = ConfigurationData::new();
    assert!(cd.set("VERSION".to_string(), text("1.2"), None).is_ok());
    assert!(cd.set("SIZE".to_string(), ConfigValue::Integer(-42), None).is_ok());
    assert!(cd.set("LIST".to_string(), ConfigValue::Other { text: "[1]".to_string() }, None).is_ok());
    let template = "#cmakedefine VERSION\n#cmakedefine SIZE 1\n#cmakedefine LIST\n#cmakedefine MISSING\n#cmakedefine PKG_VERSION @VERSION@\n";
    assert_eq!(
        render(template, &cd),
        "#define VERSION \"1.2\"\n#define SIZE -42\n/* #undef LIST */\n/* #undef MISSING */\n#define VERSION \"1.2\"\n"
    );
}

#[test]
fn plain_lines_equal_to_a_key_are_replaced() {
    let mut cd = ConfigurationData::new();
    assert!(cd.set("NAME".to_string(), text("demo"), None).is_ok());
    assert!(cd.set("COUNT".to_string(), ConfigValue::Integer(7), None).is_ok());
    assert!(cd.set("FLAG".to_string(), ConfigValue::Boolean(false), None).is_ok());
    assert_eq!(render("NAME\nCOUNT\nFLAG\nother\n NAME", &cd), "demo\n7\nFalse\nother\n NAME\n");
}

#[test]
fn macro_line_without_name_is_refused() {
    let cd = ConfigurationData::new();
    match render_template("ok\n#cmakedefine\n#cmakedefineX\n", &cd) {
        Ok(_) => panic!("should be refused"),
        Err(RenderError::MalformedMacroLine(l)) => assert_eq!(l, "#cmakedefine"),
    }
}

#[test]
fn template_lines_split_like_bufread() {
    assert_eq!(split_lines("a\r\nb\n\nc"), vec!["a", "b", "", "c"]);
    assert_eq!(split_lines("a\n"), vec!["a"]);
    assert!(split_lines("").is_empty());
    let cd = ConfigurationData::new();
    assert_eq!(render("x\r\ny", &cd), "x\ny\n");
}

#[test]
fn empty_template_renders_empty() {
    let mut cd = ConfigurationData::new();
    assert!(cd.set("A".to_string(), ConfigValue::Integer(1), None).is_ok());
    assert_eq!(render("", &cd), "");
    assert_eq!(render("\n", &cd), "\n");
}
