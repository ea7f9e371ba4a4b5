use peace_core::schema::{OptionSpec, Schema};
use peace_core::value::{OptionValue, ValueKind};

#[test]
fn valid_schema_is_accepted() {
    let s = Schema::new(vec![
        OptionSpec::text("a", "x", Some('a'), None),
        OptionSpec::flag("b", false, None, Some("bee")),
    ])
    .unwrap();
    assert_eq!(s.len(), 2);
    assert_eq!(s.option(1).name(), "b");
    assert_eq!(s.option(1).kind(), ValueKind::Flag);
    assert_eq!(s.option(0).kind(), ValueKind::Text);
    assert!(matches!(s.option(0).default_value(), OptionValue::Text(t) if t == "x"));
}

#[test]
fn empty_schema_is_accepted() {
    let s = Schema::new(vec![]).unwrap();
    assert_eq!(s.len(), 0);
    assert_eq!(s.defaults().len(), 0);
}

#[test]
fn duplicate_name_is_rejected() {
    assert!(Schema::new(vec![
        OptionSpec::flag("a", false, Some('a'), None),
        OptionSpec::flag("a", false, Some('b'), None),
    ])
    .is_none());
}

#[test]
fn shared_short_spelling_is_rejected() {
    assert!(Schema::new(vec![
        OptionSpec::flag("a", false, Some('x'), None),
        OptionSpec::integer("b", 1, Some('x'), Some("bee")),
    ])
    .is_none());
}

#[test]
fn shared_long_spelling_is_rejected() {
    assert!(Schema::new(vec![
        OptionSpec::flag("a", false, Some('a'), Some("same")),
        OptionSpec::flag("b", false, Some('b'), Some("same")),
    ])
    .is_none());
}

#[test]
fn option_without_spelling_is_rejected() {
    assert!(Schema::new(vec![OptionSpec::flag("a", false, None, None)]).is_none());
}

#[test]
fn unusable_spellings_are_rejected() {
    assert!(Schema::new(vec![OptionSpec::flag("a", false, Some('-'), None)]).is_none());
    assert!(Schema::new(vec![OptionSpec::flag("a", false, None, Some(""))]).is_none());
}

#[test]
fn general_constructor_keeps_default() {
    let o = OptionSpec::new("n", OptionValue::Integer(-4), Some('n'), None);
    assert_eq!(o.kind(), ValueKind::Integer);
    assert!(matches!(o.default_value(), OptionValue::Integer(-4)));
}
