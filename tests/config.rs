use peace_core::config::Config;
use peace_core::parse::ParseError;
use peace_core::schema::{OptionSpec, Schema};

fn schema() -> Schema {
    Schema::new(vec![
        OptionSpec::text("config_path", "~/.config.json", Some('c'), Some("config")),
        OptionSpec::integer("max_retries", 3, Some('r'), Some("retries")),
        OptionSpec::flag("debug", false, Some('d'), Some("debug")),
        OptionSpec::flag("verbose", false, None, Some("verbose")),
    ])
    .unwrap()
}

#[test]
fn test_config_defaults() {
    let config = schema().defaults();
    assert_eq!(config.text("config_path"), Some("~/.config.json"));
    assert_eq!(config.integer("max_retries"), Some(3));
    assert!(!config.flag("debug").unwrap());
    assert!(!config.flag("verbose").unwrap());
}

#[test]
fn test_parse_short_flags() {
    let config =
        Config::parse_from(&schema(), &["program", "-c", "/custom/path.json", "-r", "5", "-d"])
            .unwrap();

    assert_eq!(config.text("config_path"), Some("/custom/path.json"));
    assert_eq!(config.integer("max_retries"), Some(5));
    assert!(config.flag("debug").unwrap());
    assert!(!config.flag("verbose").unwrap()); // not set, should be default
}

#[test]
fn test_parse_long_flags() {
    let config = Config::parse_from(
        &schema(),
        &["program", "--config", "/etc/app.json", "--retries", "10", "--verbose"],
    )
    .unwrap();

    assert_eq!(config.text("config_path"), Some("/etc/app.json"));
    assert_eq!(config.integer("max_retries"), Some(10));
    assert!(!config.flag("debug").unwrap()); // not set, should be default
    assert!(config.flag("verbose").unwrap());
}

#[test]
fn test_parse_mixed_flags() {
    let config = Config::parse_from(
        &schema(),
        &["program", "-c", "/mixed.json", "--retries", "7", "-d", "--verbose"],
    )
    .unwrap();

    assert_eq!(config.text("config_path"), Some("/mixed.json"));
    assert_eq!(config.integer("max_retries"), Some(7));
    assert!(config.flag("debug").unwrap());
    assert!(config.flag("verbose").unwrap());
}

#[test]
fn retries_and_verbose_only() {
    let config =
        Config::parse_from(&schema(), &["program", "--retries", "10", "--verbose"]).unwrap();
    assert_eq!(config.text("config_path"), Some("~/.config.json"));
    assert_eq!(config.integer("max_retries"), Some(10));
    assert_eq!(config.flag("debug"), Some(false));
    assert_eq!(config.flag("verbose"), Some(true));
}

#[test]
fn unknown_short_flag_is_unrecognized() {
    match Config::parse_from(&schema(), &["program", "-x"]) {
        Err(ParseError::UnrecognizedArgument(t)) => assert_eq!(t, "-x"),
        other => panic!("unexpected outcome: {:?}", other),
    }
}

#[test]
fn only_program_name_gives_defaults() {
    let config = Config::parse_from(&schema(), &["program"]).unwrap();
    assert_eq!(config.text("config_path"), Some("~/.config.json"));
    assert_eq!(config.integer("max_retries"), Some(3));
    assert_eq!(config.flag("debug"), Some(false));
    assert_eq!(config.flag("verbose"), Some(false));
    assert_eq!(config.len(), 4);
}

#[test]
fn empty_argument_list_gives_defaults() {
    let config = Config::parse_from(&schema(), &[]).unwrap();
    assert_eq!(config.integer("max_retries"), Some(3));
}

#[test]
fn short_and_long_spellings_agree() {
    let s = schema();
    let a = Config::parse_from(&s, &["program", "-r", "42", "-c", "x"]).unwrap();
    let b = Config::parse_from(&s, &["program", "--retries", "42", "--config", "x"]).unwrap();
    assert_eq!(a.integer("max_retries"), b.integer("max_retries"));
    assert_eq!(a.text("config_path"), b.text("config_path"));
    assert_eq!(a.flag("debug"), b.flag("debug"));
    assert_eq!(a.flag("verbose"), b.flag("verbose"));
    assert_eq!(a.integer("max_retries"), Some(42));
}

#[test]
fn untargeted_fields_keep_defaults() {
    let config = Config::parse_from(&schema(), &["program", "-d"]).unwrap();
    assert_eq!(config.text("config_path"), Some("~/.config.json"));
    assert_eq!(config.integer("max_retries"), Some(3));
    assert_eq!(config.flag("verbose"), Some(false));
    assert_eq!(config.flag("debug"), Some(true));
}

#[test]
fn last_value_wins() {
    let config =
        Config::parse_from(&schema(), &["program", "-r", "1", "--retries", "2"]).unwrap();
    assert_eq!(config.integer("max_retries"), Some(2));
    let config = Config::parse_from(&schema(), &["program", "-c", "a", "-c", "b"]).unwrap();
    assert_eq!(config.text("config_path"), Some("b"));
}

#[test]
fn repeated_flag_stays_set() {
    let config = Config::parse_from(&schema(), &["program", "-d", "--debug"]).unwrap();
    assert_eq!(config.flag("debug"), Some(true));
}

#[test]
fn parsing_twice_gives_same_result() {
    let s = schema();
    let args = ["program", "-c", "p", "-r", "9", "--verbose"];
    let a = Config::parse_from(&s, &args).unwrap();
    let b = Config::parse_from(&s, &args).unwrap();
    assert_eq!(a.text("config_path"), b.text("config_path"));
    assert_eq!(a.integer("max_retries"), b.integer("max_retries"));
    assert_eq!(a.flag("debug"), b.flag("debug"));
    assert_eq!(a.flag("verbose"), b.flag("verbose"));
    let e1 = Config::parse_from(&s, &["program", "-r", "x"]).unwrap_err();
    let e2 = Config::parse_from(&s, &["program", "-r", "x"]).unwrap_err();
    assert_eq!(format!("{:?}", e1), format!("{:?}", e2));
}

#[test]
fn non_numeric_integer_is_invalid() {
    match Config::parse_from(&schema(), &["program", "-r", "abc"]) {
        Err(ParseError::InvalidValue(name, raw)) => {
            assert_eq!(name, "max_retries");
            assert_eq!(raw, "abc");
        }
        other => panic!("unexpected outcome: {:?}", other),
    }
}

#[test]
fn out_of_range_integer_is_invalid() {
    assert!(matches!(
        Config::parse_from(&schema(), &["program", "-r", "2147483648"]),
        Err(ParseError::InvalidValue(_, _))
    ));
    let config = Config::parse_from(&schema(), &["program", "-r", "-2147483648"]).unwrap();
    assert_eq!(config.integer("max_retries"), Some(i32::MIN));
}

#[test]
fn trailing_value_option_misses_value() {
    match Config::parse_from(&schema(), &["program", "-d", "--config"]) {
        Err(ParseError::MissingValue(name)) => assert_eq!(name, "config_path"),
        other => panic!("unexpected outcome: {:?}", other),
    }
    assert!(matches!(
        Config::parse_from(&schema(), &["program", "-r"]),
        Err(ParseError::MissingValue(_))
    ));
}

#[test]
fn bare_value_is_unrecognized() {
    match Config::parse_from(&schema(), &["program", "stray"]) {
        Err(ParseError::UnrecognizedArgument(t)) => assert_eq!(t, "stray"),
        other => panic!("unexpected outcome: {:?}", other),
    }
}

#[test]
fn value_token_is_taken_verbatim() {
    let config = Config::parse_from(&schema(), &["program", "-c", "-d"]).unwrap();
    assert_eq!(config.text("config_path"), Some("-d"));
    assert_eq!(config.flag("debug"), Some(false));
}

#[test]
fn joined_and_clustered_forms_are_unrecognized() {
    assert!(matches!(
        Config::parse_from(&schema(), &["program", "--config=x"]),
        Err(ParseError::UnrecognizedArgument(_))
    ));
    assert!(matches!(
        Config::parse_from(&schema(), &["program", "-dr", "5"]),
        Err(ParseError::UnrecognizedArgument(_))
    ));
    assert!(matches!(
        Config::parse_from(&schema(), &["program", "--"]),
        Err(ParseError::UnrecognizedArgument(_))
    ));
}

#[test]
fn first_error_stops_the_pass() {
    match Config::parse_from(&schema(), &["program", "-x", "-r", "abc"]) {
        Err(ParseError::UnrecognizedArgument(t)) => assert_eq!(t, "-x"),
        other => panic!("unexpected outcome: {:?}", other),
    }
}

#[test]
fn unknown_field_name_has_no_value() {
    let config = schema().defaults();
    assert!(config.get("missing").is_none());
    assert_eq!(config.integer("config_path"), None);
    assert_eq!(config.text("max_retries"), None);
}
