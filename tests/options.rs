use peer_bridge::options::{
    process_options, OptionFault, OptionValue, OptionsError, SqlLiteral,
};

fn text(s: &str) -> SqlLiteral {
    SqlLiteral::SingleQuotedString(s.to_string())
}

fn number(s: &str) -> SqlLiteral {
    SqlLiteral::Number(s.to_string())
}

fn base() -> Vec<(String, SqlLiteral)> {
    vec![
        ("destination_table_name".to_string(), text("dst")),
        ("num_rows_per_partition".to_string(), number("1000")),
    ]
}

fn get<'a>(opts: &'a [(String, OptionValue)], name: &str) -> Option<&'a OptionValue> {
    opts.iter().find(|(n, _)| n == name).map(|(_, v)| v)
}

fn fault_of(r: Result<Vec<(String, OptionValue)>, OptionsError>) -> (String, OptionFault) {
    match r {
        Err(OptionsError::Option { name, fault }) => (name, fault),
        other => panic!("expected an option fault, got {:?}", other),
    }
}

#[test]
fn defaults_are_filled_in() {
    let opts = process_options(&base()).unwrap();
    assert!(matches!(get(&opts, "destination_table_name"), Some(OptionValue::Text(s)) if s == "dst"));
    assert!(matches!(get(&opts, "mode"), Some(OptionValue::Text(s)) if s == "append"));
    assert!(matches!(get(&opts, "staging_path"), Some(OptionValue::Text(s)) if s.is_empty()));
    assert!(matches!(get(&opts, "parallelism"), Some(OptionValue::Number(2))));
    assert!(matches!(get(&opts, "refresh_interval"), Some(OptionValue::Number(10))));
    assert!(matches!(get(&opts, "num_rows_per_partition"), Some(OptionValue::Number(1000))));
    assert!(matches!(get(&opts, "initial_copy_only"), Some(OptionValue::Bool(false))));
    assert!(get(&opts, "watermark_column").is_none());
    assert!(get(&opts, "unique_key_columns").is_none());
    assert_eq!(opts.len(), 9);
}

#[test]
fn missing_required_option_is_refused() {
    let raw = vec![("num_rows_per_partition".to_string(), number("5"))];
    assert_eq!(
        fault_of(process_options(&raw)),
        ("destination_table_name".to_string(), OptionFault::Required)
    );
}

#[test]
fn mode_outside_the_accepted_values_is_refused() {
    let mut raw = base();
    raw.push(("mode".to_string(), text("merge")));
    assert_eq!(fault_of(process_options(&raw)), ("mode".to_string(), OptionFault::NotAccepted));
}

#[test]
fn wrong_literal_kind_is_refused() {
    let mut raw = base();
    raw.push(("initial_copy_only".to_string(), text("yes")));
    assert_eq!(
        fault_of(process_options(&raw)),
        ("initial_copy_only".to_string(), OptionFault::Invalid)
    );
}

#[test]
fn numbers_below_minimum_or_unparsable_are_refused() {
    let mut raw = base();
    raw.push(("refresh_interval".to_string(), number("9")));
    assert_eq!(
        fault_of(process_options(&raw)),
        ("refresh_interval".to_string(), OptionFault::BelowMinimum)
    );
    let mut raw = base();
    raw.push(("parallelism".to_string(), number("4294967296")));
    assert_eq!(fault_of(process_options(&raw)), ("parallelism".to_string(), OptionFault::NotANumber));
    let mut raw = base();
    raw.push(("parallelism".to_string(), number("+4")));
    let opts = process_options(&raw).unwrap();
    assert!(matches!(get(&opts, "parallelism"), Some(OptionValue::Number(4))));
}

#[test]
fn unknown_options_are_reported_together() {
    let mut raw = base();
    raw.push(("colour".to_string(), text("red")));
    raw.push(("size".to_string(), number("3")));
    match process_options(&raw) {
        Err(OptionsError::Unknown(names)) => assert_eq!(names, vec!["colour", "size"]),
        other => panic!("expected unknown options, got {:?}", other),
    }
}

#[test]
fn key_columns_are_split_and_trimmed() {
    let mut raw = base();
    raw.push(("unique_key_columns".to_string(), text(" id , name,,x ")));
    raw.push(("mode".to_string(), text("upsert")));
    let opts = process_options(&raw).unwrap();
    match get(&opts, "unique_key_columns") {
        Some(OptionValue::List(keys)) => assert_eq!(keys, &vec!["id", "name", "", "x"]),
        other => panic!("expected a list, got {:?}", other),
    }
}

#[test]
fn upsert_without_key_columns_is_refused() {
    let mut raw = base();
    raw.push(("mode".to_string(), text("upsert")));
    assert!(matches!(process_options(&raw), Err(OptionsError::UpsertWithoutKeys)));
}
