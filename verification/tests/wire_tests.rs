use filesculptor::wire::rule_from_raw;
use filesculptor::wire::rules_from_raw;
use filesculptor::wire::rules_to_raw;
use filesculptor::wire::RawValue;
use filesculptor::ProcessingError;
use filesculptor::Replacement;

#[test]
fn string_values_parse_to_exact_rules() {
    let rule = rule_from_raw(&"cat".to_string(), &RawValue::Text("dog".to_string())).unwrap();
    assert_eq!(rule, Replacement::Exact("dog".to_string()));
}

#[test]
fn tables_with_both_fields_parse_to_regex_rules() {
    let raw = RawValue::Table {
        pattern: Some(r"\d+".to_string()),
        replacement: Some("#".to_string()),
    };
    let rule = rule_from_raw(&"num".to_string(), &raw).unwrap();
    assert_eq!(
        rule,
        Replacement::Regex { pattern: r"\d+".to_string(), replacement: "#".to_string() }
    );
}

#[test]
fn other_values_are_rejected_naming_the_key() {
    let result = rule_from_raw(&"bad".to_string(), &RawValue::Other);
    assert_eq!(result, Err(ProcessingError::ScriptValueError("bad".to_string())));
}

#[test]
fn tables_missing_a_field_are_rejected_naming_the_key() {
    let raw = RawValue::Table { pattern: Some("a+".to_string()), replacement: None };
    let result = rule_from_raw(&"half".to_string(), &raw);
    assert_eq!(result, Err(ProcessingError::ScriptValueError("half".to_string())));
}

#[test]
fn parsing_stops_at_the_first_offending_key() {
    let entries = vec![
        ("ok".to_string(), RawValue::Text("fine".to_string())),
        ("bad".to_string(), RawValue::Other),
        ("also bad".to_string(), RawValue::Other),
    ];
    let result = rules_from_raw(&entries);
    match result {
        Err(ProcessingError::ScriptValueError(key)) => assert_eq!(key, "bad"),
        other => panic!("expected ScriptValueError, got {:?}", other),
    }
}

#[test]
fn round_trip_keeps_every_rule() {
    let entries = vec![
        ("cat".to_string(), RawValue::Text("dog".to_string())),
        (
            "num".to_string(),
            RawValue::Table {
                pattern: Some(r"\d+".to_string()),
                replacement: Some("#".to_string()),
            },
        ),
        ("bird".to_string(), RawValue::Text("plane".to_string())),
    ];
    let rules = rules_from_raw(&entries).unwrap();
    let back = rules_to_raw(&rules);
    assert_eq!(back, entries);
}

#[test]
fn duplicate_keys_collapse_to_the_last_value() {
    let entries = vec![
        ("cat".to_string(), RawValue::Text("dog".to_string())),
        ("cat".to_string(), RawValue::Text("bird".to_string())),
    ];
    let rules = rules_from_raw(&entries).unwrap();
    let back = rules_to_raw(&rules);
    assert_eq!(back, vec![("cat".to_string(), RawValue::Text("bird".to_string()))]);
}

fn raw_value_of_json(value: &serde_json::Value) -> RawValue {
    match value {
        serde_json::Value::String(s) => RawValue::Text(s.clone()),
        serde_json::Value::Object(m) => RawValue::Table {
            pattern: m.get("pattern").and_then(|p| p.as_str()).map(|s| s.to_string()),
            replacement: m.get("replacement").and_then(|p| p.as_str()).map(|s| s.to_string()),
        },
        _ => RawValue::Other,
    }
}

#[test]
fn json_config_round_trip_adds_and_drops_no_rule() {
    let text = r##"{
        "changes": {
            "cat": "dog",
            "num": { "pattern": "\\d+", "replacement": "#" }
        },
        "recursive": true,
        "filter": "*.txt",
        "invert": false
    }"##;
    let parsed: serde_json::Value = serde_json::from_str(text).unwrap();
    let changes = parsed.get("changes").unwrap().as_object().unwrap();

    let mut entries = Vec::new();
    for (key, value) in changes {
        entries.push((key.clone(), raw_value_of_json(value)));
    }

    let rules = rules_from_raw(&entries).unwrap();
    let back = rules_to_raw(&rules);
    assert_eq!(back, entries);
}

#[test]
fn config_changes_must_be_a_map() {
    let text = r#"{ "changes": "not_a_map" }"#;
    let parsed: serde_json::Value = serde_json::from_str(text).unwrap();
    assert!(parsed.get("changes").unwrap().as_object().is_none());
}
