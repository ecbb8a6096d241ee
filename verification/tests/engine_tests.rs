use filesculptor::replace_strings;
use filesculptor::ProcessingError;
use filesculptor::Replacement;
use filesculptor::RuleSet;

#[test]
fn test_exact_replacement() {
    let mut changes = RuleSet::new();
    changes.insert("hello".to_string(), Replacement::Exact("hi".to_string()));

    let result = replace_strings("hello world", &changes).unwrap();
    assert_eq!(result, "hi world");
}

#[test]
fn test_regex_replacement() {
    let mut changes = RuleSet::new();
    changes.insert(
        "pattern".to_string(),
        Replacement::Regex {
            pattern: r"\d+".to_string(),
            replacement: "#".to_string(),
        },
    );

    let result = replace_strings("abc123def", &changes).unwrap();
    assert_eq!(result, "abc#def");
}

#[test]
fn test_invalid_regex() {
    let mut changes = RuleSet::new();
    changes.insert(
        "pattern".to_string(),
        Replacement::Regex {
            pattern: r"(".to_string(),
            replacement: "#".to_string(),
        },
    );

    let result = replace_strings("test", &changes);
    assert!(matches!(result, Err(ProcessingError::InvalidRegex(_))));
}

#[test]
fn test_no_replacements() {
    let changes = RuleSet::new();
    let input = "unchanged";
    let result = replace_strings(input, &changes).unwrap();
    assert_eq!(result, input);
}

#[test]
fn empty_ruleset_is_identity() {
    let changes = RuleSet::new();
    let input = "some text\nwith lines, digits 123 and symbols $^(";
    let result = replace_strings(input, &changes).unwrap();
    assert_eq!(result, input);
}

#[test]
fn exact_rule_replaces_every_occurrence() {
    let mut changes = RuleSet::new();
    changes.insert("cat".to_string(), Replacement::Exact("dog".to_string()));

    let result = replace_strings("cat cat", &changes).unwrap();
    assert_eq!(result, "dog dog");
}

#[test]
fn exact_rule_with_absent_key_is_identity() {
    let mut changes = RuleSet::new();
    changes.insert("missing".to_string(), Replacement::Exact("found".to_string()));

    let result = replace_strings("nothing to see here", &changes).unwrap();
    assert_eq!(result, "nothing to see here");
}

#[test]
fn exact_replacement_is_non_overlapping_left_to_right() {
    let mut changes = RuleSet::new();
    changes.insert("aa".to_string(), Replacement::Exact("b".to_string()));

    let result = replace_strings("aaa", &changes).unwrap();
    assert_eq!(result, "ba");
}

#[test]
fn empty_key_inserts_between_every_character() {
    let mut changes = RuleSet::new();
    changes.insert("".to_string(), Replacement::Exact("x".to_string()));

    let result = replace_strings("abc", &changes).unwrap();
    assert_eq!(result, "xaxbxcx");
}

#[test]
fn invalid_regex_fails_on_unrelated_text() {
    let mut changes = RuleSet::new();
    changes.insert(
        "anything".to_string(),
        Replacement::Regex {
            pattern: "(".to_string(),
            replacement: "#".to_string(),
        },
    );

    let result = replace_strings("no parentheses and no digits at all", &changes);
    match result {
        Err(ProcessingError::InvalidRegex(pattern)) => assert_eq!(pattern, "("),
        other => panic!("expected InvalidRegex, got {:?}", other),
    }
}

#[test]
fn regex_with_no_match_is_identity() {
    let mut changes = RuleSet::new();
    changes.insert(
        "num".to_string(),
        Replacement::Regex {
            pattern: r"\d+".to_string(),
            replacement: "#".to_string(),
        },
    );

    let input = "no digits here";
    let result = replace_strings(input, &changes).unwrap();
    assert_eq!(result, input);
}

#[test]
fn regex_rewrite_template_uses_capture_groups() {
    let mut changes = RuleSet::new();
    changes.insert(
        "swap".to_string(),
        Replacement::Regex {
            pattern: r"(\w+)=(\w+)".to_string(),
            replacement: "$2=$1".to_string(),
        },
    );

    let result = replace_strings("key=value", &changes).unwrap();
    assert_eq!(result, "value=key");
}

#[test]
fn regex_rule_key_plays_no_part() {
    let mut changes = RuleSet::new();
    changes.insert(
        "zzz".to_string(),
        Replacement::Regex {
            pattern: "a+".to_string(),
            replacement: "-".to_string(),
        },
    );

    let result = replace_strings("zzz aaa zzz", &changes).unwrap();
    assert_eq!(result, "zzz - zzz");
}

#[test]
fn inserting_under_same_key_replaces_the_rule() {
    let mut changes = RuleSet::new();
    changes.insert("cat".to_string(), Replacement::Exact("dog".to_string()));
    changes.insert("cat".to_string(), Replacement::Exact("bird".to_string()));
    assert_eq!(changes.len(), 1);

    let result = replace_strings("cat", &changes).unwrap();
    assert_eq!(result, "bird");
}

#[test]
fn unicode_text_is_replaced_by_characters() {
    let mut changes = RuleSet::new();
    changes.insert("naïve".to_string(), Replacement::Exact("wise".to_string()));

    let result = replace_strings("a naïve plan — très naïve", &changes).unwrap();
    assert_eq!(result, "a wise plan — très wise");
}
