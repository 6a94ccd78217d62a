use self_changer::extractor::extract_first_json_object;

#[test]
fn object_surrounded_by_prose_is_returned_exactly() {
    assert_eq!(
        extract_first_json_object("Sure! {\"a\": {\"b\": 1}} Hope it helps."),
        Some("{\"a\": {\"b\": 1}}".to_string())
    );
    assert_eq!(extract_first_json_object("{}"), Some("{}".to_string()));
}

#[test]
fn unbalanced_braces_give_none() {
    assert_eq!(extract_first_json_object("{\"a\": {\"b\": 1}"), None);
    assert_eq!(extract_first_json_object("{{}"), None);
    assert_eq!(extract_first_json_object("no braces"), None);
    assert_eq!(extract_first_json_object(""), None);
    assert_eq!(extract_first_json_object("}}}"), None);
}

#[test]
fn first_object_wins_and_stray_closers_are_skipped() {
    assert_eq!(extract_first_json_object("} {a} {b}"), Some("{a}".to_string()));
    assert_eq!(extract_first_json_object("{a}}"), Some("{a}".to_string()));
}

#[test]
fn braces_in_quoted_text_count_like_any_other() {
    assert_eq!(
        extract_first_json_object("{\"k\": \"}\", \"x\": 1}"),
        Some("{\"k\": \"}".to_string())
    );
}

#[test]
fn non_ascii_text_keeps_its_characters() {
    assert_eq!(
        extract_first_json_object("はい {\"message\":\"背景を青に\"} です"),
        Some("{\"message\":\"背景を青に\"}".to_string())
    );
}
