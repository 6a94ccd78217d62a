use self_changer::command::{DynamicElementData, StyleUpdate};
use self_changer::json::{parse_json, JsonValue};
use self_changer::validator::{
    decode_command, decode_element, decode_update, fallback_command, validate_command,
    validate_document, CommandError,
};

#[test]
fn text_that_is_no_json_gives_the_fallback_command() {
    let command = validate_command("not json").expect("a fallback, not an error");
    assert!(!command.success);
    assert_eq!(
        command.message,
        "AIの出力がJSONとして不正だったため、UIは変更していません。もう一度具体的に指示してください。"
    );
    assert_eq!(command.chat_container_styles, None);
    assert_eq!(command.change_style_elements, None);
    assert_eq!(command.new_elements, None);
    assert_eq!(command, fallback_command());
    assert_eq!(validate_command(""), Ok(fallback_command()));
    assert_eq!(validate_command("{\"success\": true,"), Ok(fallback_command()));
    assert_eq!(validate_document(&None), Ok(fallback_command()));
}

#[test]
fn missing_message_is_a_mandatory_field_error() {
    assert_eq!(validate_command("{\"success\": true}"), Err(CommandError::MessageNotString));
    assert_eq!(
        validate_command("{\"success\": true, \"message\": 5}"),
        Err(CommandError::MessageNotString)
    );
}

#[test]
fn missing_or_mistyped_success_is_a_mandatory_field_error() {
    assert_eq!(validate_command("{\"message\": \"ok\"}"), Err(CommandError::SuccessNotBool));
    assert_eq!(
        validate_command("{\"success\": \"yes\", \"message\": \"ok\"}"),
        Err(CommandError::SuccessNotBool)
    );
    assert_eq!(validate_command("[1, 2]"), Err(CommandError::SuccessNotBool));
    assert_eq!(validate_command("42"), Err(CommandError::SuccessNotBool));
}

#[test]
fn mistyped_container_styles_reject_the_command() {
    assert_eq!(
        validate_command("{\"success\": true, \"message\": \"ok\", \"chat_container_styles\": 3}"),
        Err(CommandError::ContainerStylesNotString)
    );
    let command = validate_command(
        "{\"success\": true, \"message\": \"ok\", \"chat_container_styles\": null}",
    )
    .unwrap();
    assert_eq!(command.chat_container_styles, None);
}

#[test]
fn malformed_list_entry_is_dropped_and_the_others_stay() {
    let command = validate_command(
        "{\"success\": true, \"message\": \"ok\", \"change_style_elements\": \
         [{\"id\": 2, \"styles\": \"color: red;\"}, {\"id\": \"two\", \"styles\": 7}]}",
    )
    .unwrap();
    assert_eq!(
        command.change_style_elements,
        Some(vec![StyleUpdate { id: 2, styles: "color: red;".to_string() }])
    );
    assert_eq!(command.new_elements, None);
}

#[test]
fn lists_that_are_missing_null_or_no_array_are_empty() {
    for text in [
        "{\"success\": false, \"message\": \"m\"}",
        "{\"success\": false, \"message\": \"m\", \"change_style_elements\": null, \"new_elements\": null}",
        "{\"success\": false, \"message\": \"m\", \"change_style_elements\": \"x\", \"new_elements\": {}}",
        "{\"success\": false, \"message\": \"m\", \"change_style_elements\": [], \"new_elements\": [1, \"a\"]}",
    ] {
        let command = validate_command(text).unwrap();
        assert!(!command.success);
        assert_eq!(command.message, "m");
        assert_eq!(command.change_style_elements, None);
        assert_eq!(command.new_elements, None);
    }
}

#[test]
fn elements_are_decoded_with_their_optional_members() {
    let command = validate_command(
        "{\"success\": true, \"message\": \"ok\", \"new_elements\": [\
         {\"id\": 0, \"tag\": \"a\", \"text\": \"go\", \"styles\": \"color: red;\", \
          \"attributes\": {\"href\": \"https://example.com\", \"target\": \"_blank\"}},\
         {\"id\": 1, \"tag\": \"hr\", \"text\": null, \"styles\": null, \"attributes\": null},\
         {\"id\": 2, \"tag\": \"p\"},\
         {\"id\": 3},\
         {\"id\": 4, \"tag\": \"p\", \"attributes\": {\"n\": 1}},\
         {\"id\": 5, \"tag\": \"p\", \"text\": 9},\
         {\"id\": -6, \"tag\": \"p\"},\
         {\"id\": 7.5, \"tag\": \"p\"}]}",
    )
    .unwrap();
    assert_eq!(
        command.new_elements,
        Some(vec![
            DynamicElementData {
                id: 0,
                tag: "a".to_string(),
                text: Some("go".to_string()),
                styles: Some("color: red;".to_string()),
                attributes: Some(vec![
                    ("href".to_string(), "https://example.com".to_string()),
                    ("target".to_string(), "_blank".to_string()),
                ]),
            },
            DynamicElementData {
                id: 1,
                tag: "hr".to_string(),
                text: None,
                styles: None,
                attributes: None,
            },
            DynamicElementData {
                id: 2,
                tag: "p".to_string(),
                text: None,
                styles: None,
                attributes: None,
            },
        ])
    );
}

#[test]
fn parser_reads_every_kind_of_value() {
    assert_eq!(parse_json("null"), Some(JsonValue::Null));
    assert_eq!(parse_json(" true "), Some(JsonValue::Bool(true)));
    assert_eq!(parse_json("17"), Some(JsonValue::Number(Some(17))));
    assert_eq!(parse_json("-17"), Some(JsonValue::Number(None)));
    assert_eq!(parse_json("1.5"), Some(JsonValue::Number(None)));
    assert_eq!(parse_json("\"a\\u3042\""), Some(JsonValue::String("aあ".to_string())));
    assert_eq!(
        parse_json("[1, [\"x\"], {\"k\": false}]"),
        Some(JsonValue::Array(vec![
            JsonValue::Number(Some(1)),
            JsonValue::Array(vec![JsonValue::String("x".to_string())]),
            JsonValue::Object(vec![("k".to_string(), JsonValue::Bool(false))]),
        ]))
    );
    assert_eq!(parse_json("{\"a\": 1} trailing"), None);
    assert_eq!(parse_json("not json"), None);
}

#[test]
fn documents_written_by_hand_are_decoded_alike() {
    let update = JsonValue::Object(vec![
        ("styles".to_string(), JsonValue::String("color: red".to_string())),
        ("id".to_string(), JsonValue::Number(Some(4))),
        ("more".to_string(), JsonValue::Null),
    ]);
    assert_eq!(
        decode_update(&update),
        Some(StyleUpdate { id: 4, styles: "color: red".to_string() })
    );
    assert_eq!(decode_update(&JsonValue::Array(vec![])), None);
    assert_eq!(decode_element(&update), None);
    let document = JsonValue::Object(vec![
        ("success".to_string(), JsonValue::Bool(true)),
        ("message".to_string(), JsonValue::String("ok".to_string())),
        ("change_style_elements".to_string(), JsonValue::Array(vec![update, JsonValue::Null])),
    ]);
    let command = decode_command(&document).unwrap();
    assert!(command.success);
    assert_eq!(
        command.change_style_elements,
        Some(vec![StyleUpdate { id: 4, styles: "color: red".to_string() }])
    );
}

#[test]
fn errors_describe_themselves() {
    assert_eq!(
        CommandError::SuccessNotBool.message(),
        "JSONフィールド 'success' が bool ではありません"
    );
    assert_eq!(
        CommandError::MessageNotString.message(),
        "JSONフィールド 'message' が string ではありません"
    );
    assert_eq!(
        CommandError::ContainerStylesNotString.message(),
        "JSONフィールド 'chat_container_styles' が string ではありません"
    );
}
