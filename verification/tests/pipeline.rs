use self_changer::command::{DynamicElementData, SendMessageResponse, StyleUpdate};
use self_changer::css_sanitizer::CssSanitizer;
use self_changer::pipeline::{candidate_json, process_model_output, sanitize_command};
use self_changer::validator::{fallback_command, CommandError};

#[test]
fn blue_background_request_end_to_end() {
    let sanitizer = CssSanitizer::new();
    let command = process_model_output(
        &sanitizer,
        "{\"success\":true,\"message\":\"ok\",\"chat_container_styles\":\"background-color:#3b82f6;\",\"change_style_elements\":[],\"new_elements\":[]}",
    )
    .unwrap();
    assert_eq!(
        command,
        SendMessageResponse {
            success: true,
            message: "ok".to_string(),
            chat_container_styles: Some("background-color:#3b82f6".to_string()),
            change_style_elements: None,
            new_elements: None,
        }
    );
}

#[test]
fn fenced_answer_with_introduction_end_to_end() {
    let sanitizer = CssSanitizer::new();
    let raw = "Here you go.\nJSON:\n```json\n{\"success\": true, \"message\": \"done\", \
               \"chat_container_styles\": \"\", \"change_style_elements\": [\
               {\"id\": 0, \"styles\": \"color: white; behavior: url(x.htc);\"},\
               {\"id\": 1, \"styles\": \"background-image: url(javascript:alert(1));\"}],\
               \"new_elements\": [{\"id\": 0, \"tag\": \"button\", \"text\": \"Go\", \
               \"styles\": \"position: fixed; padding: 10px 20px\", \"attributes\": null}]}\n```\nBye";
    let command = process_model_output(&sanitizer, raw).unwrap();
    assert_eq!(
        command,
        SendMessageResponse {
            success: true,
            message: "done".to_string(),
            chat_container_styles: None,
            change_style_elements: Some(vec![StyleUpdate {
                id: 0,
                styles: "color: white".to_string()
            }]),
            new_elements: Some(vec![DynamicElementData {
                id: 0,
                tag: "button".to_string(),
                text: Some("Go".to_string()),
                styles: Some("padding: 10px 20px".to_string()),
                attributes: None,
            }]),
        }
    );
}

#[test]
fn malformed_answer_degrades_to_the_fallback() {
    let sanitizer = CssSanitizer::new();
    assert_eq!(process_model_output(&sanitizer, "I cannot do that."), Ok(fallback_command()));
    assert_eq!(process_model_output(&sanitizer, "{\"success\": true"), Ok(fallback_command()));
    assert_eq!(process_model_output(&sanitizer, ""), Ok(fallback_command()));
}

#[test]
fn wrong_shape_is_an_error() {
    let sanitizer = CssSanitizer::new();
    assert_eq!(
        process_model_output(&sanitizer, "note {\"message\": \"ok\"} end"),
        Err(CommandError::SuccessNotBool)
    );
    assert_eq!(
        process_model_output(&sanitizer, "{\"success\": true, \"message\": null}"),
        Err(CommandError::MessageNotString)
    );
    assert_eq!(
        process_model_output(
            &sanitizer,
            "{\"success\": true, \"message\": \"m\", \"chat_container_styles\": [\"a\"]}"
        ),
        Err(CommandError::ContainerStylesNotString)
    );
}

#[test]
fn candidate_is_the_object_or_the_whole_normal_form() {
    assert_eq!(candidate_json("  text {\"a\": {}} more "), "{\"a\": {}}");
    assert_eq!(candidate_json("  no object here "), "no object here");
    assert_eq!(candidate_json("```json\n{\"a\": 1}\n```"), "{\"a\": 1}");
}

#[test]
fn sanitizing_a_command_drops_what_is_unsafe() {
    let sanitizer = CssSanitizer::new();
    let command = SendMessageResponse {
        success: true,
        message: "m".to_string(),
        chat_container_styles: Some("  color: red; top: 0  ".to_string()),
        change_style_elements: Some(vec![
            StyleUpdate { id: 1, styles: "unknown: 1".to_string() },
            StyleUpdate { id: 2, styles: "WIDTH: 50%".to_string() },
        ]),
        new_elements: Some(vec![DynamicElementData {
            id: 9,
            tag: "p".to_string(),
            text: None,
            styles: Some("color: expression(1)".to_string()),
            attributes: Some(vec![("a".to_string(), "b".to_string())]),
        }]),
    };
    let safe = sanitize_command(&sanitizer, command);
    assert_eq!(safe.chat_container_styles, Some("color: red".to_string()));
    assert_eq!(
        safe.change_style_elements,
        Some(vec![StyleUpdate { id: 2, styles: "WIDTH: 50%".to_string() }])
    );
    assert_eq!(
        safe.new_elements,
        Some(vec![DynamicElementData {
            id: 9,
            tag: "p".to_string(),
            text: None,
            styles: None,
            attributes: Some(vec![("a".to_string(), "b".to_string())]),
        }])
    );
}
