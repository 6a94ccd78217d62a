use self_changer::command::{MessageInfo, SendMessageRequest};
use self_changer::prompt::{build_prompt, render_message_context};

fn message(id: usize, is_user: bool, text: &str) -> MessageInfo {
    MessageInfo { id, is_user, text: text.to_string() }
}

#[test]
fn context_lists_the_messages() {
    let messages = vec![message(0, false, "hello"), message(1, true, "make it \"blue\"")];
    assert_eq!(
        render_message_context(&messages),
        "現在のメッセージ一覧（総数: 2）:\nID: 0, is_user: false, text: \"hello\"\nID: 1, is_user: true, text: \"make it \"blue\"\"\n\n注意: ユーザーが新しいメッセージを送信した後、AIの返信メッセージのIDは 2 になります。"
    );
}

#[test]
fn context_of_no_message() {
    assert_eq!(
        render_message_context(&Vec::new()),
        "現在のメッセージ一覧（総数: 0）:\n\n\n注意: ユーザーが新しいメッセージを送信した後、AIの返信メッセージのIDは 0 になります。"
    );
}

#[test]
fn identifiers_are_written_in_decimal() {
    let messages = vec![message(10, true, "a"), message(907, true, "b"), message(usize::MAX, false, "c")];
    let context = render_message_context(&messages);
    assert!(context.contains("ID: 10, is_user: true, text: \"a\"\n"));
    assert!(context.contains("ID: 907, is_user: true, text: \"b\"\n"));
    assert!(context.contains(&format!("ID: {}, is_user: false, text: \"c\"", usize::MAX)));
    assert!(context.contains("総数: 3）"));
}

#[test]
fn prompt_puts_request_and_context_into_the_template() {
    let request = SendMessageRequest {
        text: "背景を青く".to_string(),
        messages: vec![message(0, false, "hi")],
    };
    let prompt = build_prompt("A {MESSAGE_CONTEXT} B {USER_REQ} C {USER_REQ}{", &request);
    let context = render_message_context(&request.messages);
    assert_eq!(prompt, format!("A {} B 背景を青く C 背景を青く{{", context));
}

#[test]
fn placeholder_in_the_request_is_filled_with_the_context() {
    let request = SendMessageRequest { text: "x{MESSAGE_CONTEXT}y".to_string(), messages: Vec::new() };
    let context = render_message_context(&request.messages);
    assert_eq!(build_prompt("{USER_REQ}", &request), format!("x{}y", context));
}

#[test]
fn template_without_placeholders_is_left_as_it_is() {
    let request = SendMessageRequest { text: "r".to_string(), messages: Vec::new() };
    assert_eq!(build_prompt("", &request), "");
    assert_eq!(build_prompt("{USER_REQ", &request), "{USER_REQ");
    assert_eq!(build_prompt("{{USER_REQ}}", &request), "{r}");
}
