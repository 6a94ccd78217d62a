use self_changer::normalizer::normalize_ai_output;

#[test]
fn fenced_block_with_language_tag_gives_trimmed_content() {
    assert_eq!(normalize_ai_output("```json\n{\"a\": 1}\n```"), "{\"a\": 1}");
    assert_eq!(normalize_ai_output("```json\n  {\"a\": 1}  \n```  \n"), "{\"a\": 1}");
    assert_eq!(normalize_ai_output("````\nbody\n```"), "body");
}

#[test]
fn introduction_is_cut_at_the_marker_in_any_case() {
    assert_eq!(normalize_ai_output("Here it is. JSON: {\"a\":1}"), "{\"a\":1}");
    assert_eq!(normalize_ai_output("json:   x  "), "x");
    assert_eq!(normalize_ai_output("Json:```\n{}\n```"), "{}");
}

#[test]
fn first_marker_is_the_one_that_counts() {
    assert_eq!(normalize_ai_output("json: json: x"), "json: x");
}

#[test]
fn text_without_marker_and_fence_is_left_as_it_is() {
    assert_eq!(normalize_ai_output("  {\"a\":1} \n"), "  {\"a\":1} \n");
    assert_eq!(normalize_ai_output(""), "");
    assert_eq!(normalize_ai_output(" ```json\n{}\n```"), " ```json\n{}\n```");
    assert_eq!(normalize_ai_output("``x``"), "``x``");
}

#[test]
fn every_kind_of_white_space_is_trimmed() {
    assert_eq!(normalize_ai_output("json:\u{3000}\t x\u{00A0}\u{2028}\r\n"), "x");
    assert_eq!(normalize_ai_output("json:\u{200B}x"), "\u{200B}x");
}

#[test]
fn fence_without_line_break_or_closing_fence() {
    assert_eq!(normalize_ai_output("```{}"), "{}");
    assert_eq!(normalize_ai_output("```json\n  {} \n"), "{}");
    assert_eq!(normalize_ai_output("```"), "");
    assert_eq!(normalize_ai_output("```a```b```c"), "a```b");
}

#[test]
fn normalizing_a_normal_form_changes_nothing() {
    for raw in ["```json\n{\"a\": 1}\n```", "JSON: {}", "  plain  ", "", "```\n x \n``` tail"] {
        let once = normalize_ai_output(raw);
        assert_eq!(normalize_ai_output(&once), once);
    }
    let uncovered = normalize_ai_output("```\n```x\ny```");
    assert_eq!(uncovered, "```x\ny");
    assert_eq!(normalize_ai_output(&uncovered), "y");
}

#[test]
fn non_ascii_text_before_the_marker() {
    assert_eq!(normalize_ai_output("結果はİ JSON: {\"k\":\"値\"}"), "{\"k\":\"値\"}");
}
