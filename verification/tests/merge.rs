use self_changer::command::StyleUpdate;
use self_changer::merge::{shared_style, StyleAccumulator};

#[test]
fn fresh_identifier_gets_the_declarations_terminated() {
    let mut acc = StyleAccumulator::new();
    acc.merge(3, "color: red");
    assert_eq!(acc.get(3).map(|s| s.as_str()), Some("color: red;"));
    acc.merge(4, "color: blue;");
    assert_eq!(acc.get(4).map(|s| s.as_str()), Some("color: blue;"));
    assert_eq!(acc.get(5), None);
}

#[test]
fn second_merge_follows_the_first_after_one_space() {
    let mut acc = StyleAccumulator::new();
    acc.merge(1, "color: red");
    acc.merge(1, "font-size: 18px");
    assert_eq!(acc.get(1).map(|s| s.as_str()), Some("color: red; font-size: 18px;"));
    acc.merge(1, "color: blue;");
    assert_eq!(
        acc.get(1).map(|s| s.as_str()),
        Some("color: red; font-size: 18px; color: blue;")
    );
}

#[test]
fn other_entries_stay_and_reset_empties() {
    let mut acc = StyleAccumulator::new();
    acc.merge(0, "color: red");
    acc.merge(1, "color: blue");
    acc.merge(0, "margin: 0");
    assert_eq!(acc.get(1).map(|s| s.as_str()), Some("color: blue;"));
    assert_eq!(acc.get(0).map(|s| s.as_str()), Some("color: red; margin: 0;"));
    acc.reset();
    assert_eq!(acc.get(0), None);
    assert_eq!(acc.get(1), None);
}

#[test]
fn empty_declarations_become_a_lone_semicolon() {
    let mut acc = StyleAccumulator::new();
    acc.merge(7, "");
    assert_eq!(acc.get(7).map(|s| s.as_str()), Some(";"));
}

#[test]
fn updates_of_a_command_are_merged_in_order() {
    let mut acc = StyleAccumulator::new();
    let updates = vec![
        StyleUpdate { id: 0, styles: "font-weight: bold".to_string() },
        StyleUpdate { id: 1, styles: "font-weight: bold".to_string() },
        StyleUpdate { id: 0, styles: "color: white".to_string() },
    ];
    acc.merge_updates(&updates);
    assert_eq!(acc.get(0).map(|s| s.as_str()), Some("font-weight: bold; color: white;"));
    assert_eq!(acc.get(1).map(|s| s.as_str()), Some("font-weight: bold;"));
}

#[test]
fn shared_style_needs_two_equal_updates() {
    let bold = |id: usize| StyleUpdate { id, styles: "font-weight: bold".to_string() };
    assert_eq!(shared_style(&vec![bold(0), bold(1), bold(2)]), Some("font-weight: bold".to_string()));
    assert_eq!(shared_style(&vec![bold(0)]), None);
    assert_eq!(shared_style(&Vec::new()), None);
    assert_eq!(
        shared_style(&vec![bold(0), StyleUpdate { id: 1, styles: "color: red".to_string() }]),
        None
    );
}

#[test]
fn command_with_shared_style_reaches_the_reply() {
    let mut acc = StyleAccumulator::new();
    let updates = vec![
        StyleUpdate { id: 0, styles: "color: white".to_string() },
        StyleUpdate { id: 1, styles: "color: white".to_string() },
    ];
    acc.apply_command(&updates, 2);
    assert_eq!(acc.get(0).map(|s| s.as_str()), Some("color: white;"));
    assert_eq!(acc.get(1).map(|s| s.as_str()), Some("color: white;"));
    assert_eq!(acc.get(2).map(|s| s.as_str()), Some("color: white;"));
    let single = vec![StyleUpdate { id: 0, styles: "margin: 0".to_string() }];
    acc.apply_command(&single, 3);
    assert_eq!(acc.get(0).map(|s| s.as_str()), Some("color: white; margin: 0;"));
    assert_eq!(acc.get(3), None);
}

#[test]
fn rendered_style_follows_the_base_style() {
    let mut acc = StyleAccumulator::new();
    acc.merge(1, "color: red");
    assert_eq!(acc.style_for(1, "padding: 1px;"), "padding: 1px; color: red;");
    assert_eq!(acc.style_for(2, "padding: 1px;"), "padding: 1px;");
    acc.merge(3, "");
    assert_eq!(acc.style_for(3, "b"), "b ;");
}
