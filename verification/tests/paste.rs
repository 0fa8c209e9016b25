use yapper::paste::{
    paste_target_check,
    clipboard_text, destination_plan, paste_plan, sentinel_to_key, target_unchanged,
    text_has_spoken_key_sentinels, undo_n_times_at_focus, undo_step_count, FocusedField,
    PasteStep, PasteTarget, SpokenKey,
};

fn field() -> FocusedField {
    FocusedField {
        runtime_id: vec![1],
        automation_id: "message".into(),
        class_name: "editable".into(),
        control_type: 50004,
        bounds: [10, 20, 300, 80],
    }
}

#[test]
fn recreated_field_is_still_the_destination() {
    let a = field();
    let mut b = field();
    b.runtime_id = vec![2];
    assert!(a.same_field(&b));
}

#[test]
fn different_field_is_not_the_destination() {
    let a = field();
    let mut b = field();
    b.runtime_id = vec![2];
    b.automation_id = "search".into();
    assert!(!a.same_field(&b));
    b.automation_id = a.automation_id.clone();
    b.bounds = [10, 100, 300, 160];
    assert!(!a.same_field(&b));
}

#[test]
fn anonymous_objects_need_a_stable_runtime_id() {
    let mut a = field();
    a.automation_id.clear();
    a.class_name.clear();
    let mut b = a.clone();
    b.runtime_id = vec![2];
    assert!(!a.same_field(&b));
    b.runtime_id = a.runtime_id.clone();
    assert!(a.same_field(&b));
}

#[test]
fn field_identity_is_symmetric_on_examples() {
    let a = field();
    let mut b = field();
    b.runtime_id = vec![9, 9];
    assert_eq!(a.same_field(&b), b.same_field(&a));
    b.control_type = 50000;
    assert_eq!(a.same_field(&b), b.same_field(&a));
    assert!(!a.same_field(&b));
    assert!(a.same_field(&a));
}

#[test]
fn empty_bounds_do_not_identify_a_recreated_field() {
    let mut a = field();
    a.bounds = [0, 0, 0, 0];
    let mut b = a.clone();
    b.runtime_id = vec![2];
    assert!(!a.same_field(&b));
}

fn target(window: isize, control: isize, element: Option<FocusedField>) -> PasteTarget {
    PasteTarget { window, control, app_key: "notepad.exe".into(), element }
}

#[test]
fn target_must_keep_window_control_and_field() {
    let t = target(1, 2, Some(field()));
    assert!(target_unchanged(&t, &target(1, 2, Some(field()))));
    assert!(!target_unchanged(&t, &target(3, 2, Some(field()))));
    assert!(!target_unchanged(&t, &target(1, 4, Some(field()))));
    let mut other = field();
    other.runtime_id = vec![7];
    other.automation_id = "search".into();
    assert!(!target_unchanged(&t, &target(1, 2, Some(other))));
}

#[test]
fn clipboard_text_translates_newline_and_tab_markers() {
    let s = "a\u{E090}b\u{E092}c\u{E091}\u{E093}\u{E094}d";
    assert_eq!(clipboard_text(s), "a\nb\tcd");
    assert_eq!(clipboard_text("plain"), "plain");
}

#[test]
fn sentinels_name_their_keys() {
    assert!(matches!(sentinel_to_key('\u{E090}'), Some(SpokenKey::Return)));
    assert!(matches!(sentinel_to_key('\u{E091}'), Some(SpokenKey::CapsLock)));
    assert!(matches!(sentinel_to_key('\u{E092}'), Some(SpokenKey::Tab)));
    assert!(matches!(sentinel_to_key('\u{E093}'), Some(SpokenKey::Escape)));
    assert!(matches!(sentinel_to_key('\u{E094}'), Some(SpokenKey::Backspace)));
    assert!(sentinel_to_key('x').is_none());
    assert!(text_has_spoken_key_sentinels("go\u{E090}"));
    assert!(!text_has_spoken_key_sentinels("go\n"));
}

fn describe(steps: &[PasteStep]) -> Vec<String> {
    steps
        .iter()
        .map(|s| match s {
            PasteStep::Chunk(t) => format!("chunk:{t}"),
            PasteStep::ShiftReturn => "shift-return".to_string(),
            PasteStep::Key(k) => format!("key:{k:?}"),
        })
        .collect()
}

#[test]
fn paste_plan_splits_lines_and_keys() {
    let steps = paste_plan("one\r\ntwo\u{E090}three\rfour");
    assert_eq!(
        describe(&steps),
        vec!["chunk:one", "shift-return", "chunk:two", "key:Return", "chunk:three", "shift-return", "chunk:four"]
    );
    assert_eq!(undo_step_count(&steps), 7);
}

#[test]
fn paste_plan_of_plain_text_is_one_chunk() {
    assert_eq!(describe(&paste_plan("hello world")), vec!["chunk:hello world"]);
    assert!(paste_plan("").is_empty());
}

#[test]
fn multiline_destination_pastes_whole_text_unless_keys() {
    assert_eq!(describe(&destination_plan("a\nb", true)), vec!["chunk:a\nb"]);
    assert_eq!(describe(&destination_plan("a\nb", false)), vec!["chunk:a", "shift-return", "chunk:b"]);
    assert_eq!(
        describe(&destination_plan("a\u{E090}", true)),
        vec!["chunk:a", "key:Return"]
    );
}

#[test]
fn undo_is_capped_at_sixty_four_presses() {
    assert_eq!(undo_n_times_at_focus(0), 0);
    assert_eq!(undo_n_times_at_focus(5), 5);
    assert_eq!(undo_n_times_at_focus(64), 64);
    assert_eq!(undo_n_times_at_focus(1000), 64);
}

#[test]
fn paste_is_refused_without_the_captured_field() {
    let t = target(1, 2, Some(field()));
    assert_eq!(paste_target_check(&t, None).unwrap_err(), "Could not find the text field.");
    assert_eq!(paste_target_check(&t, Some(target(3, 2, Some(field())))).unwrap_err(), "The active text field changed.");
    assert!(paste_target_check(&t, Some(target(1, 2, Some(field())))).is_ok());
}
