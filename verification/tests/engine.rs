use yapper::db::DictionaryEntry;
use yapper::engine::{
    dictionary_prompt, format_inference_line, inference_model_for_init, live_preview_wanted,
    setting_i32, setting_truthy, take_outcome_if_fresh, whisper_device, OUTCOME_TTL_MS,
};

fn entry(term: &str, priority: i64) -> DictionaryEntry {
    DictionaryEntry {
        id: None,
        term: term.into(),
        replacement: String::new(),
        priority,
        scope: "word".into(),
    }
}

#[test]
fn dictionary_hints_respect_priority_budget_and_opt_out() {
    // Rows as the dictionary lists them: highest priority first.
    let entries = vec![
        entry(&"x".repeat(500), 200),
        entry("Yapper", 100),
        entry("Yapper", 99),
        entry("low", 0),
    ];
    assert_eq!(
        dictionary_prompt(None, &entries, "User style."),
        "User style.\nVocabulary: Yapper, low."
    );
    assert_eq!(dictionary_prompt(Some("false"), &entries, "User style."), "User style.");
}

#[test]
fn vocabulary_is_ordered_by_priority_and_prefers_replacements() {
    let mut a = entry("teh", 1);
    a.replacement = " the ".into();
    let entries = vec![entry("alpha", 0), a, entry("beta", 5)];
    assert_eq!(dictionary_prompt(Some("true"), &entries, "  "), "Vocabulary: beta, the, alpha.");
    assert_eq!(dictionary_prompt(None, &[], "Plain"), "Plain");
}

#[test]
fn vocabulary_stops_at_thirty_two_terms() {
    let entries: Vec<_> = (0..40).map(|i| entry(&format!("t{i}"), 0)).collect();
    let out = dictionary_prompt(None, &entries, "");
    let list = out.strip_prefix("Vocabulary: ").unwrap().strip_suffix('.').unwrap();
    assert_eq!(list.split(", ").count(), 32);
}

#[test]
fn inference_line_joins_device_and_compute() {
    assert_eq!(
        format_inference_line(Some("cuda".into()), Some("float16".into())).as_deref(),
        Some("Whisper device: cuda · compute float16")
    );
    assert_eq!(
        format_inference_line(Some("pending_first_use".into()), None).as_deref(),
        Some("Model: loads on first dictation or file job (lazy mode)")
    );
    assert_eq!(format_inference_line(Some(String::new()), Some("int8".into())).as_deref(), Some("compute int8"));
    assert_eq!(format_inference_line(None, Some(String::new())), None);
}

#[test]
fn init_model_follows_the_engine() {
    assert_eq!(inference_model_for_init(Some("parakeet"), None, Some("small")), "sherpa-onnx-nemo-parakeet-tdt-0.6b-v3-int8");
    assert_eq!(inference_model_for_init(Some("parakeet"), Some("p"), None), "p");
    assert_eq!(inference_model_for_init(None, None, None), "base");
    assert_eq!(inference_model_for_init(Some("whisper"), Some("p"), Some("medium")), "medium");
}

#[test]
fn device_choice() {
    assert_eq!(whisper_device("cpu", true), "cpu");
    assert_eq!(whisper_device("cuda", true), "cuda");
    assert_eq!(whisper_device("cuda", false), "cpu");
    assert_eq!(whisper_device("auto", true), "cuda");
}

#[test]
fn live_preview_needs_setting_and_no_demo_mode() {
    assert!(live_preview_wanted(Some("true"), None));
    assert!(!live_preview_wanted(Some("true"), Some("true")));
    assert!(!live_preview_wanted(None, None));
}

#[test]
fn decoder_settings_parse_and_clamp() {
    assert!(setting_truthy(Some("Yes"), false));
    assert!(setting_truthy(Some("ON"), false));
    assert!(!setting_truthy(Some("nope"), true));
    assert!(setting_truthy(None, true));
    assert!(!setting_truthy(None, false));
    assert_eq!(setting_i32(Some("7"), 5, 1, 10), 7);
    assert_eq!(setting_i32(Some("70"), 5, 1, 10), 10);
    assert_eq!(setting_i32(Some("-3"), 5, 1, 10), 1);
    assert_eq!(setting_i32(Some("x"), 5, 1, 10), 5);
    assert_eq!(setting_i32(None, 1, 1, 5), 1);
}

#[test]
fn outcome_expires_after_three_seconds() {
    let mut slot = Some(("Dictation pasted".to_string(), 1000));
    assert_eq!(take_outcome_if_fresh(&mut slot, 1000 + OUTCOME_TTL_MS - 1), ("Dictation pasted".to_string(), false));
    assert!(slot.is_some());
    assert_eq!(take_outcome_if_fresh(&mut slot, 1000 + OUTCOME_TTL_MS), (String::new(), true));
    assert!(slot.is_none());
    assert_eq!(take_outcome_if_fresh(&mut slot, 0), (String::new(), false));
}
