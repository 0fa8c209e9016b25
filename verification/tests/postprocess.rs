use yapper::postprocess::{
    apply_corrections, apply_dictionary, apply_spoken_punctuation, apply_tone, collapse_comma_runs,
    pipeline, repair_asr_punctuation, ToneFile, ToneRule, KEY_SENTINEL_BACKSPACE,
    KEY_SENTINEL_CAPS_LOCK, KEY_SENTINEL_ENTER, KEY_SENTINEL_ESCAPE, KEY_SENTINEL_TAB,
};

#[test]
fn corrections_order() {
    let pairs = vec![
        ("foo bar".to_string(), "baz".to_string(), 0),
        ("foo".to_string(), "x".to_string(), 0),
    ];
    let out = apply_corrections("foo bar", &pairs);
    assert_eq!(out, "baz");
}

#[test]
fn dictionary_word_boundary() {
    let e = vec![("cat".to_string(), "dog".to_string(), "word".to_string(), 0)];
    assert_eq!(apply_dictionary("The cat sat.", &e), "The dog sat.");
    assert_eq!(apply_dictionary("The catfish.", &e), "The catfish.");
}

fn tone_from_yaml(raw: &str) -> ToneFile {
    let doc: serde_yaml::Value = serde_yaml::from_str(raw).unwrap();
    let text = |v: &serde_yaml::Value, key: &str| v[key].as_str().unwrap().to_string();
    let rules = doc["rules"]
        .as_sequence()
        .unwrap()
        .iter()
        .map(|r| ToneRule { pattern: text(r, "pattern"), replace: text(r, "replace") })
        .collect();
    ToneFile { name: text(&doc, "name"), rules }
}

#[test]
fn tone_from_temp_yaml() {
    let tone = tone_from_yaml("name: Minimal\nrules:\n  - pattern: '!'\n    replace: '.'\n");
    assert_eq!(apply_tone("Hi!", Some(&tone)), "Hi.");
}

#[test]
fn spoken_punct_period_comma_quotes() {
    assert_eq!(
        apply_spoken_punctuation("Hello period how are you comma fine"),
        "Hello. how are you, fine"
    );
    let o = apply_spoken_punctuation("He said open quotes hello close quotes");
    assert!(o.contains('"'));
    assert!(o.contains("hello"));
}

#[test]
fn spoken_punct_new_paragraph() {
    for phrase in ["new paragraph", "new line", "line break", "new-line", "newline"] {
        let o = apply_spoken_punctuation(&format!("First line {phrase} Second"));
        assert!(o.contains("\n\n"), "expected double newline for {phrase}");
        assert!(o.contains("Second"));
    }
}

#[test]
fn spoken_key_commands() {
    assert!(apply_spoken_punctuation("ok press enter").contains(KEY_SENTINEL_ENTER));
    assert!(apply_spoken_punctuation("hit return now").contains(KEY_SENTINEL_ENTER));
    assert!(apply_spoken_punctuation("hit caps lock").contains(KEY_SENTINEL_CAPS_LOCK));
    assert!(apply_spoken_punctuation("press capslock").contains(KEY_SENTINEL_CAPS_LOCK));
    assert!(apply_spoken_punctuation("press tab").contains(KEY_SENTINEL_TAB));
    assert!(apply_spoken_punctuation("hit esc").contains(KEY_SENTINEL_ESCAPE));
    assert!(apply_spoken_punctuation("press backspace").contains(KEY_SENTINEL_BACKSPACE));
    let o = apply_spoken_punctuation("before press enter after");
    assert!(o.contains("before") && o.contains("after"));
    assert!(!o.contains("press"));
}

#[test]
fn repair_dialogue_comma_quote() {
    assert_eq!(repair_asr_punctuation(r#"leave,", Kane said"#), r#"leave," Kane said"#);
}

#[test]
fn repair_stutter_periods() {
    assert_eq!(repair_asr_punctuation("vampire.. . Only"), "vampire. Only");
    assert_eq!(repair_asr_punctuation("end. . Start"), "end. Start");
}

#[test]
fn repair_stutter_question_exclamation() {
    assert_eq!(repair_asr_punctuation("really??"), "really?");
    assert_eq!(repair_asr_punctuation("really? ?"), "really?");
    assert_eq!(repair_asr_punctuation("no way!!"), "no way!");
    assert_eq!(repair_asr_punctuation("no way! !"), "no way!");
}

#[test]
fn spoken_question_mark_after_whisper_question() {
    assert_eq!(apply_spoken_punctuation("really? question mark"), "really? ");
}

#[test]
fn repair_double_comma_after_quote() {
    assert_eq!(repair_asr_punctuation(r#""Hi",, she said"#), r#""Hi", she said"#);
}

#[test]
fn collapse_comma_runs_fiction_style_lists() {
    let s = "Ciri nodded furiously,, Oh, the things she wanted to do,, the promise";
    assert_eq!(
        collapse_comma_runs(s),
        "Ciri nodded furiously, Oh, the things she wanted to do, the promise"
    );
}

#[test]
fn spoken_comma_after_whisper_comma_does_not_double() {
    assert_eq!(apply_spoken_punctuation("furiously, comma Oh the things"), "furiously, Oh the things");
    assert_eq!(apply_spoken_punctuation("furiously , comma Oh"), "furiously, Oh");
}

#[test]
fn repair_pause_punctuation_after_close_quote() {
    assert_eq!(
        repair_asr_punctuation(r#"She said "Hi" , she left"#),
        r#"She said "Hi," she left"#
    );
    assert_eq!(
        repair_asr_punctuation(r#"She said "Hi" . She left"#),
        r#"She said "Hi" She left"#
    );
    assert_eq!(repair_asr_punctuation(r#"about 6" , wide"#), r#"about 6" , wide"#);
}

#[test]
fn apply_spoken_close_quotes_then_comma_phrase() {
    let o = apply_spoken_punctuation(r#"word close quotes comma she said"#);
    assert!(o.contains("\"she") || o.contains(", she"), "unexpected output: {o:?}");
    assert!(!o.contains("\" ,"), "comma should not float outside quotes: {o:?}");
}

#[test]
fn repair_duplicate_period_after_closing_quote() {
    assert_eq!(
        repair_asr_punctuation(r#""So that's it," . Vivian said"#),
        r#""So that's it," Vivian said"#
    );
    assert_eq!(repair_asr_punctuation(r#""Stop." . She nodded"#), r#""Stop." She nodded"#);
}

#[test]
fn spoken_open_quotes_drops_leading_period_artifact() {
    let o = apply_spoken_punctuation(r#"period open quotes Oh gods comma close quotes"#);
    assert!(!o.trim_start().starts_with(". \""), "unexpected leading period before opening quote: {o:?}");
    assert!(o.contains(r#""Oh gods,"#), "expected quoted phrase to remain intact: {o:?}");
}

#[test]
fn spoken_open_paren_drops_leading_period_artifact() {
    let o = apply_spoken_punctuation("period open parenthesis test close parenthesis");
    assert!(!o.trim_start().starts_with(". ("), "unexpected leading period before open paren: {o:?}");
    assert!(o.trim_start().starts_with('('), "expected utterance to start with (: {o:?}");
}

#[test]
fn spoken_period_inside_quotes_does_not_glue_to_quote_mark() {
    let o = apply_spoken_punctuation("open quotes period Oh gods close quotes");
    assert!(!o.contains("\"."), "sentence tighten must not treat \" as word char before period: {o:?}");
}

#[test]
fn pipeline_runs_every_stage_in_order() {
    let corrections = vec![("teh".to_string(), "the".to_string(), 0)];
    let dictionary = vec![("yapper".to_string(), "Yapper".to_string(), "word".to_string(), 0)];
    let tone = ToneFile {
        name: "Loud".to_string(),
        rules: vec![ToneRule { pattern: r"\.\s*$".to_string(), replace: "!".to_string() }],
    };
    assert_eq!(
        pipeline("teh YAPPER app period", &corrections, &dictionary, Some(&tone)),
        "the Yapper app!"
    );
}

#[test]
fn opening_quote_is_tightened_onto_its_word() {
    let o = apply_spoken_punctuation("He said open quotes hello close quotes");
    assert!(o.contains("\"hello"), "opening quote should touch the quoted word: {o:?}");
    assert!(!o.contains("\" hello"), "space after the opening quote should go: {o:?}");
}
