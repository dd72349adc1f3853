use nelfie::fork_ext::{
    build_tts_text_preprocessor, parse_env_bool, preprocess_tts_text, ForkExtConfig, ForkTtsTextPreprocessor,
    NoopTtsTextPreprocessor, SelectedTtsTextPreprocessor, TtsTextPreprocessor,
};

#[test]
fn trailing_w_is_normalized() {
    assert_eq!(preprocess_tts_text("それなwww"), "それな わら");
}

#[test]
fn repeated_grass_is_normalized() {
    assert_eq!(preprocess_tts_text("草草草"), "くさ");
}

#[test]
fn noop_keeps_text() {
    let p = NoopTtsTextPreprocessor;
    assert_eq!(p.preprocess("abc"), "abc");
}

#[test]
fn fork_preprocessor_applies_pipeline() {
    let p = ForkTtsTextPreprocessor;
    assert_eq!(p.preprocess("草草"), "くさ");
}

#[test]
fn text_without_slang_is_kept() {
    assert_eq!(preprocess_tts_text("こんにちは"), "こんにちは");
}

#[test]
fn env_flags_read_common_spellings() {
    assert!(parse_env_bool(Some("true"), false));
    assert!(parse_env_bool(Some(" YES "), false));
    assert!(parse_env_bool(Some("on"), false));
    assert!(!parse_env_bool(Some("0"), true));
    assert!(!parse_env_bool(Some("off"), true));
    assert!(parse_env_bool(None, true));
    assert!(!parse_env_bool(Some("maybe"), false));
    assert!(!parse_env_bool(Some("maybe"), true));
}

#[test]
fn preprocessor_is_chosen_by_both_switches() {
    let on = ForkExtConfig::from_env(Some("1"), Some("true"));
    assert!(matches!(build_tts_text_preprocessor(&on), SelectedTtsTextPreprocessor::Fork(_)));
    let off = ForkExtConfig::from_env(Some("1"), Some("false"));
    assert!(matches!(build_tts_text_preprocessor(&off), SelectedTtsTextPreprocessor::Noop(_)));
    let p = build_tts_text_preprocessor(&on);
    assert_eq!(p.preprocess("草草"), "くさ");
}
