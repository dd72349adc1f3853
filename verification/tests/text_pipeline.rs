use nelfie::dict::{apply_tts_dictionary, dictionary_regex, splice_dictionary};
use nelfie::markup::{RegexPiece, MarkupRule, splice_markup, markup_step_exec};
use nelfie::kana::{en2kana_without_converter, plan_en2kana, join_kana, KanaPiece, EN2KANA};
use nelfie::markup::{normalize_tts_text_without_converter, relative_time_jp};
use nelfie::tts::{preview_text, split_tts_segments};

#[test]
fn short_uppercase_ascii_word_is_skipped_for_kanalyze() {
    assert!(EN2KANA::should_skip_kanalyze_ascii_word("CPU"));
    assert!(EN2KANA::should_skip_kanalyze_ascii_word("ABCDE"));
    assert!(!EN2KANA::should_skip_kanalyze_ascii_word("ABCDEF"));
    assert!(!EN2KANA::should_skip_kanalyze_ascii_word("Gpu"));
}

#[test]
fn decimal_fraction_is_read_digit_by_digit() {
    assert_eq!(normalize_tts_text_without_converter(".32", 0).unwrap(), "テンサンニイ");
    assert_eq!(normalize_tts_text_without_converter("1.32", 0).unwrap(), "1テンサンニイ");
}

#[test]
fn dictionary_matches_ascii_normalized_alias() {
    let source = "371CPU";
    let normalized = en2kana_without_converter(source).expect("no word needs the converter");
    let input = format!("{} が参加しました", normalized);
    let entries = vec![(source.to_string(), "みないっち".to_string())];
    let aliases = vec![normalized.clone()];

    let out = apply_tts_dictionary(&input, &entries, &aliases);
    assert_eq!(out, "みないっち が参加しました");
}

#[test]
fn dictionary_prefers_longest_match_at_same_position() {
    let entries = vec![
        ("abc".to_string(), "X".to_string()),
        ("abcd".to_string(), "Y".to_string()),
    ];
    let aliases = vec!["abc".to_string(), "abcd".to_string()];

    let out = apply_tts_dictionary("abcd abc", &entries, &aliases);
    assert_eq!(out, "Y X");
}

#[test]
fn dictionary_with_blank_entries_keeps_text() {
    let entries = vec![(" ".to_string(), "X".to_string())];
    let aliases = vec![" ".to_string()];
    assert_eq!(apply_tts_dictionary("a b", &entries, &aliases), "a b");
}

#[test]
fn uppercase_acronym_needs_no_converter() {
    let plan = plan_en2kana("CPU usage");
    assert!(plan.iter().any(|p| matches!(p, KanaPiece::Text(t) if t.contains("CPU"))));
    assert!(en2kana_without_converter("CPU usage").is_none());
    let joined = join_kana(&plan, &plan.iter().map(|_| "ユーセージ".to_string()).collect::<Vec<_>>());
    assert!(joined.contains("CPU"));
}

#[test]
fn digits_next_to_letters_are_read_in_english() {
    assert_eq!(EN2KANA::digit_to_kana('3'), "スリー");
    assert_eq!(EN2KANA::digit_to_kana('0'), "ゼロ");
    assert_eq!(EN2KANA::normalize_ascii_letters(&"camelCase".chars().collect()), "camel case".chars().collect::<Vec<_>>());
}

#[test]
fn segments_split_long_text() {
    let segs = split_tts_segments("こんにちは。元気ですか？");
    assert!(!segs.is_empty());
    assert_eq!(segs.concat().replace(' ', ""), "こんにちは。元気ですか？");
    assert!(split_tts_segments("   ").is_empty());
}

#[test]
fn preview_marks_cut_text() {
    assert_eq!(preview_text("abcdef", 3), "abc…");
    assert_eq!(preview_text("", 3), "(empty)");
    assert_eq!(preview_text("ab", 3), "ab");
}

#[test]
fn relative_time_is_spoken_in_japanese() {
    let s: String = relative_time_jp(0, 0).into_iter().collect();
    assert!(!s.is_empty());
}

#[test]
fn splitting_a_segment_again_keeps_it_whole() {
    let long = "あいうえお かきくけこ さしすせそ たちつてと なにぬねの はひふへほ まみむめも やゆよ らりるれろ わをん";
    let input = format!("こんにちは。元気ですか？\n  それでは、 {}", long);
    let segs = split_tts_segments(&input);
    assert!(segs.len() >= 4);
    for s in &segs {
        assert_eq!(split_tts_segments(s), vec![s.clone()]);
    }
}

#[test]
fn dictionary_regex_tries_longest_first_and_escapes() {
    let entries = vec![
        ("a.b".to_string(), "X".to_string()),
        ("c++ code".to_string(), "Y".to_string()),
        ("xyz".to_string(), "Z".to_string()),
    ];
    let aliases = vec!["a.b".to_string(), "c++ code".to_string(), "xyz".to_string()];
    assert_eq!(dictionary_regex(&entries, &aliases), "(?:c\\+\\+ code|a\\.b|xyz)");
}

#[test]
fn dictionary_splice_replaces_matches_by_target() {
    let entries = vec![
        ("abc".to_string(), "X".to_string()),
        ("abcd".to_string(), "Y".to_string()),
    ];
    let aliases = vec!["abc".to_string(), "abcd".to_string()];
    let pieces = vec![
        RegexPiece::Gap("<".to_string()),
        RegexPiece::Hit(vec![Some("abcd".to_string())]),
        RegexPiece::Gap(" ".to_string()),
        RegexPiece::Hit(vec![Some("abc".to_string())]),
        RegexPiece::Gap(">".to_string()),
    ];
    assert_eq!(splice_dictionary(&entries, &aliases, &pieces), "<Y X>");
}

#[test]
fn dictionary_treats_regex_characters_literally() {
    let entries = vec![
        ("a.b".to_string(), "点".to_string()),
        ("(x)".to_string(), "括弧".to_string()),
    ];
    let aliases = vec!["a.b".to_string(), "(x)".to_string()];
    assert_eq!(apply_tts_dictionary("a.b axb (x) x", &entries, &aliases), "点 axb 括弧 x");
}

#[test]
fn markup_splice_reads_each_match() {
    let pieces = vec![
        RegexPiece::Gap("see ".to_string()),
        RegexPiece::Hit(vec![Some("[docs](https://x.y)".to_string()), Some("docs".to_string()), Some("https://x.y".to_string())]),
        RegexPiece::Gap(" now".to_string()),
    ];
    let out: String = splice_markup(MarkupRule::MaskedLink, &pieces, 0).into_iter().collect();
    assert_eq!(out, "see docs now");
    let url = vec![RegexPiece::Gap("a ".to_string()), RegexPiece::Hit(vec![Some("https://e.com".to_string())]), RegexPiece::Gap("".to_string())];
    let out: String = splice_markup(MarkupRule::Url, &url, 0).into_iter().collect();
    assert_eq!(out, "a URL");
}

#[test]
fn markup_step_replaces_masked_link() {
    let s: Vec<char> = "see [docs](https://x.y) now".chars().collect();
    let out: String = markup_step_exec(MarkupRule::MaskedLink, &s, 0).into_iter().collect();
    assert_eq!(out, "see docs now");
}
