use nelfie::text::{parse_u64_str, IntParseError};
use nelfie::catalog::{parse_style_table, parse_voice_style_line, suggest_styles};
use nelfie::core_runtime::no_release_error;
use nelfie::discord_tool::{members_in_channel, DiscordTool, MemberRow};
use nelfie::kana::{join_kana, needs_converter, KanaPiece};
use nelfie::markup::{finish_tts_text, plan_tts_text};
use nelfie::modal_builder::{is_modal_submission, MODAL_SUBMIT_PREFIX};
use nelfie::tool_args::{invalid_param, missing_param, parse_id_str, ArgValue, ToolArgs};
use nelfie::tts::{is_tts_head_unsafe_symbol, is_tts_phrase_boundary, is_tts_seed_char, strip_unsafe_head_symbols_for_tts};
use nelfie::voice_state::{is_long_tts_text, GuildVoiceConfig, VoiceSettings};
use nelfie::voicevox_tool::VoicevoxTool;

fn args(entries: Vec<(&str, ArgValue)>) -> ToolArgs {
    ToolArgs { entries: entries.into_iter().map(|(k, v)| (k.to_string(), v)).collect() }
}

fn text(s: &str) -> ArgValue {
    ArgValue::Text(s.to_string())
}

#[test]
fn tts_character_classes() {
    assert!(is_tts_phrase_boundary('、'));
    assert!(is_tts_phrase_boundary('　'));
    assert!(!is_tts_phrase_boundary('a'));
    assert!(is_tts_head_unsafe_symbol('ー'));
    assert!(!is_tts_head_unsafe_symbol('あ'));
    assert!(!is_tts_head_unsafe_symbol(' '));
    assert!(is_tts_seed_char('あ'));
    assert!(!is_tts_seed_char('['));
    assert!(!is_tts_seed_char(' '));
    assert!(!is_tts_seed_char('!'));
}

#[test]
fn unsafe_head_symbols_are_dropped_per_phrase() {
    let input: Vec<char> = "！？こんにちは！ ？ok ".chars().collect();
    let out: String = strip_unsafe_head_symbols_for_tts(&input).into_iter().collect();
    assert_eq!(out, "こんにちは！ ok");
}

#[test]
fn voice_settings_parallel_counts_and_speakers() {
    let mut v = VoiceSettings::new(3);
    assert_eq!(
        v.default_guild_config(),
        GuildVoiceConfig { text_channel_id: None, auto_read: false, speaker: 3 }
    );
    assert_eq!(v.stored_parallel_count(7), None);
    v.ensure_channel_parallel_count(7);
    assert_eq!(v.stored_parallel_count(7), Some(1));
    assert_eq!(v.set_channel_parallel_count(7, 10), 4);
    assert_eq!(v.channel_parallel_count(7), 4);
    v.ensure_channel_parallel_count(7);
    assert_eq!(v.channel_parallel_count(7), 4);
    v.remove_channel(7);
    assert_eq!(v.stored_parallel_count(7), None);
    assert_eq!(v.channel_parallel_count(7), 1);
    assert_eq!(v.max_parallel_read_count(), 4);
    assert_eq!(v.sequential_queue_capacity(), 16);

    assert_eq!(v.resolve_speaker(1, Some(9)), 9);
    assert_eq!(v.resolve_speaker(1, None), 3);
    v.set_speaker(1, 5);
    assert_eq!(v.resolve_speaker(1, None), 5);
    v.set_last_error(1, "boom".to_string());
    v.clear_all();
    assert_eq!(v.resolve_speaker(1, None), 3);
    assert_eq!(v.last_error(1), None);
}

#[test]
fn long_text_threshold() {
    assert!(is_long_tts_text(&"あ".repeat(64)));
    assert!(!is_long_tts_text(&"あ".repeat(63)));
}

#[test]
fn voicevox_tool_argument_helpers() {
    let a = args(vec![
        ("name", text("x")),
        ("flag", ArgValue::Bool(true)),
        ("padded", text("  hi ")),
        ("guild_id", text("42")),
        ("channel", ArgValue::Unsigned(9)),
        ("big", ArgValue::Unsigned(4294967296)),
        ("count", ArgValue::Unsigned(9)),
        ("zero", ArgValue::Unsigned(0)),
    ]);
    assert_eq!(VoicevoxTool::get_str_arg(&a, "name"), Ok("x".to_string()));
    assert_eq!(VoicevoxTool::get_str_arg(&a, "nope"), Err("Missing or invalid 'nope' parameter".to_string()));
    assert_eq!(VoicevoxTool::get_bool_arg(&a, "flag"), Ok(true));
    assert_eq!(VoicevoxTool::get_bool_arg(&a, "name"), Err("Missing or invalid 'name' parameter".to_string()));
    assert_eq!(VoicevoxTool::get_optional_str_arg(&a, "padded"), Some("hi".to_string()));
    assert_eq!(VoicevoxTool::get_optional_str_arg(&a, "nope"), None);
    assert_eq!(VoicevoxTool::get_guild_arg(&a), Ok((42, "42".to_string())));
    assert_eq!(VoicevoxTool::get_optional_channel_arg(&a, "channel"), Ok(Some(9)));
    assert_eq!(VoicevoxTool::get_optional_channel_arg(&a, "nope"), Ok(None));
    assert_eq!(VoicevoxTool::parse_u32(&a, "big"), Err("'big' must be <= 4294967295".to_string()));
    assert_eq!(VoicevoxTool::parse_u32(&a, "channel"), Ok(9));
    assert_eq!(VoicevoxTool::parse_u32(&a, "nope"), Err("Missing or invalid 'nope' parameter".to_string()));
    assert_eq!(VoicevoxTool::parse_parallel_count_arg(&a, "count", 1), Ok(4));
    assert_eq!(VoicevoxTool::parse_parallel_count_arg(&a, "zero", 1), Ok(1));
    assert_eq!(VoicevoxTool::parse_parallel_count_arg(&a, "nope", 2), Ok(2));
}

#[test]
fn id_values_parse_from_numbers_and_strings() {
    assert_eq!(VoicevoxTool::parse_id_value(&ArgValue::Unsigned(5), "k"), Ok(5));
    assert_eq!(VoicevoxTool::parse_id_value(&text("12"), "k"), Ok(12));
    assert_eq!(
        VoicevoxTool::parse_id_value(&text("x"), "k"),
        Err("Invalid 'k': invalid digit found in string".to_string())
    );
    assert_eq!(
        VoicevoxTool::parse_id_value(&ArgValue::Bool(true), "k"),
        Err("Missing or invalid 'k' parameter".to_string())
    );
    assert_eq!(parse_id_str("", "k"), Err("Invalid 'k': cannot parse integer from empty string".to_string()));
    assert_eq!(missing_param("k"), "Missing or invalid 'k' parameter");
    assert_eq!(invalid_param("k", "bad"), "Invalid 'k': bad");
}

#[test]
fn discord_tool_argument_helpers() {
    let a = args(vec![("flag", ArgValue::Bool(false)), ("name", text("general")), ("guild_id", text("0"))]);
    assert_eq!(DiscordTool::get_opt_bool_arg(&a, "flag"), Some(false));
    assert_eq!(DiscordTool::get_opt_bool_arg(&a, "name"), None);
    assert_eq!(DiscordTool::get_opt_str_arg(&a, "name"), Some("general".to_string()));
    assert_eq!(
        DiscordTool::parse_guild_id(&a),
        Err("Invalid 'guild_id': number would be zero for non-zero type".to_string())
    );
    let b = args(vec![("guild_id", text("123"))]);
    assert_eq!(DiscordTool::parse_guild_id(&b), Ok(123));
    let c = args(vec![("guild_id", text("abc"))]);
    assert_eq!(DiscordTool::parse_guild_id(&c), Err("Invalid 'guild_id': invalid digit found in string".to_string()));
}

#[test]
fn members_are_listed_under_their_channel_in_order() {
    let rows = vec![
        MemberRow {
            user_id: 1,
            display_name: "a".to_string(),
            channel_id: Some(5),
            self_mute: false,
            self_deaf: false,
            mute: false,
            deaf: false,
        },
        MemberRow {
            user_id: 2,
            display_name: "b".to_string(),
            channel_id: None,
            self_mute: false,
            self_deaf: false,
            mute: false,
            deaf: false,
        },
        MemberRow {
            user_id: 3,
            display_name: "c".to_string(),
            channel_id: Some(5),
            self_mute: false,
            self_deaf: false,
            mute: false,
            deaf: false,
        },
    ];
    assert_eq!(members_in_channel(&rows, 5), vec![0, 2]);
    assert_eq!(members_in_channel(&rows, 6), Vec::<usize>::new());
}

#[test]
fn style_table_lines() {
    let row: Vec<char> = "| 0.vvm | 四国めたん | ノーマル | 2 |".chars().collect();
    let entry = parse_voice_style_line(&row).expect("a style row");
    assert_eq!(entry.vvm_file, "0.vvm");
    assert_eq!(entry.speaker_name, "四国めたん");
    assert_eq!(entry.style_name, "ノーマル");
    assert_eq!(entry.style_id, 2);
    let header: Vec<char> = "| VVMファイル名 | 話者名 | スタイル名 | スタイルID |".chars().collect();
    assert!(parse_voice_style_line(&header).is_none());
    let rule: Vec<char> = "|---|---|---|---|".chars().collect();
    assert!(parse_voice_style_line(&rule).is_none());
    let table = "| VVMファイル名 | 話者名 | スタイル名 | スタイルID |\n|---|---|---|---|\n| 1.vvm | A | B | 7 |\nnot a row\n";
    let entries = parse_style_table(table);
    assert_eq!(entries.len(), 1);
    assert_eq!(entries[0].style_id, 7);
}

#[test]
fn styles_are_suggested_for_a_speaker() {
    let styles = suggest_styles("ノーマル", Some("四国めたん"), 5);
    assert!(!styles.is_empty());
    assert!(styles.iter().all(|e| e.speaker_name == "四国めたん" && e.style_name.contains("ノーマル")));
    assert_eq!(styles[0].style_id, 2);
    assert!(suggest_styles("", None, 0).is_empty());
}

#[test]
fn modal_submission_ids_and_release_error() {
    assert!(is_modal_submission(&format!("{}7", MODAL_SUBMIT_PREFIX)));
    assert!(!is_modal_submission("other:7"));
    assert_eq!(
        no_release_error("VOICEVOX/voicevox_vvm"),
        "no compatible VVM release found in 'VOICEVOX/voicevox_vvm': expected '0.16.*'"
    );
}

#[test]
fn speech_plan_with_a_converter_reading() {
    let pieces = plan_tts_text("こんにちは", 0);
    assert!(!needs_converter(&pieces));

    let pieces = plan_tts_text("hello", 0);
    assert!(needs_converter(&pieces));
    let outputs: Vec<String> = pieces
        .iter()
        .map(|p| match p {
            KanaPiece::Word(_) => "ハロー".to_string(),
            KanaPiece::Text(_) => String::new(),
        })
        .collect();
    assert_eq!(finish_tts_text(&join_kana(&pieces, &outputs)), "ハロー");
}

#[test]
fn integer_parse_errors_follow_std() {
    assert_eq!(parse_u64_str(""), Err(IntParseError::Empty));
    assert_eq!(parse_u64_str("+"), Err(IntParseError::InvalidDigit));
    assert_eq!(parse_u64_str("+12"), Ok(12));
    assert_eq!(parse_u64_str("1a"), Err(IntParseError::InvalidDigit));
    assert_eq!(parse_u64_str("18446744073709551616"), Err(IntParseError::PosOverflow));
    assert_eq!("+".parse::<u64>().unwrap_err().to_string(), IntParseError::InvalidDigit.message());
}
