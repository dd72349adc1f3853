use nelfie::commands::{
    autocomplete_model_name, autocomplete_rate_limit, autocomplete_tex_expr, autocomplete_vc_dict_source,
    bool_enabled_label, build_connected_text, build_rate_config_reply, build_status_mode_text,
    build_vc_config_voice_message, build_vc_mode_label, is_admin, rate_line_from_limit, read_mode_label,
    select_speaker_style, user_speaker_text, vc_config_update, vc_style_choice_label,
};
use nelfie::catalog::VoiceStyleEntry;
use nelfie::commands::{
    build_auto_read_announcement, build_dictionary_set_message, build_entry_count_text,
    build_join_announcement, build_vc_say_description, download_speaker_field, vc_read_text,
};

#[test]
fn labels() {
    assert_eq!(bool_enabled_label(true), "有効");
    assert_eq!(bool_enabled_label(false), "無効");
    assert_eq!(build_vc_mode_label(3, 16), "parallel(count=3)");
    assert_eq!(build_vc_mode_label(1, 16), "sequential(queue <= 16)");
    assert_eq!(read_mode_label(2), "並列 2");
    assert_eq!(read_mode_label(1), "逐次");
    assert_eq!(
        build_vc_config_voice_message(true, true, false, 1),
        "VC設定を更新しました。システム読み上げは有効。自動読み上げは無効。読み上げモードは逐次です。"
    );
    assert_eq!(build_status_mode_text(4), "parallel(count=4)");
    assert_eq!(build_status_mode_text(1), "sequential");
    assert_eq!(build_connected_text(Some(12)), "<#12>");
    assert_eq!(build_connected_text(None), "(not connected)");
    assert_eq!(user_speaker_text(None, 3), "3 (guild default)");
}

#[test]
fn autocompletes() {
    assert_eq!(autocomplete_rate_limit("1"), vec!["1", "10", "120", "1800"]);
    assert_eq!(autocomplete_rate_limit("UN"), vec!["unlimit"]);
    assert_eq!(autocomplete_rate_limit("").len(), 14);
    assert_eq!(autocomplete_model_name("gemini-3"), vec!["gemini-3.0-flash", "gemini-3.0-pro", "gemini-3.1-pro"]);
    let tex = autocomplete_tex_expr("frac");
    assert!(tex.iter().all(|c| c.contains("frac")));
    assert!(tex.windows(2).all(|w| w[0] < w[1]));
    assert!(autocomplete_tex_expr("").len() == 20);
    let sources = vec!["Apple".to_string(), "banana".to_string(), "apple pie".to_string(), "Apple".to_string()];
    assert_eq!(autocomplete_vc_dict_source(&sources, " APP "), vec!["Apple", "apple pie"]);
}

#[test]
fn rate_config_values() {
    assert_eq!(rate_line_from_limit("UNLIMIT", 500, 600), Some(0));
    assert_eq!(rate_line_from_limit("reset", 500, 600), Some(1));
    assert_eq!(rate_line_from_limit("2", 500, 600), Some(1700));
    assert_eq!(rate_line_from_limit("two", 500, 600), None);
    assert!(is_admin(&vec![1, 2], 2));
    assert!(!is_admin(&vec![1, 2], 3));
    assert_eq!(build_rate_config_reply("Al", 0), "info: ユーザー `Al` のレート制限を **unlimit** に設定しました。");
    assert_eq!(build_rate_config_reply("Al", 9), "info: ユーザー `Al` の rate_line を **9** に設定しました。");
}

#[test]
fn speaker_selection_errors() {
    let e = select_speaker_style("誰もいない話者", "ノーマル").unwrap_err();
    assert!(e.starts_with("話者 '誰もいない話者' は見つかりません。候補（先頭20件）: "));
}

#[test]
fn vc_config_checks_parallel_count() {
    let u = vc_config_update(None, Some(true), Some(9), false, false);
    assert!(u.changed);
    assert_eq!(u.set_auto_read, Some(true));
    assert_eq!(u.parallel_count.unwrap_err(), "parallel_count は 1〜4 の範囲で指定してください。");
    let v = vc_config_update(None, None, None, true, false);
    assert!(!v.changed);
    assert!(v.next_system_read);
    assert_eq!(v.parallel_count.unwrap(), None);
}

#[test]
fn style_choice_label_names_speaker_style_id_and_file() {
    let entry = VoiceStyleEntry {
        vvm_file: "0.vvm".to_string(),
        speaker_name: "四国めたん".to_string(),
        style_name: "ノーマル".to_string(),
        style_id: 2,
    };
    assert_eq!(vc_style_choice_label(&entry), "四国めたん / ノーマル (id=2, 0.vvm)");
}

#[test]
fn vc_texts_after_the_dictionary() {
    let entries = vec![("ww".to_string(), "わらわら".to_string())];
    let aliases = vec!["ww".to_string()];
    assert!(vc_read_text("   ", &entries, &aliases).is_none());
    let (text, preview) = vc_read_text("hello", &Vec::new(), &Vec::new()).expect("text");
    assert_eq!(text, "hello");
    assert_eq!(preview, "hello");
}

#[test]
fn vc_reply_and_announcement_texts() {
    assert_eq!(build_vc_say_description(1), "読み上げキューに追加しました。");
    assert_eq!(build_vc_say_description(3), "読み上げジョブを追加しました（並列再生）。");
    assert_eq!(build_join_announcement(true), "ボイスチャンネルに接続しました。自動読み上げは有効です。");
    assert_eq!(build_auto_read_announcement(false), "このチャンネルの自動読み上げを無効に設定しました。");
    assert_eq!(build_dictionary_set_message(true), "読み上げ辞書を更新しました。");
    assert_eq!(build_dictionary_set_message(false), "読み上げ辞書を登録しました。");
    assert_eq!(build_entry_count_text(3, 100), "3/100");
    assert_eq!(download_speaker_field(4_000_000_000), "(unknown) / (unknown) (4000000000)");
    assert!(download_speaker_field(3).ends_with(" (3)"));
    assert!(!download_speaker_field(3).starts_with("(unknown)"));
}
