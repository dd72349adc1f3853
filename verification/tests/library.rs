use nelfie::config::{backend_for, Backend, GeminiConfig};
use nelfie::chat::{gemini_fallback_error, gemini_generate_url_text, gemini_tool_result_text};
use nelfie::catalog::{entries, find_style_id, speaker_name_for_id, speaker_names, style_name_for_id, styles_for_speaker, suggest_speakers};
use nelfie::chat::{
    chat_completions_url_text, infer_image_mime, inline_image_data, lm_context_to_chat_messages,
    lm_context_to_content_plans, push_chat_message, ChatMessage, PartPlan,
};
use nelfie::config::{Config, ConfigEnv, ConfigError, Models};
use nelfie::core_runtime::{
    build_speaker_not_found_error, build_style_index, collect_style_ids, collect_version_key,
    onnxruntime_artifact_name, onnxruntime_asset_name, onnxruntime_release_tag, parse_acceleration_mode, parse_release_semver, push_unique_candidate,
    select_model_version, filter_models_by_version, load_outcome_error, select_vvm_release, AccelerationMode, ReleaseInfo,
};
use nelfie::lm_context::{should_ignore_stream_deserialize_error, ContextItem, LMContext, Role};
use nelfie::user_store::{load_entry, saved_entry, should_persist, UserRecord, UserStore};
use nelfie::tool_args::{ArgValue, ToolArgs};
use nelfie::voice_state::{core_summary, normalize_parallel_count, VoiceCoreConfig, VoiceSettings};

fn env() -> ConfigEnv {
    ConfigEnv {
        discord_token: Some("tok".to_string()),
        openai_api_key: Some("key".to_string()),
        system_prompt: None,
        voicevox_default_speaker: None,
        voicevox_core_acceleration: None,
        voicevox_core_cpu_threads: None,
        voicevox_core_load_all_models: None,
        voicevox_output_sampling_rate: Some("12345".to_string()),
        voicevox_preload_on_startup: None,
        voicevox_open_jtalk_dict_dir: None,
        voicevox_vvm_dir: None,
        voicevox_onnxruntime_filename: None,
        gemini_api_key: None,
        gemini_base_url: None,
        gemini_default_model: None,
        gemini_auto_models: None,
        gemini_enable_google_search: None,
        gemini_max_tool_loops: Some("99".to_string()),
    }
}

#[test]
fn config_defaults_and_errors() {
    let c = Config::from_env_values(&env()).ok().unwrap();
    assert_eq!(c.voicevox_default_speaker, 3);
    assert_eq!(c.voicevox_output_sampling_rate, 48000);
    assert_eq!(c.gemini.max_tool_loops, 20);
    assert_eq!(c.rate_limit_sec_per_cost, 600);
    let mut e = env();
    e.discord_token = None;
    assert_eq!(Config::from_env_values(&e).err().unwrap(), ConfigError::MissingDiscordToken);
    assert_eq!(ConfigError::MissingOpenaiApiKey.message(), "OPENAI_API_KEY must be set");
}

#[test]
fn models_round_trip_by_name() {
    for m in Models::list() {
        assert_eq!(Models::from_name(&m.name()), m);
    }
    assert_eq!(Models::from_name("gemini-2.5-pro"), Models::Gemini30Pro);
    assert_eq!(Models::from_name("unknown"), Models::Gpt5dot4Mini);
    assert!(Models::Gemini31Pro.is_gemini());
    assert!(!Models::O3.is_gemini());
}

#[test]
fn catalog_lookups() {
    assert_eq!(find_style_id("ずんだもん", "ノーマル"), Some(3));
    assert_eq!(find_style_id("ずんだもん", "存在しない"), None);
    assert_eq!(speaker_name_for_id(3).as_deref(), Some("ずんだもん"));
    assert_eq!(style_name_for_id(0).as_deref(), Some("あまあま"));
    assert!(styles_for_speaker("四国めたん").contains(&"ツンツン".to_string()));
    assert_eq!(speaker_names()[0], "四国めたん");
    assert!(suggest_speakers("ずん", 5).contains(&"ずんだもん".to_string()));
}

#[test]
fn voice_settings_per_guild_and_channel() {
    let mut v = VoiceSettings::new(3);
    assert_eq!(v.config(1).speaker, 3);
    v.set_speaker(1, 8);
    assert_eq!(v.config(1).speaker, 8);
    assert_eq!(v.config(2).speaker, 3);
    v.set_auto_read(1, true, Some(77));
    assert_eq!(v.config(1).text_channel_id, Some(77));
    v.set_auto_read(1, false, None);
    assert_eq!(v.config(1).text_channel_id, Some(77));
    assert!(!v.config(1).auto_read);
    assert_eq!(v.set_channel_parallel_count(5, 0), 1);
    assert_eq!(v.set_channel_parallel_count(5, 10), 4);
    assert_eq!(v.channel_parallel_count(5), 4);
    assert_eq!(v.channel_parallel_count(6), 1);
    assert_eq!(normalize_parallel_count(3), 3);
    v.set_last_error(1, "boom".to_string());
    assert_eq!(v.last_error(1).as_deref(), Some("boom"));
    v.clear_last_error(1);
    assert_eq!(v.last_error(1), None);
}

#[test]
fn core_summary_text() {
    let c = VoiceCoreConfig {
        acceleration_mode: " Auto ".to_string(),
        cpu_threads: 4,
        load_all_models: false,
        output_sampling_rate: 48000,
        open_jtalk_dict_dir: String::new(),
        vvm_dir: String::new(),
        onnxruntime_filename: String::new(),
    };
    assert_eq!(
        core_summary(&c),
        "standalone(acceleration=cpu(auto-mapped), cpu_threads=4, load_all_models=forced(true), output_sampling_rate=48000, output_stereo=fixed(false))"
    );
}

#[test]
fn context_buffer_and_results() {
    let mut ctx = LMContext::new();
    ctx.set_max_len(2);
    ctx.add_text("one".to_string(), Role::User);
    ctx.add_text("two".to_string(), Role::Assistant);
    ctx.add_input_item(ContextItem::FunctionCallOutput { call_id: "c1".to_string(), output: "x".to_string() });
    assert_eq!(ctx.get_result(), "two");
    ctx.trim_len();
    assert_eq!(ctx.buf.len(), 2);
    assert_eq!(ctx.get_result(), "two");
    let mut other = LMContext::new();
    other.add_text("three".to_string(), Role::User);
    ctx.extend(&other);
    assert_eq!(ctx.buf.len(), 2);
    assert_eq!(ctx.get_result(), "three");
    let mut empty = LMContext::new();
    assert_eq!(empty.get_result(), "");
    empty.clear();
    assert!(empty.get_uncompleted_tool_calls().is_empty());
    assert_eq!(empty.get_latest_discord_send_content(), None);
}

#[test]
fn chat_messages_merge_roles() {
    let mut ctx = LMContext::new();
    ctx.add_text("sys".to_string(), Role::System);
    ctx.add_text("dev".to_string(), Role::Developer);
    ctx.add_text("".to_string(), Role::User);
    ctx.add_text("hi".to_string(), Role::User);
    ctx.add_user_text_with_images("look".to_string(), vec!["https://x/y.png".to_string()]);
    ctx.add_text("ok".to_string(), Role::Assistant);
    let msgs = lm_context_to_chat_messages(&ctx);
    let pairs: Vec<(String, String)> = msgs.into_iter().map(|m| (m.role, m.content)).collect();
    assert_eq!(
        pairs,
        vec![
            ("system".to_string(), "sys\ndev".to_string()),
            ("user".to_string(), "hi\nlook".to_string()),
            ("assistant".to_string(), "ok".to_string()),
        ]
    );
    let mut v: Vec<ChatMessage> = Vec::new();
    push_chat_message(&mut v, "user", "a".to_string());
    push_chat_message(&mut v, "user", "b".to_string());
    assert_eq!(v.len(), 1);
    assert_eq!(v[0].content, "a\nb");
    let plans = lm_context_to_content_plans(&ctx);
    assert_eq!(plans.len(), 5);
    assert_eq!(plans[4].role, "model");
    assert!(matches!(&plans[3].parts[1], PartPlan::ImageUrl(u) if u == "https://x/y.png"));
}

#[test]
fn gemini_helpers() {
    assert_eq!(chat_completions_url_text("https://api.example.com/v1//"), "https://api.example.com/v1/chat/completions");
    assert_eq!(infer_image_mime("https://x/IMG.PNG"), "image/png");
    assert_eq!(infer_image_mime("https://x/a.webp"), "image/webp");
    assert_eq!(infer_image_mime("https://x/a"), "image/jpeg");
    let (mime, data) = inline_image_data(Some("image/gif; charset=x"), "u", &b"Man".to_vec());
    assert_eq!(mime, "image/gif");
    assert_eq!(data, "TWFu");
    let (mime2, data2) = inline_image_data(None, "a.png", &b"Ma".to_vec());
    assert_eq!(mime2, "image/png");
    assert_eq!(data2, "TWE=");
}

#[test]
fn runtime_decisions() {
    assert_eq!(onnxruntime_artifact_name("linux", "x86_64"), Ok("onnxruntime-linux-x64"));
    assert_eq!(
        onnxruntime_artifact_name("plan9", "mips"),
        Err("unsupported platform for ONNX Runtime auto-download: os='plan9', arch='mips'".to_string())
    );
    assert_eq!(parse_release_semver(" v0.16.2-beta "), Some((0, 16, 2)));
    assert_eq!(parse_release_semver("1.2"), None);
    assert_eq!(parse_release_semver("1.2.3.4"), None);
    let rel = |tag: &str, draft: bool| ReleaseInfo { tag_name: tag.to_string(), draft, prerelease: false };
    let releases = vec![rel("0.16.1", false), rel("0.17.0", false), rel("0.16.3", true), rel("0.16.2", false)];
    assert_eq!(select_vvm_release(&releases), Some(3));
    assert_eq!(select_vvm_release(&vec![rel("1.0.0", false)]), None);
    assert_eq!(parse_acceleration_mode(" AUTO "), AccelerationMode::Cpu);
    assert_eq!(parse_acceleration_mode("gpu"), AccelerationMode::Gpu);
    assert_eq!(parse_acceleration_mode("tpu"), AccelerationMode::Auto);
    let mut c = vec!["a".to_string()];
    push_unique_candidate(&mut c, "a".to_string());
    push_unique_candidate(&mut c, "b".to_string());
    assert_eq!(c, vec!["a", "b"]);
    assert_eq!(collect_style_ids(&vec![5, 1, 5, 3]), vec![1, 3, 5]);
    assert_eq!(collect_version_key(&vec!["0.2".to_string(), "0.1".to_string(), "0.2".to_string()]), "0.1|0.2");
    assert_eq!(select_model_version(&vec!["a".to_string(), "b".to_string(), "b".to_string()]).as_deref(), Some("b"));
    assert_eq!(select_model_version(&vec![]), None);
    let index = build_style_index(&vec![vec![1, 2], vec![2, 3]]);
    assert_eq!(index.get(&1), Some(&0));
    assert_eq!(index.get(&2), Some(&1));
    assert_eq!(
        build_speaker_not_found_error(&vec![1, 2], 9),
        "speaker(style id) 9 is not available. available styles: 1, 2"
    );
    assert_eq!(
        build_speaker_not_found_error(&vec![], 9),
        "speaker(style id) 9 is not available: no styles were indexed from VVM files"
    );
    let many: Vec<u32> = (0..25).collect();
    assert!(build_speaker_not_found_error(&many, 99).starts_with("speaker(style id) 99 is not available. available styles (first 20 of 25): 0, 1"));
}

#[test]
fn user_settings() {
    let mut s = UserStore::new();
    let r = s.get_or_create(7);
    assert_eq!(r, UserRecord { main_model: Models::Gpt5dot4Mini, rate_line: 1, voice_speaker: None });
    assert!(s.set_rate_line(7, 0));
    assert!(!s.set_rate_line(8, 5));
    assert!(s.set_rate_line(7, 3));
    s.set_voice_speaker(7, Some(2));
    s.set_model(7, Models::O3);
    let r = s.get_or_create(7);
    assert_eq!((r.rate_line, r.voice_speaker, r.main_model), (3, Some(2), Models::O3));
    assert_eq!(s.entries().len(), 2);
    assert!(!should_persist(UserRecord::new(), false));
    assert!(should_persist(UserRecord::new(), true));
    let entry = ToolArgs {
        entries: vec![
            ("user_id".to_string(), ArgValue::Text("12".to_string())),
            ("main_model".to_string(), ArgValue::Text("o3".to_string())),
            ("voice_speaker".to_string(), ArgValue::Unsigned(5_000_000_000)),
        ],
    };
    assert_eq!(load_entry(&entry), Some((12, UserRecord { main_model: Models::O3, rate_line: 1, voice_speaker: None })));
    assert_eq!(load_entry(&ToolArgs { entries: vec![] }), None);
}

#[test]
fn onnxruntime_release_tag_and_asset_name() {
    assert_eq!(onnxruntime_release_tag(" 1.17.3\n"), "voicevox_onnxruntime-1.17.3");
    assert_eq!(
        onnxruntime_asset_name("linux", "x86_64", "1.17.3").unwrap(),
        "voicevox_onnxruntime-linux-x64-1.17.3.tgz"
    );
    assert_eq!(
        onnxruntime_asset_name("plan9", "mips", "1.17.3").unwrap_err(),
        "unsupported platform for ONNX Runtime auto-download: os='plan9', arch='mips'"
    );
}

#[test]
fn only_the_web_search_announcement_error_is_ignored() {
    let body = r#"{"type":"response.output_item.added","item":{"type":"web_search_call"}}"#;
    assert!(should_ignore_stream_deserialize_error("missing field `action` at line 1", body));
    assert!(!should_ignore_stream_deserialize_error("missing field `id`", body));
    assert!(!should_ignore_stream_deserialize_error(
        "missing field `action`",
        r#"{"type":"response.output_item.added","item":{"type":"message"}}"#
    ));
}

#[test]
fn saved_user_entry_loads_back() {
    let unlimited = UserRecord { main_model: Models::from_name("o4-mini"), rate_line: 0, voice_speaker: Some(7) };
    let entry = saved_entry(123456789012345678, unlimited);
    assert_eq!(entry.get_str("user_id"), Some("123456789012345678".to_string()));
    assert_eq!(entry.get_str("main_model"), Some("o4-mini".to_string()));
    assert_eq!(load_entry(&entry), Some((123456789012345678, unlimited)));

    let limited = UserRecord { main_model: Models::default_model(), rate_line: 1700000000, voice_speaker: None };
    let entry = saved_entry(5, limited);
    assert!(!entry.has("rate_line"));
    assert!(!entry.has("voice_speaker"));
    assert_eq!(load_entry(&entry), Some((5, UserRecord { rate_line: 1, ..limited })));
}

#[test]
fn models_are_routed_to_their_backend() {
    let gemini = GeminiConfig {
        api_key: None,
        base_url: "https://g/v1beta/".to_string(),
        default_model: "gemini-3.0-flash".to_string(),
        auto_models: Vec::new(),
        enable_google_search: false,
        max_tool_loops: 4,
    };
    match backend_for(Models::Gemini31Pro, &gemini) {
        Backend::Gemini { model } => assert_eq!(model, "gemini-3.1-pro"),
        _ => panic!("a single Gemini model"),
    }
    match backend_for(Models::GeminiAuto, &gemini) {
        Backend::GeminiFallback { models } => assert_eq!(models, vec!["gemini-3.0-flash".to_string()]),
        _ => panic!("the automatic Gemini choice"),
    }
    let listed = GeminiConfig { auto_models: vec!["a".to_string(), "b".to_string()], ..gemini };
    match backend_for(Models::GeminiAuto, &listed) {
        Backend::GeminiFallback { models } => assert_eq!(models, vec!["a".to_string(), "b".to_string()]),
        _ => panic!("the automatic Gemini choice"),
    }
    match backend_for(Models::O3, &listed) {
        Backend::OpenAi { model } => assert_eq!(model, "o3"),
        _ => panic!("an OpenAI model"),
    }
}

#[test]
fn gemini_request_texts() {
    assert_eq!(
        gemini_generate_url_text("https://g/v1beta//", "gemini-3.0-pro"),
        "https://g/v1beta/models/gemini-3.0-pro:generateContent"
    );
    assert_eq!(gemini_tool_result_text("get-location-time", Some("12:00")), "Tool 'get-location-time' result: 12:00");
    assert_eq!(
        gemini_tool_result_text("x", None),
        "Tool 'x' result: Error: tool 'x' is not defined"
    );
    assert_eq!(
        gemini_fallback_error(&vec![("a".to_string(), "e1".to_string()), ("b".to_string(), "e2".to_string())]),
        "all gemini-auto models failed: a: e1 | b: e2"
    );
    assert_eq!(gemini_fallback_error(&Vec::new()), "all gemini-auto models failed: ");
}

#[test]
fn version_filter_keeps_the_most_common_version() {
    let keys = vec!["0.16|a".to_string(), "0.15|b".to_string(), "0.16|a".to_string()];
    let (v, kept) = filter_models_by_version("/models", &keys, 2).unwrap();
    assert_eq!(v, "0.16|a");
    assert_eq!(kept, vec![0, 2]);
    assert_eq!(
        filter_models_by_version("/models", &vec![], 2).unwrap_err(),
        "no usable style IDs were found in VVM files under '/models' (metadata_open_failed=2)"
    );
}

#[test]
fn load_outcome_reports_when_nothing_loaded() {
    assert_eq!(load_outcome_error("/m", 1, 3, 5), None);
    assert_eq!(
        load_outcome_error("/m", 1, 3, 0).unwrap(),
        "failed to load any usable VVM under '/m' (metadata_open_failed=1, load_failed=3)"
    );
}

#[test]
fn catalog_style_ids_cover_the_table_once_each() {
    let all = entries();
    assert_eq!(all.len(), 118);
    let mut ids: Vec<u32> = all.iter().map(|e| e.style_id).collect();
    ids.sort();
    assert_eq!(ids, (0u32..=117).collect::<Vec<_>>());
    for e in &all {
        assert!(e.vvm_file.ends_with(".vvm"));
        assert!(!e.speaker_name.is_empty() && !e.style_name.is_empty());
        assert_eq!(find_style_id(&e.speaker_name, &e.style_name), Some(e.style_id));
        assert_eq!(speaker_name_for_id(e.style_id).as_deref(), Some(e.speaker_name.as_str()));
    }
    assert_eq!(speaker_name_for_id(118), None);
}
