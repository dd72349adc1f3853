use nelfie::discord_tool::{
    list_voice_members, search_matches, select_channels, ChannelKind, ChannelRow, DiscordTool, DiscordToolRequest,
    MemberRow,
};
use nelfie::get_time::{timezone_for_country, GetTime};
use nelfie::latex::LatexExprRenderTool;
use nelfie::modal_builder::{modal_custom_ids, ModalBuilderTool};
use nelfie::tool_args::{ArgValue, ToolArgs};
use nelfie::voicevox_tool::{list_voice_speakers, list_voice_styles, VoiceToolRequest, VoicevoxTool};

fn args(entries: Vec<(&str, ArgValue)>) -> ToolArgs {
    ToolArgs { entries: entries.into_iter().map(|(k, v)| (k.to_string(), v)).collect() }
}

fn text(s: &str) -> ArgValue {
    ArgValue::Text(s.to_string())
}

#[test]
fn tool_args_parse_json_objects() {
    let a = ToolArgs::from_json(r#"{"operation":"send_message","limit":5,"ok":true,"x":null,"f":1.5,"l":[1]}"#);
    assert_eq!(a.get_str("operation").as_deref(), Some("send_message"));
    assert_eq!(a.get_u64("limit"), Some(5));
    assert_eq!(a.get_bool("ok"), Some(true));
    assert!(matches!(a.get("x"), Some(ArgValue::Null)));
    assert!(matches!(a.get("f"), Some(ArgValue::OtherNumber)));
    assert!(a.get("missing").is_none());
    assert!(ToolArgs::from_json("not json").entries.is_empty());
    assert!(ToolArgs::from_json("[1,2]").entries.is_empty());
}

#[test]
fn voicevox_requires_an_operation() {
    let e = VoicevoxTool::plan(&args(vec![])).err().unwrap();
    assert_eq!(e, "Missing or invalid 'operation' parameter");
    let e = VoicevoxTool::plan(&args(vec![("operation", text("dance"))])).err().unwrap();
    assert!(e.starts_with("Unsupported 'operation': dance. Use one of: join_voice"));
}

#[test]
fn voicevox_reads_guild_and_speaker() {
    let e = VoicevoxTool::plan(&args(vec![("operation", text("set_speaker"))])).err().unwrap();
    assert_eq!(e, "Missing or invalid 'guild_id' parameter");
    let e = VoicevoxTool::plan(&args(vec![("operation", text("set_speaker")), ("guild_id", text("x1"))])).err().unwrap();
    assert_eq!(e, "Invalid 'guild_id': invalid digit found in string");
    let e = VoicevoxTool::plan(&args(vec![
        ("operation", text("set_speaker")),
        ("guild_id", text("12")),
        ("speaker", ArgValue::Unsigned(5_000_000_000)),
    ]))
    .err()
    .unwrap();
    assert_eq!(e, "'speaker' must be <= 4294967295");
    match VoicevoxTool::plan(&args(vec![
        ("operation", text("set_speaker")),
        ("guild_id", text("12")),
        ("speaker", text("8")),
    ])) {
        Ok(VoiceToolRequest::SetSpeaker { guild_id, guild_raw, speaker }) => {
            assert_eq!((guild_id, guild_raw.as_str(), speaker), (12, "12", 8));
        },
        _ => panic!("set_speaker expected"),
    }
}

#[test]
fn voicevox_auto_read_needs_a_channel() {
    let e = VoicevoxTool::plan(&args(vec![
        ("operation", text("set_auto_read")),
        ("guild_id", text("1")),
        ("enabled", ArgValue::Bool(true)),
    ]))
    .err()
    .unwrap();
    assert_eq!(e, "'text_channel_id' is required when enabled=true");
    match VoicevoxTool::plan(&args(vec![
        ("operation", text("join_voice")),
        ("guild_id", text("1")),
        ("channel_id", ArgValue::Unsigned(7)),
        ("enabled", ArgValue::Bool(true)),
    ])) {
        Ok(VoiceToolRequest::JoinVoice { channel_id, after, .. }) => {
            assert_eq!(channel_id, 7);
            assert_eq!(after.err().unwrap(), "'text_channel_id' is required when enabled=true");
        },
        _ => panic!("join_voice expected"),
    }
}

#[test]
fn voicevox_parallel_count_is_clamped() {
    match VoicevoxTool::plan(&args(vec![
        ("operation", text("set_parallel_read")),
        ("guild_id", text("1")),
        ("text_channel_id", text("5")),
        ("parallel_count", ArgValue::Unsigned(9)),
    ])) {
        Ok(VoiceToolRequest::SetParallelRead { text_channel, parallel_count, .. }) => {
            assert_eq!((text_channel, parallel_count), (5, 4));
        },
        _ => panic!("set_parallel_read expected"),
    }
    match VoicevoxTool::plan(&args(vec![
        ("operation", text("set_parallel_read")),
        ("guild_id", text("1")),
        ("text_channel_id", text("5")),
        ("enabled", ArgValue::Bool(true)),
    ])) {
        Ok(VoiceToolRequest::SetParallelRead { parallel_count, .. }) => assert_eq!(parallel_count, 2),
        _ => panic!("set_parallel_read expected"),
    }
    assert_eq!(VoicevoxTool::parse_limit_arg(&args(vec![("limit", ArgValue::Unsigned(0))]), "limit", 128, 512), 1);
    assert_eq!(VoicevoxTool::parse_limit_arg(&args(vec![]), "limit", 128, 512), 128);
    assert_eq!(VoicevoxTool::parse_limit_arg(&args(vec![("limit", ArgValue::Unsigned(9999))]), "limit", 128, 512), 512);
}

#[test]
fn voicevox_optional_settings() {
    let a = args(vec![("speaker", ArgValue::Null)]);
    assert_eq!(VoicevoxTool::get_optional_u32_setting(&a, "speaker"), Ok(Some(None)));
    assert_eq!(VoicevoxTool::get_optional_u32_setting(&a, "other"), Ok(None));
    assert_eq!(VoicevoxTool::parse_id("42", "user_id"), Ok(42));
    assert_eq!(
        VoicevoxTool::parse_id("", "user_id"),
        Err("Invalid 'user_id': cannot parse integer from empty string".to_string())
    );
}

#[test]
fn style_listing_filters_and_counts() {
    let (all, total) = list_voice_styles(None, 3);
    assert_eq!(all.len(), 3);
    assert!(total >= 3);
    let (none, zero) = list_voice_styles(Some("zzzz-no-such-speaker"), 10);
    assert!(none.is_empty());
    assert_eq!(zero, 0);
    let (rows, n) = list_voice_speakers(None, 1000);
    assert_eq!(rows.len(), n);
    for w in rows.windows(2) {
        assert!(w[0].speaker < w[1].speaker);
    }
    assert!(rows.iter().all(|r| r.style_count >= 1));
}

#[test]
fn discord_plans_read_ids() {
    let e = DiscordTool::plan(&args(vec![
        ("operation", text("add_reaction")),
        ("channel_id", text("0")),
    ]))
    .err()
    .unwrap();
    assert_eq!(e, "Invalid 'channel_id': number would be zero for non-zero type");
    match DiscordTool::plan(&args(vec![
        ("operation", text("search_messages")),
        ("channel_id", text("10")),
        ("query", text("hi")),
        ("limit", ArgValue::Unsigned(500)),
    ])) {
        Ok(DiscordToolRequest::SearchMessages { channel_id, limit, .. }) => assert_eq!((channel_id, limit), (10, 100)),
        _ => panic!("search expected"),
    }
    let e = DiscordTool::plan(&args(vec![
        ("operation", text("create_thread")),
        ("channel_id", text("10")),
        ("name", text("t")),
        ("thread_type", text("secret")),
    ]))
    .err()
    .unwrap();
    assert_eq!(e, "Unsupported 'thread_type': secret. Use 'public' or 'private'.");
    match DiscordTool::plan(&args(vec![("operation", text("list_voice_channels")), ("guild_id", text("3"))])) {
        Ok(DiscordToolRequest::ListVoiceChannels { guild_id, include_members }) => {
            assert_eq!((guild_id, include_members), (3, true))
        },
        _ => panic!("list expected"),
    }
}

#[test]
fn channel_filters_and_order() {
    assert!(DiscordTool::channel_matches_filter(ChannelKind::News, "text"));
    assert!(!DiscordTool::channel_matches_filter(ChannelKind::Voice, "text"));
    assert!(!DiscordTool::channel_matches_filter(ChannelKind::Voice, "nope"));
    assert_eq!(DiscordTool::channel_type_name(ChannelKind::Unknown(99)), "unknown");
    assert_eq!(DiscordTool::channel_type_name(ChannelKind::PublicThread), "public_thread");
    let row = |id: u64, kind: ChannelKind, position: u16| ChannelRow {
        id,
        name: format!("c{id}"),
        kind,
        position,
        parent_id: None,
    };
    let rows = vec![
        row(5, ChannelKind::Voice, 2),
        row(3, ChannelKind::Text, 1),
        row(4, ChannelKind::Stage, 1),
        row(1, ChannelKind::Voice, 2),
    ];
    let all: Vec<u64> = select_channels(&rows, Some("all")).iter().map(|c| c.id).collect();
    assert_eq!(all, vec![3, 4, 1, 5]);
    let voice: Vec<u64> = select_channels(&rows, None).iter().map(|c| c.id).collect();
    assert_eq!(voice, vec![4, 1, 5]);
}

#[test]
fn message_search_and_member_order() {
    let contents = vec!["Hello World".to_string(), "bye".to_string(), "hello again".to_string()];
    assert_eq!(search_matches(&contents, "HELLO"), vec![0, 2]);
    let m = |user_id: u64, name: &str, ch: Option<u64>| MemberRow {
        user_id,
        display_name: name.to_string(),
        channel_id: ch,
        self_mute: false,
        self_deaf: false,
        mute: false,
        deaf: false,
    };
    let members = vec![m(1, "b", Some(20)), m(2, "a", Some(100)), m(3, "c", None), m(4, "a", Some(20))];
    assert_eq!(list_voice_members(&members, None), vec![1, 3, 0]);
    assert_eq!(list_voice_members(&members, Some(20)), vec![3, 0]);
}

#[test]
fn modal_definitions_are_checked() {
    let input = |pairs: Vec<(&str, ArgValue)>| args(pairs);
    let ok = args(vec![
        ("title", text("T")),
        ("custom_id", text("m1")),
        (
            "inputs",
            ArgValue::List(vec![input(vec![
                ("label", text("Name")),
                ("custom_id", text("name")),
                ("style", text("paragraph")),
                ("max_length", ArgValue::Unsigned(100)),
            ])]),
        ),
    ]);
    let spec = ModalBuilderTool::parse_modal_spec(&ok).ok().unwrap();
    assert_eq!(spec.inputs.len(), 1);
    assert!(spec.inputs[0].paragraph);
    assert!(spec.inputs[0].required);
    assert_eq!(spec.inputs[0].max_length, Some(100));
    let bad = args(vec![
        ("title", text("T")),
        ("custom_id", text("m1")),
        ("inputs", ArgValue::List(vec![input(vec![("label", text("a")), ("custom_id", text("b"))]), input(vec![("label", text("x"))])])),
    ]);
    assert_eq!(ModalBuilderTool::parse_modal_spec(&bad).err().unwrap(), "inputs[1].custom_id is required");
    let empty = args(vec![("title", text("T")), ("custom_id", text("m1")), ("inputs", ArgValue::List(vec![]))]);
    assert_eq!(ModalBuilderTool::parse_modal_spec(&empty).err().unwrap(), "'inputs' must contain at least one field");
    let long = args(vec![
        ("title", text("T")),
        ("custom_id", text("m1")),
        ("inputs", ArgValue::List(vec![input(vec![("label", text("a")), ("custom_id", text("b")), ("min_length", ArgValue::Unsigned(70000))])])),
    ]);
    assert_eq!(ModalBuilderTool::parse_modal_spec(&long).err().unwrap(), "inputs[0].min_length must be <= 65535");
    assert_eq!(modal_custom_ids(7), ("modal_builder:open:7".to_string(), "modal_builder:submit:7".to_string()));
}

#[test]
fn latex_posts_need_channel_and_expression() {
    let e = LatexExprRenderTool::plan(&args(vec![])).err().unwrap();
    assert_eq!(e, "Missing or invalid 'channel_id'");
    let p = LatexExprRenderTool::plan(&args(vec![
        ("channel_id", text("9")),
        ("expression", text("x^2")),
        ("reply_to", text("")),
    ]))
    .ok()
    .unwrap();
    assert_eq!((p.channel_id, p.expression.as_str(), p.reply_to), (9, "x^2", None));
    let e = LatexExprRenderTool::plan(&args(vec![
        ("channel_id", text("9")),
        ("expression", text("x")),
        ("reply_to", text("abc")),
    ]))
    .err()
    .unwrap();
    assert_eq!(e, "Invalid 'reply_to' message id: invalid digit found in string");
}

#[test]
fn country_time_zones() {
    assert_eq!(timezone_for_country("JP"), Some("Asia/Tokyo"));
    assert_eq!(timezone_for_country("US"), Some("America/New_York"));
    assert_eq!(timezone_for_country("XX"), None);
    let t = GetTime::new();
    assert_eq!(t.get_time_by_country("XX"), Err("Unsupported country code: XX".to_string()));
    assert!(t.get_time_by_country("JP").unwrap().starts_with("The current time in JP (Asia/Tokyo) is: "));
    assert_eq!(t.execute(&args(vec![])), Err("Missing or invalid 'country_code' parameter".to_string()));
}

#[test]
fn country_time_is_shown_in_the_country_zone() {
    let t = GetTime::new();
    assert_eq!(
        t.time_by_country_at("JP", 0, 0),
        Ok("The current time in JP (Asia/Tokyo) is: 1970-01-01 09:00:00 JST".to_string())
    );
    assert_eq!(
        t.time_by_country_at("US", 1_700_000_000, 0),
        Ok("The current time in US (America/New_York) is: 2023-11-14 17:13:20 EST".to_string())
    );
    assert_eq!(t.time_by_country_at("XX", 0, 0), Err("Unsupported country code: XX".to_string()));
    let now = t.get_time_by_country("GB").unwrap();
    assert!(now.starts_with("The current time in GB (Europe/London) is: "));
    assert!(now.ends_with(" GMT") || now.ends_with(" BST"));
}
