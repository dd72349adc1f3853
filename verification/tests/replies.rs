use nelfie::discord_reply::{
    edit_reply, fetch_reply, list_channels_reply, list_voice_channels_reply, list_voice_members_reply,
    member_display_name, reaction_reply, search_reply, send_reply, thread_reply, FetchedMessage,
};
use nelfie::discord_tool::{ChannelKind, ChannelRow, MemberRow};
use nelfie::schema::Json;
use nelfie::voice_reply::{
    dictionary_reply, join_reply, leave_reply, list_speakers_reply, list_styles_reply, parallel_reply,
    set_speaker_reply, speak_reply, status_reply, VoiceStatus,
};

fn s(text: &str) -> Json {
    Json::Str(text.to_string())
}

fn n(v: u64) -> Json {
    Json::Number(v.to_string())
}

fn member<'a>(value: &'a Json, key: &str) -> &'a Json {
    match value {
        Json::Object(members) => members.iter().find(|(k, _)| k == key).map(|(_, v)| v).expect("member"),
        _ => panic!("object expected"),
    }
}

fn items(value: &Json) -> &Vec<Json> {
    match value {
        Json::Array(items) => items,
        _ => panic!("array expected"),
    }
}

fn message(id: u64, content: &str) -> FetchedMessage {
    FetchedMessage {
        id,
        author_id: 7,
        author_name: "alice".to_string(),
        content: content.to_string(),
        timestamp: "2024-01-01T00:00:00Z".to_string(),
    }
}

fn voice_member(user_id: u64, name: &str, channel: Option<u64>) -> MemberRow {
    MemberRow {
        user_id,
        display_name: name.to_string(),
        channel_id: channel,
        self_mute: true,
        self_deaf: false,
        mute: false,
        deaf: false,
    }
}

#[test]
fn reaction_and_thread_lines() {
    assert_eq!(
        reaction_reply(true, "👍", "10", "20"),
        "Added reaction '👍' on channel_id='10', message_id='20'"
    );
    assert_eq!(
        reaction_reply(false, "x", "10", "20"),
        "Removed reaction 'x' on channel_id='10', message_id='20'"
    );
    assert_eq!(
        thread_reply("public", "talk", "10", None),
        "Created public thread 'talk' in channel_id='10' (from message_id='-')"
    );
    assert_eq!(
        thread_reply("private", "talk", "10", Some("20")),
        "Created private thread 'talk' in channel_id='10' (from message_id='20')"
    );
}

#[test]
fn message_answers() {
    let sent = send_reply("10", 99, "héllo");
    assert_eq!(member(&sent, "message_id"), &s("99"));
    assert_eq!(member(&sent, "content_length"), &n(5));
    assert_eq!(member(&sent, "note"), &s("already_posted_to_discord_do_not_repeat_body"));
    let edited = edit_reply("10", "20", "abc");
    assert_eq!(member(&edited, "operation"), &s("edit_message"));
    assert_eq!(member(&edited, "note"), &s("message_edited_in_discord"));
    let fetched = fetch_reply("10", "20", &message(20, "hi"));
    assert_eq!(member(&fetched, "author_id"), &s("7"));
    assert_eq!(member(&fetched, "content"), &s("hi"));
}

#[test]
fn search_answer_keeps_matching_messages() {
    let msgs = vec![message(1, "Hello there"), message(2, "bye"), message(3, "HELLO again")];
    let found = search_reply("10", "hello", &msgs);
    assert_eq!(member(&found, "matched_count"), &n(2));
    let list = items(member(&found, "messages"));
    assert_eq!(member(&list[0], "message_id"), &s("1"));
    assert_eq!(member(&list[1], "message_id"), &s("3"));
}

#[test]
fn channel_listings() {
    let rows = vec![
        ChannelRow { id: 3, name: "vc".to_string(), kind: ChannelKind::Voice, position: 1, parent_id: None },
        ChannelRow { id: 2, name: "general".to_string(), kind: ChannelKind::Text, position: 0, parent_id: Some(9) },
    ];
    let members = vec![voice_member(5, "bob", Some(3)), voice_member(6, "carol", None)];
    let all = list_channels_reply(1, "all", true, &rows, Some(&members));
    assert_eq!(member(&all, "channel_count"), &n(2));
    let chans = items(member(&all, "channels"));
    assert_eq!(member(&chans[0], "name"), &s("general"));
    assert_eq!(member(&chans[0], "parent_id"), &s("9"));
    assert_eq!(member(&chans[1], "member_count"), &n(1));
    let voice = list_voice_channels_reply(1, true, &rows, &members);
    assert_eq!(member(&voice, "voice_channel_count"), &n(1));
    let vchans = items(member(&voice, "channels"));
    let vm = items(member(&vchans[0], "members"));
    assert_eq!(member(&vm[0], "self_mute"), &Json::Bool(true));
    let no_cache = list_channels_reply(1, "voice", true, &rows, None);
    assert_eq!(member(&items(member(&no_cache, "channels"))[0], "member_count"), &n(0));
}

#[test]
fn voice_member_listing_is_sorted() {
    let members = vec![voice_member(1, "b", Some(20)), voice_member(2, "a", Some(100)), voice_member(4, "a", Some(20))];
    let listed = list_voice_members_reply(1, None, &members);
    assert_eq!(member(&listed, "channel_id"), &Json::Null);
    let ms = items(member(&listed, "members"));
    assert_eq!(member(&ms[0], "user_id"), &s("2"));
    assert_eq!(member(&ms[1], "user_id"), &s("4"));
    assert_eq!(member(&ms[2], "channel_id"), &s("20"));
    assert_eq!(member_display_name(None), "(unknown)");
}

#[test]
fn voice_tool_answers() {
    let styles = list_styles_reply(Some("めたん"), 2);
    assert_eq!(member(&styles, "returned"), &n(2));
    assert_eq!(member(&styles, "speaker_filter"), &s("めたん"));
    let speakers = list_speakers_reply(None, 1);
    assert_eq!(items(member(&speakers, "speakers")).len(), 1);
    let joined = join_reply("1", 2, true, Some(3));
    assert_eq!(member(&joined, "voice_channel_id"), &s("2"));
    assert_eq!(member(&joined, "text_channel_id"), &s("3"));
    assert_eq!(member(&leave_reply("1"), "operation"), &s("leave_voice"));
    assert_eq!(member(&set_speaker_reply("1", 8), "speaker"), &n(8));
    let par = parallel_reply("1", 3, 2, 16);
    assert_eq!(member(&par, "parallel_count_range"), &s("1..=4"));
    let spoke = speak_reply("1", "abc", "abcd", 3, 1, None);
    assert_eq!(member(&spoke, "queued_text_length"), &n(4));
    assert_eq!(member(&spoke, "speaker"), &Json::Null);
    let dict = dictionary_reply("1", 3, " ww ", " わらわら ", false, 1, 100);
    assert_eq!(member(&dict, "dictionary_source"), &s("ww"));
    let st = status_reply(
        "1",
        &VoiceStatus {
            connected_voice_channel: Some(2),
            text_channel: None,
            effective_text_channel: Some(3),
            auto_read_for_text_channel: Some(true),
            dictionary_entries_for_text_channel: Some(0),
            parallel_count_for_text_channel: Some(1),
            dictionary_entries_limit: 100,
            default_speaker: 3,
            sequential_queue_limit: 16,
            core_runtime: "ready".to_string(),
            last_error: None,
        },
    );
    assert_eq!(member(&st, "voice_mode"), &s("voicevox_core_standalone"));
    assert_eq!(member(&st, "connected_voice_channel_id"), &s("2"));
}
