use nelfie::events::{
    build_presence_phrase, build_reply_system_prompt, check_rate_limit, final_reply, is_bot_voice_channel_empty,
    is_image_attachment, is_message_read, is_same_text_loosely, message_tts_text, normalize_text, rate_limit_message,
    voice_presence_action, ActiveResponses, PresenceAction, RateDecision,
};
use nelfie::config::Models;

#[test]
fn whitespace_is_collapsed() {
    assert_eq!(normalize_text("  a \n b\t\tc  "), "a b c");
    assert_eq!(normalize_text(""), "");
    assert!(is_same_text_loosely("hello  world", " hello\nworld "));
    assert!(!is_same_text_loosely("hello", "hello!"));
}

#[test]
fn rate_limit_allows_and_refuses() {
    assert_eq!(check_rate_limit(0, 1000, 5, 600, 16200), RateDecision::Allow { new_line: 0 });
    assert_eq!(check_rate_limit(1, 1000, 2, 600, 16200), RateDecision::Allow { new_line: 2200 });
    assert_eq!(check_rate_limit(5000, 1000, 1, 600, 16200), RateDecision::Allow { new_line: 5600 });
    assert_eq!(check_rate_limit(17000, 1000, 1, 600, 16200), RateDecision::Deny { allow_ts: 1400 });
    assert_eq!(rate_limit_message(1400), "Err: rate limit - try again after <t:1400:R>");
}

#[test]
fn reply_texts() {
    assert_eq!(final_reply("hi", 12, Models::O3), "hi\n-# Reasoning done in 12ms, model: o3");
    assert_eq!(
        build_reply_system_prompt("P", Some(5), 7, None),
        "P\n current guild_id: 5, current channel_id: 7, channel_name: None"
    );
}

#[test]
fn attachments_and_messages() {
    assert!(is_image_attachment(Some("image/png"), "x.txt"));
    assert!(!is_image_attachment(Some("text/plain"), "x.png"));
    assert!(is_image_attachment(None, "photo.JPG") == false);
    assert!(is_image_attachment(None, "photo.webp"));
    assert!(!is_message_read("!help", false));
    assert!(!is_message_read("/cmd", false));
    assert!(!is_message_read("hi", true));
    assert!(is_message_read("hi", false));
    assert_eq!(message_tts_text(String::new(), true).as_deref(), Some("ファイルが送信されました"));
    assert_eq!(message_tts_text(String::new(), false), None);
    assert_eq!(message_tts_text("a".to_string(), false).as_deref(), Some("a"));
}

#[test]
fn voice_presence_decisions() {
    let bot = Some(10);
    assert_eq!(voice_presence_action(false, false, bot, None, Some(10), false), PresenceAction::Announce(true));
    assert_eq!(voice_presence_action(false, false, bot, Some(10), None, false), PresenceAction::Announce(false));
    assert_eq!(voice_presence_action(false, false, bot, Some(10), None, true), PresenceAction::AutoLeave);
    assert_eq!(voice_presence_action(false, false, bot, Some(1), Some(2), true), PresenceAction::Ignore);
    assert_eq!(voice_presence_action(true, false, bot, None, Some(10), false), PresenceAction::Ignore);
    assert_eq!(voice_presence_action(false, false, None, None, Some(10), false), PresenceAction::Ignore);
    let states = vec![(1u64, Some(10u64)), (2, Some(11))];
    assert!(is_bot_voice_channel_empty(Some(&states), 1, 10));
    assert!(!is_bot_voice_channel_empty(Some(&states), 1, 11));
    assert!(!is_bot_voice_channel_empty(None, 1, 10));
    assert_eq!(build_presence_phrase(None, None, 42, true), "ユーザー42 がボイスチャンネルに参加しました。");
    assert_eq!(build_presence_phrase(Some("A"), Some("B"), 1, false), "A がボイスチャンネルから退出しました。");
}

#[test]
fn replies_replace_each_other() {
    let mut a = ActiveResponses::new();
    let (first, replaced) = a.begin(5);
    assert_eq!((first, replaced), (0, None));
    let (second, replaced) = a.begin(5);
    assert_eq!((second, replaced), (1, Some(0)));
    assert!(!a.is_current(5, first));
    assert!(!a.finish(5, first));
    assert!(a.is_current(5, second));
    assert!(a.finish(5, second));
    assert!(!a.is_current(5, second));
}
