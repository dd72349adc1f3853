//! What the gateway event handlers decide: the rate limit of a reply, which
//! reply of a channel is current, when the bot leaves or announces a voice
//! channel change, and the texts they send.
use vstd::prelude::*;
use dashmap::DashMap;
use crate::maps::{get_reply_id, insert_reply_id, new_reply_ids, remove_reply_id, reply_id_entries};
use crate::text::{
    push_str, push_char, str_to_chars, u64_string, decimal, is_ws, is_whitespace, starts_with_seq,
    ends_with_seq, starts_with_chars, ends_with_chars,
};
use crate::config::{Models, model_name};

verus! {

broadcast use vstd::std_specs::hash::group_hash_axioms;

/// The text with its whitespace runs made single spaces and its ends
/// trimmed (`split_whitespace` joined by " ").
pub open spec fn loose_text(s: Seq<char>) -> Seq<char>
    decreases s.len(),
{
    if s.len() == 0 {
        s
    } else {
        let rest = loose_text(s.drop_last());
        let c = s.last();
        if is_ws(c) {
            rest
        } else if s.len() >= 2 && is_ws(s[s.len() - 2]) && rest.len() > 0 {
            rest.push(' ').push(c)
        } else {
            rest.push(c)
        }
    }
}

/// `s.split_whitespace().collect::<Vec<_>>().join(" ")`.
pub fn normalize_text(s: &str) -> (r: String)
    ensures
        r@ == loose_text(s@),
{
    let v = str_to_chars(s);
    let mut out = String::new();
    let mut i: usize = 0;
    while i < v.len()
        invariant
            i <= v@.len(),
            v@ == s@,
            out@ == loose_text(v@.subrange(0, i as int)),
        decreases v@.len() - i,
    {
        let ghost pre = v@.subrange(0, i as int);
        let ghost cur = v@.subrange(0, i + 1);
        assert(cur.drop_last() =~= pre);
        let c = v[i];
        if !is_whitespace(c) {
            if i > 0 && is_whitespace(v[i - 1]) && out.unicode_len() > 0 {
                assert(cur[cur.len() - 2] == v@[i - 1]);
                push_char(&mut out, ' ');
            }
            push_char(&mut out, c);
        }
        i = i + 1;
    }
    assert(v@.subrange(0, v@.len() as int) =~= v@);
    out
}

/// Whether two texts differ in whitespace only.
pub fn is_same_text_loosely(a: &str, b: &str) -> (r: bool)
    ensures
        r == (loose_text(a@) == loose_text(b@)),
{
    let na = normalize_text(a);
    let nb = normalize_text(b);
    na == nb
}

/// A user's rate line after a request of the given cost: an unlimited user
/// (line 0) stays at 0; otherwise the cost in seconds is added to the later
/// of the line and the current time.
pub open spec fn next_rate_line(user_line: nat, now: nat, cost: nat, sec_per_cost: nat) -> nat {
    if user_line == 0 {
        0
    } else if user_line < now {
        now + cost * sec_per_cost
    } else {
        user_line + cost * sec_per_cost
    }
}

/// Whether a reply is allowed, with the user's new line, or refused until a time.
#[derive(Debug, Clone, Copy, PartialEq, Eq, Structural)]
pub enum RateDecision {
    Allow { new_line: u64 },
    Deny { allow_ts: u64 },
}

/// The rate limit of a reply: the new line must not pass the window ahead of
/// now; a refused reply may be asked again when the excess has passed.
pub open spec fn rate_decision(user_line: nat, now: nat, cost: nat, sec_per_cost: nat, window: nat) -> RateDecision {
    let added = next_rate_line(user_line, now, cost, sec_per_cost);
    if added > window + now {
        RateDecision::Deny { allow_ts: (now + (added - (window + now))) as u64 }
    } else {
        RateDecision::Allow { new_line: added as u64 }
    }
}

pub fn check_rate_limit(user_line: u64, time_stamp: u64, model_cost: u64, sec_per_cost: u64, window_size: u64) -> (r: RateDecision)
    requires
        window_size + time_stamp <= u64::MAX,
        model_cost * sec_per_cost <= u64::MAX,
        user_line != 0 ==> (if user_line < time_stamp {
            time_stamp
        } else {
            user_line
        }) + model_cost * sec_per_cost <= u64::MAX,
    ensures
        r == rate_decision(user_line as nat, time_stamp as nat, model_cost as nat, sec_per_cost as nat, window_size as nat),
{
    let limit_line = window_size + time_stamp;
    let add_line = model_cost * sec_per_cost;
    let added_user_line = if user_line == 0 {
        0
    } else if user_line < time_stamp {
        time_stamp + add_line
    } else {
        user_line + add_line
    };
    if added_user_line > limit_line {
        let wait_sec = added_user_line - limit_line;
        RateDecision::Deny { allow_ts: time_stamp + wait_sec }
    } else {
        RateDecision::Allow { new_line: added_user_line }
    }
}

/// An unlimited user (rate line 0) is never refused, and stays unlimited.
pub proof fn lemma_unlimited_never_refused(now: nat, cost: nat, sec_per_cost: nat, window: nat)
    ensures
        rate_decision(0, now, cost, sec_per_cost, window) == (RateDecision::Allow { new_line: 0 }),
{
}

/// A refused reply names a time in the future, and an allowed one never
/// lowers a limited user's line below now.
pub proof fn lemma_rate_decision_bounds(user_line: nat, now: nat, cost: nat, sec_per_cost: nat, window: nat)
    requires
        user_line + now + cost * sec_per_cost + window <= u64::MAX,
    ensures
        match rate_decision(user_line, now, cost, sec_per_cost, window) {
            RateDecision::Deny { allow_ts } => allow_ts > now,
            RateDecision::Allow { new_line } => user_line != 0 ==> new_line >= now && new_line
                >= user_line && new_line <= window + now,
        },
{
    assert(cost * sec_per_cost >= 0) by (nonlinear_arith);
}

/// "Err: rate limit - try again after <t:{allow_ts}:R>".
pub open spec fn rate_limit_text(allow_ts: nat) -> Seq<char> {
    "Err: rate limit - try again after <t:"@ + decimal(allow_ts) + ":R>"@
}

pub fn rate_limit_message(allow_ts: u64) -> (r: String)
    ensures
        r@ == rate_limit_text(allow_ts as nat),
{
    let mut s = String::from_str("Err: rate limit - try again after <t:");
    let n = u64_string(allow_ts);
    push_str(&mut s, n.as_str());
    push_str(&mut s, ":R>");
    s
}

/// The reply posted after reasoning.
pub open spec fn final_reply_text(text: Seq<char>, elapsed_ms: nat, model: Models) -> Seq<char> {
    text + "\n-# Reasoning done in "@ + decimal(elapsed_ms) + "ms, model: "@ + model_name(model)
}

pub fn final_reply(text: &str, elapsed_ms: u64, model: Models) -> (r: String)
    ensures
        r@ == final_reply_text(text@, elapsed_ms as nat, model),
{
    let mut s = String::new();
    push_str(&mut s, text);
    push_str(&mut s, "\n-# Reasoning done in ");
    let n = u64_string(elapsed_ms);
    push_str(&mut s, n.as_str());
    push_str(&mut s, "ms, model: ");
    let m = model.name();
    push_str(&mut s, m.as_str());
    s
}

/// The system prompt of a reply, with where it is asked.
pub open spec fn reply_system_prompt(prompt: Seq<char>, guild_id: Option<u64>, channel_id: u64, channel_name: Option<Seq<char>>) -> Seq<char> {
    prompt + "\n current guild_id: "@ + match guild_id {
        Some(g) => decimal(g as nat),
        None => "None"@,
    } + ", current channel_id: "@ + decimal(channel_id as nat) + ", channel_name: "@ + match channel_name {
        Some(n) => n,
        None => "None"@,
    }
}

pub fn build_reply_system_prompt(prompt: &str, guild_id: Option<u64>, channel_id: u64, channel_name: Option<&str>) -> (r: String)
    ensures
        r@ == reply_system_prompt(
            prompt@,
            guild_id,
            channel_id,
            match channel_name {
                Some(n) => Some(n@),
                None => None,
            },
        ),
{
    let mut s = String::new();
    push_str(&mut s, prompt);
    push_str(&mut s, "\n current guild_id: ");
    match guild_id {
        Some(g) => {
            let n = u64_string(g);
            push_str(&mut s, n.as_str());
        },
        None => push_str(&mut s, "None"),
    }
    push_str(&mut s, ", current channel_id: ");
    let c = u64_string(channel_id);
    push_str(&mut s, c.as_str());
    push_str(&mut s, ", channel_name: ");
    match channel_name {
        Some(n) => push_str(&mut s, n),
        None => push_str(&mut s, "None"),
    }
    s
}

/// Whether an attachment is read as an image: by its content type when it
/// has one, else by its file extension.
pub open spec fn image_attachment(content_type: Option<Seq<char>>, filename: Seq<char>) -> bool {
    match content_type {
        Some(ct) => starts_with_seq(ct, "image/"@),
        None => ends_with_seq(filename, ".png"@) || ends_with_seq(filename, ".jpg"@) || ends_with_seq(
            filename,
            ".jpeg"@,
        ) || ends_with_seq(filename, ".webp"@),
    }
}

pub fn is_image_attachment(content_type: Option<&str>, filename: &str) -> (r: bool)
    ensures
        r == image_attachment(
            match content_type {
                Some(c) => Some(c@),
                None => None,
            },
            filename@,
        ),
{
    match content_type {
        Some(ct) => {
            let c = str_to_chars(ct);
            let p = str_to_chars("image/");
            starts_with_chars(&c, &p)
        },
        None => {
            let f = str_to_chars(filename);
            let png = str_to_chars(".png");
            let jpg = str_to_chars(".jpg");
            let jpeg = str_to_chars(".jpeg");
            let webp = str_to_chars(".webp");
            ends_with_chars(&f, &png) || ends_with_chars(&f, &jpg) || ends_with_chars(&f, &jpeg)
                || ends_with_chars(&f, &webp)
        },
    }
}

/// What a voice state change makes the bot do in its voice channel.
#[derive(Debug, Clone, Copy, PartialEq, Eq, Structural)]
pub enum PresenceAction {
    Ignore,
    /// The last member left: leave the channel.
    AutoLeave,
    /// Announce that a member joined (`true`) or left.
    Announce(bool),
}

pub open spec fn presence_action(
    is_self: bool,
    is_bot_member: bool,
    bot_channel: Option<u64>,
    old_channel: Option<u64>,
    new_channel: Option<u64>,
    bot_channel_empty: bool,
) -> PresenceAction {
    if is_self || is_bot_member || bot_channel is None || old_channel == new_channel {
        PresenceAction::Ignore
    } else {
        let b = bot_channel.unwrap();
        let joined = old_channel != Some(b) && new_channel == Some(b);
        let left = old_channel == Some(b) && new_channel != Some(b);
        if !joined && !left {
            PresenceAction::Ignore
        } else if left && bot_channel_empty {
            PresenceAction::AutoLeave
        } else {
            PresenceAction::Announce(joined)
        }
    }
}

/// Decides what a member's voice state change means for the bot's channel.
pub fn voice_presence_action(
    is_self: bool,
    is_bot_member: bool,
    bot_channel: Option<u64>,
    old_channel: Option<u64>,
    new_channel: Option<u64>,
    bot_channel_empty: bool,
) -> (r: PresenceAction)
    ensures
        r == presence_action(is_self, is_bot_member, bot_channel, old_channel, new_channel, bot_channel_empty),
{
    if is_self || is_bot_member {
        return PresenceAction::Ignore;
    }
    let b = match bot_channel {
        Some(b) => b,
        None => {
            return PresenceAction::Ignore;
        },
    };
    if old_channel == new_channel {
        return PresenceAction::Ignore;
    }
    let joined = old_channel != Some(b) && new_channel == Some(b);
    let left = old_channel == Some(b) && new_channel != Some(b);
    if !joined && !left {
        PresenceAction::Ignore
    } else if left && bot_channel_empty {
        PresenceAction::AutoLeave
    } else {
        PresenceAction::Announce(joined)
    }
}

/// The bot never leaves on a member joining its channel, and only leaves
/// when that channel is empty.
pub proof fn lemma_auto_leave_only_when_empty(
    is_self: bool,
    is_bot_member: bool,
    bot_channel: Option<u64>,
    old_channel: Option<u64>,
    new_channel: Option<u64>,
    empty: bool,
)
    ensures
        presence_action(is_self, is_bot_member, bot_channel, old_channel, new_channel, empty)
            == PresenceAction::AutoLeave ==> empty && bot_channel is Some && old_channel == bot_channel
            && new_channel != bot_channel,
{
}

/// Whether no one but the bot is in its voice channel; `None` when the
/// guild is not cached (then it is not known to be empty).
pub open spec fn channel_empty(states: Option<Seq<(u64, Option<u64>)>>, bot_user: u64, channel: u64) -> bool {
    match states {
        None => false,
        Some(s) => forall|i: int| 0 <= i < s.len() ==> s[i].0 == bot_user || s[i].1 != Some(channel),
    }
}

fn nobody_else_in(s: &Vec<(u64, Option<u64>)>, bot_user: u64, channel: u64) -> (r: bool)
    ensures
        r == forall|i: int| 0 <= i < s@.len() ==> s@[i].0 == bot_user || s@[i].1 != Some(channel),
{
    let mut i: usize = 0;
    while i < s.len()
        invariant
            i <= s@.len(),
            forall|j: int| 0 <= j < i ==> s@[j].0 == bot_user || s@[j].1 != Some(channel),
        decreases s@.len() - i,
    {
        let (user, ch) = s[i];
        if user != bot_user && ch == Some(channel) {
            assert(!(s@[i as int].0 == bot_user || s@[i as int].1 != Some(channel)));
            return false;
        }
        i = i + 1;
    }
    true
}

pub fn is_bot_voice_channel_empty(states: Option<&Vec<(u64, Option<u64>)>>, bot_user: u64, channel: u64) -> (r: bool)
    ensures
        r == channel_empty(
            match states {
                Some(s) => Some(s@),
                None => None,
            },
            bot_user,
            channel,
        ),
{
    match states {
        Some(s) => nobody_else_in(s, bot_user, channel),
        None => false,
    }
}

/// The name a member is announced by: the new, then the old display name,
/// then "ユーザー{id}".
pub open spec fn presence_name(new_name: Option<Seq<char>>, old_name: Option<Seq<char>>, user_id: u64) -> Seq<char> {
    match new_name {
        Some(n) => n,
        None => match old_name {
            Some(n) => n,
            None => "ユーザー"@ + decimal(user_id as nat),
        },
    }
}

/// The announcement of a member joining or leaving.
pub open spec fn presence_phrase(name: Seq<char>, joined: bool) -> Seq<char> {
    if joined {
        name + " がボイスチャンネルに参加しました。"@
    } else {
        name + " がボイスチャンネルから退出しました。"@
    }
}

pub fn build_presence_phrase(new_name: Option<&str>, old_name: Option<&str>, user_id: u64, joined: bool) -> (r: String)
    ensures
        r@ == presence_phrase(
            presence_name(
                match new_name {
                    Some(n) => Some(n@),
                    None => None,
                },
                match old_name {
                    Some(n) => Some(n@),
                    None => None,
                },
                user_id,
            ),
            joined,
        ),
{
    let mut s = String::new();
    match new_name {
        Some(n) => push_str(&mut s, n),
        None => match old_name {
            Some(n) => push_str(&mut s, n),
            None => {
                push_str(&mut s, "ユーザー");
                let d = u64_string(user_id);
                push_str(&mut s, d.as_str());
            },
        },
    }
    if joined {
        push_str(&mut s, " がボイスチャンネルに参加しました。");
    } else {
        push_str(&mut s, " がボイスチャンネルから退出しました。");
    }
    s
}

/// The reply of each channel that is being worked on, and the number the
/// next one gets.
pub struct ActiveResponses {
    current: DashMap<u64, u64>,
    next_id: u64,
}

pub struct ActiveResponsesView {
    pub current: Map<u64, u64>,
    pub next_id: u64,
}

impl View for ActiveResponses {
    type V = ActiveResponsesView;

    closed spec fn view(&self) -> ActiveResponsesView {
        ActiveResponsesView { current: reply_id_entries(self.current), next_id: self.next_id }
    }
}

/// The number after `n`, wrapping (`AtomicU64::fetch_add`).
pub open spec fn next_request_id(n: u64) -> u64 {
    if n == u64::MAX {
        0
    } else {
        (n + 1) as u64
    }
}

/// The replies after one more is started in a channel.
pub open spec fn after_begin(v: ActiveResponsesView, channel: u64) -> ActiveResponsesView {
    ActiveResponsesView { current: v.current.insert(channel, v.next_id), next_id: next_request_id(v.next_id) }
}

/// The replies after one ends: the channel is freed only if that reply is
/// still its current one.
pub open spec fn after_finish(v: ActiveResponsesView, channel: u64, request_id: u64) -> ActiveResponsesView {
    if v.current.contains_key(channel) && v.current[channel] == request_id {
        ActiveResponsesView { current: v.current.remove(channel), ..v }
    } else {
        v
    }
}

pub open spec fn is_current_reply(v: ActiveResponsesView, channel: u64, request_id: u64) -> bool {
    v.current.contains_key(channel) && v.current[channel] == request_id
}

impl ActiveResponses {
    pub fn new() -> (r: Self)
        ensures
            r@.current == Map::<u64, u64>::empty(),
            r@.next_id == 0,
    {
        ActiveResponses { current: new_reply_ids(), next_id: 0 }
    }

    /// Starts a reply in a channel; returns its number and the reply it
    /// replaces (which is aborted).
    pub fn begin(&mut self, channel: u64) -> (r: (u64, Option<u64>))
        ensures
            r.0 == old(self)@.next_id,
            r.1 == (if old(self)@.current.contains_key(channel) {
                Some(old(self)@.current[channel])
            } else {
                None
            }),
            final(self)@ == after_begin(old(self)@, channel),
    {
        let id = self.next_id;
        self.next_id = if self.next_id == u64::MAX {
            0
        } else {
            self.next_id + 1
        };
        let replaced = get_reply_id(&self.current, channel);
        insert_reply_id(&mut self.current, channel, id);
        (id, replaced)
    }

    /// Whether a reply is still the current one of its channel.
    pub fn is_current(&self, channel: u64, request_id: u64) -> (r: bool)
        ensures
            r == is_current_reply(self@, channel, request_id),
    {
        match get_reply_id(&self.current, channel) {
            Some(v) => v == request_id,
            None => false,
        }
    }

    /// Ends a reply; returns whether the channel was freed.
    pub fn finish(&mut self, channel: u64, request_id: u64) -> (r: bool)
        ensures
            r == is_current_reply(old(self)@, channel, request_id),
            final(self)@ == after_finish(old(self)@, channel, request_id),
    {
        if self.is_current(channel, request_id) {
            remove_reply_id(&mut self.current, channel);
            true
        } else {
            false
        }
    }
}

/// A reply just started is the current one of its channel, and the reply it
/// replaced no longer is (unless the numbers wrapped around to it).
pub proof fn lemma_begin_makes_current(v: ActiveResponsesView, channel: u64, old_id: u64)
    requires
        old_id != v.next_id,
    ensures
        is_current_reply(after_begin(v, channel), channel, v.next_id),
        !is_current_reply(after_begin(v, channel), channel, old_id),
{
}

/// A reply that ends while current frees its channel; one that was replaced
/// changes nothing.
pub proof fn lemma_finish_frees_only_current(v: ActiveResponsesView, channel: u64, request_id: u64)
    ensures
        is_current_reply(v, channel, request_id) ==> !after_finish(v, channel, request_id).current.contains_key(channel),
        !is_current_reply(v, channel, request_id) ==> after_finish(v, channel, request_id) == v,
{
}

/// Whether a message is read aloud at all: not a command (leading '!' or
/// '/'), and not sent silently.
pub open spec fn message_is_read(content: Seq<char>, suppressed: bool) -> bool {
    !(content.len() > 0 && (content[0] == '!' || content[0] == '/')) && !suppressed
}

pub fn is_message_read(content: &str, suppress_notifications: bool) -> (r: bool)
    ensures
        r == message_is_read(content@, suppress_notifications),
{
    let v = str_to_chars(content);
    let command = v.len() > 0 && (v[0] == '!' || v[0] == '/');
    !command && !suppress_notifications
}

/// What is read of a message once its text is normalized: the text, or for
/// an empty text a notice of attached files (nothing without files).
pub open spec fn message_read_text(normalized: Seq<char>, has_attachments: bool) -> Option<Seq<char>> {
    if normalized.len() > 0 {
        Some(normalized)
    } else if has_attachments {
        Some("ファイルが送信されました"@)
    } else {
        None
    }
}

pub fn message_tts_text(normalized: String, has_attachments: bool) -> (r: Option<String>)
    ensures
        match r {
            Some(t) => message_read_text(normalized@, has_attachments) == Some(t@),
            None => message_read_text(normalized@, has_attachments) is None,
        },
{
    if normalized.unicode_len() > 0 {
        Some(normalized)
    } else if has_attachments {
        Some(String::from_str("ファイルが送信されました"))
    } else {
        None
    }
}

} // verus!
