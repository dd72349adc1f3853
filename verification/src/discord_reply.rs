//! What the `discord-tool` answers the model once Discord has done what a
//! call asked: a line for reactions and threads, a JSON object for messages
//! and listings.
use vstd::prelude::*;
use crate::text::{push_str, u64_string, decimal};
use crate::schema::{Json, JsonV, members_view, items_view};
use crate::tool_schema::{new_members, push_member, push_item, object, array, json_str};
use crate::discord_tool::{
    search_matches, matching_messages, ChannelRow, ChannelRowView, ChannelKind, MemberRow, kind_name,
    channel_rows_view, listed_channels, select_channels, members_in, members_in_channel,
    lemma_members_in_range, members_connected, member_order, sort_by, list_voice_members,
    DiscordTool,
};

verus! {

/// What the model is told after a thread is created, in the thread's new
/// context.
pub const THREAD_MOVED_NOTE: &'static str = "The context has been moved to the newly created thread. You are now inside the thread you created.";

/// The note of the answer to `send_message`.
pub const SEND_NOTE: &'static str = "already_posted_to_discord_do_not_repeat_body";

/// The note of the answer to `edit_message`.
pub const EDIT_NOTE: &'static str = "message_edited_in_discord";

/// "Added reaction '{r}' on channel_id='{c}', message_id='{m}'", or
/// "Removed ..." for a removal.
pub open spec fn reaction_reply_text(added: bool, reaction: Seq<char>, channel: Seq<char>, message: Seq<char>) -> Seq<char> {
    (if added { "Added"@ } else { "Removed"@ }) + " reaction '"@ + reaction + "' on channel_id='"@ + channel
        + "', message_id='"@ + message + "'"@
}

pub fn reaction_reply(added: bool, reaction: &str, channel_raw: &str, message_raw: &str) -> (r: String)
    ensures
        r@ == reaction_reply_text(added, reaction@, channel_raw@, message_raw@),
{
    let mut s = String::from_str(if added { "Added" } else { "Removed" });
    push_str(&mut s, " reaction '");
    push_str(&mut s, reaction);
    push_str(&mut s, "' on channel_id='");
    push_str(&mut s, channel_raw);
    push_str(&mut s, "', message_id='");
    push_str(&mut s, message_raw);
    push_str(&mut s, "'");
    s
}

/// "Created {type} thread '{name}' in channel_id='{c}' (from
/// message_id='{m}')", with `-` for a thread not started from a message.
pub open spec fn thread_reply_text(thread_type: Seq<char>, name: Seq<char>, channel: Seq<char>, message: Option<Seq<char>>) -> Seq<char> {
    "Created "@ + thread_type + " thread '"@ + name + "' in channel_id='"@ + channel + "' (from message_id='"@
        + (match message {
        Some(m) => m,
        None => "-"@,
    }) + "')"@
}

pub fn thread_reply(thread_type: &str, name: &str, channel_raw: &str, message_raw: Option<&str>) -> (r: String)
    ensures
        r@ == thread_reply_text(
            thread_type@,
            name@,
            channel_raw@,
            match message_raw {
                Some(m) => Some(m@),
                None => None,
            },
        ),
{
    let mut s = String::from_str("Created ");
    push_str(&mut s, thread_type);
    push_str(&mut s, " thread '");
    push_str(&mut s, name);
    push_str(&mut s, "' in channel_id='");
    push_str(&mut s, channel_raw);
    push_str(&mut s, "' (from message_id='");
    match message_raw {
        Some(m) => push_str(&mut s, m),
        None => push_str(&mut s, "-"),
    }
    push_str(&mut s, "')");
    s
}

/// A number of the answer.
pub open spec fn count_json(n: nat) -> JsonV {
    JsonV::Number(decimal(n))
}

fn count(n: usize) -> (r: Json)
    ensures
        r@ == count_json(n as nat),
{
    Json::Number(u64_string(n as u64))
}

fn id_text(id: u64) -> (r: Json)
    ensures
        r@ == JsonV::Str(decimal(id as nat)),
{
    Json::Str(u64_string(id))
}

/// The answer to `send_message` (`edit == false`) or `edit_message`, with
/// the length in characters of the message Discord holds now.
pub open spec fn message_reply_view(edit: bool, channel: Seq<char>, message: Seq<char>, content: Seq<char>) -> JsonV {
    JsonV::Object(
        seq![
            ("status"@, JsonV::Str("ok"@)),
            ("operation"@, JsonV::Str(if edit { "edit_message"@ } else { "send_message"@ })),
            ("channel_id"@, JsonV::Str(channel)),
            ("message_id"@, JsonV::Str(message)),
            ("content_length"@, count_json(content.len())),
            ("note"@, JsonV::Str(if edit { EDIT_NOTE@ } else { SEND_NOTE@ })),
        ],
    )
}

/// The answer to `send_message`: the new message's ID and length.
pub fn send_reply(channel_raw: &str, message_id: u64, content: &str) -> (r: Json)
    ensures
        r@ == message_reply_view(false, channel_raw@, decimal(message_id as nat), content@),
{
    let mut ms = new_members();
    push_member(&mut ms, "status", json_str("ok"));
    push_member(&mut ms, "operation", json_str("send_message"));
    push_member(&mut ms, "channel_id", json_str(channel_raw));
    push_member(&mut ms, "message_id", id_text(message_id));
    push_member(&mut ms, "content_length", count(content.unicode_len()));
    push_member(&mut ms, "note", json_str(SEND_NOTE));
    assert(members_view(ms@) =~= seq![
        ("status"@, JsonV::Str("ok"@)),
        ("operation"@, JsonV::Str("send_message"@)),
        ("channel_id"@, JsonV::Str(channel_raw@)),
        ("message_id"@, JsonV::Str(decimal(message_id as nat))),
        ("content_length"@, count_json(content@.len())),
        ("note"@, JsonV::Str(SEND_NOTE@)),
    ]);
    object(ms)
}

/// The answer to `edit_message`: the edited message's length.
pub fn edit_reply(channel_raw: &str, message_raw: &str, content: &str) -> (r: Json)
    ensures
        r@ == message_reply_view(true, channel_raw@, message_raw@, content@),
{
    let mut ms = new_members();
    push_member(&mut ms, "status", json_str("ok"));
    push_member(&mut ms, "operation", json_str("edit_message"));
    push_member(&mut ms, "channel_id", json_str(channel_raw));
    push_member(&mut ms, "message_id", json_str(message_raw));
    push_member(&mut ms, "content_length", count(content.unicode_len()));
    push_member(&mut ms, "note", json_str(EDIT_NOTE));
    assert(members_view(ms@) =~= seq![
        ("status"@, JsonV::Str("ok"@)),
        ("operation"@, JsonV::Str("edit_message"@)),
        ("channel_id"@, JsonV::Str(channel_raw@)),
        ("message_id"@, JsonV::Str(message_raw@)),
        ("content_length"@, count_json(content@.len())),
        ("note"@, JsonV::Str(EDIT_NOTE@)),
    ]);
    object(ms)
}

/// A message Discord gave back: its ID, author, text and time stamp (as
/// Discord's client formats it).
pub struct FetchedMessage {
    pub id: u64,
    pub author_id: u64,
    pub author_name: String,
    pub content: String,
    pub timestamp: String,
}

/// The author, text and time stamp of a message, as answers show them.
pub open spec fn message_fields(m: FetchedMessage) -> Seq<(Seq<char>, JsonV)> {
    seq![
        ("author_id"@, JsonV::Str(decimal(m.author_id as nat))),
        ("author_name"@, JsonV::Str(m.author_name@)),
        ("content"@, JsonV::Str(m.content@)),
        ("timestamp"@, JsonV::Str(m.timestamp@)),
    ]
}

/// The answer to `fetch_message`.
pub open spec fn fetch_reply_view(channel: Seq<char>, message: Seq<char>, m: FetchedMessage) -> JsonV {
    JsonV::Object(
        seq![
            ("status"@, JsonV::Str("ok"@)),
            ("operation"@, JsonV::Str("fetch_message"@)),
            ("channel_id"@, JsonV::Str(channel)),
            ("message_id"@, JsonV::Str(message)),
        ] + message_fields(m),
    )
}

fn push_message_fields(ms: &mut Vec<(String, Json)>, m: &FetchedMessage)
    ensures
        members_view(final(ms)@) == members_view(old(ms)@) + message_fields(*m),
{
    push_member(ms, "author_id", id_text(m.author_id));
    push_member(ms, "author_name", json_str(m.author_name.as_str()));
    push_member(ms, "content", json_str(m.content.as_str()));
    push_member(ms, "timestamp", json_str(m.timestamp.as_str()));
    assert(members_view(ms@) =~= members_view(old(ms)@) + message_fields(*m));
}

pub fn fetch_reply(channel_raw: &str, message_raw: &str, m: &FetchedMessage) -> (r: Json)
    ensures
        r@ == fetch_reply_view(channel_raw@, message_raw@, *m),
{
    let mut ms = new_members();
    push_member(&mut ms, "status", json_str("ok"));
    push_member(&mut ms, "operation", json_str("fetch_message"));
    push_member(&mut ms, "channel_id", json_str(channel_raw));
    push_member(&mut ms, "message_id", json_str(message_raw));
    let ghost head = members_view(ms@);
    push_message_fields(&mut ms, m);
    assert(head =~= seq![
        ("status"@, JsonV::Str("ok"@)),
        ("operation"@, JsonV::Str("fetch_message"@)),
        ("channel_id"@, JsonV::Str(channel_raw@)),
        ("message_id"@, JsonV::Str(message_raw@)),
    ]);
    object(ms)
}

/// A message found by `search_messages`.
pub open spec fn found_message_view(m: FetchedMessage) -> JsonV {
    JsonV::Object(seq![("message_id"@, JsonV::Str(decimal(m.id as nat)))] + message_fields(m))
}

/// The answer to `search_messages`: the fetched messages whose text holds
/// the query (case aside), in the order Discord gave them.
pub open spec fn search_reply_view(channel: Seq<char>, query: Seq<char>, fetched: Seq<FetchedMessage>) -> JsonV {
    let found = matching_messages(fetched.map_values(|m: FetchedMessage| m.content@), query);
    JsonV::Object(
        seq![
            ("status"@, JsonV::Str("ok"@)),
            ("operation"@, JsonV::Str("search_messages"@)),
            ("channel_id"@, JsonV::Str(channel)),
            ("query"@, JsonV::Str(query)),
            ("matched_count"@, count_json(found.len())),
            ("messages"@, JsonV::Array(found.map_values(|i: usize| found_message_view(fetched[i as int])))),
        ],
    )
}

fn found_message(m: &FetchedMessage) -> (r: Json)
    ensures
        r@ == found_message_view(*m),
{
    let mut ms = new_members();
    push_member(&mut ms, "message_id", id_text(m.id));
    push_message_fields(&mut ms, m);
    object(ms)
}

pub fn search_reply(channel_raw: &str, query: &str, fetched: &Vec<FetchedMessage>) -> (r: Json)
    ensures
        r@ == search_reply_view(channel_raw@, query@, fetched@),
{
    let mut contents: Vec<String> = Vec::new();
    let mut k: usize = 0;
    while k < fetched.len()
        invariant
            k <= fetched@.len(),
            contents@.map_values(|s: String| s@) == fetched@.subrange(0, k as int).map_values(
                |m: FetchedMessage| m.content@,
            ),
        decreases fetched@.len() - k,
    {
        let ghost before = contents@;
        let c = fetched[k].content.clone();
        assert(c@ == fetched@[k as int].content@);
        contents.push(c);
        assert(contents@.map_values(|s: String| s@) =~= before.map_values(|s: String| s@).push(
            fetched@[k as int].content@,
        ));
        assert(fetched@.subrange(0, k + 1).map_values(|m: FetchedMessage| m.content@)
            =~= fetched@.subrange(0, k as int).map_values(|m: FetchedMessage| m.content@).push(
            fetched@[k as int].content@,
        ));
        k = k + 1;
    }
    assert(fetched@.subrange(0, fetched@.len() as int) =~= fetched@);
    let found = search_matches(&contents, query);
    let ghost fv = found@;
    proof {
        crate::discord_tool::lemma_matching_in_range(fetched@.map_values(|m: FetchedMessage| m.content@), query@);
    }
    let mut items: Vec<Json> = Vec::new();
    assert(items_view(items@) =~= Seq::<JsonV>::empty());
    let mut i: usize = 0;
    while i < found.len()
        invariant
            i <= found@.len(),
            found@ == fv,
            forall|j: int| 0 <= j < fv.len() ==> (#[trigger] fv[j]) < fetched@.len(),
            items_view(items@) == fv.subrange(0, i as int).map_values(
                |x: usize| found_message_view(fetched@[x as int]),
            ),
        decreases found@.len() - i,
    {
        let m = found_message(&fetched[found[i]]);
        push_item(&mut items, m);
        assert(fv.subrange(0, i + 1).map_values(|x: usize| found_message_view(fetched@[x as int]))
            =~= fv.subrange(0, i as int).map_values(|x: usize| found_message_view(fetched@[x as int])).push(
            found_message_view(fetched@[fv[i as int] as int]),
        ));
        i = i + 1;
    }
    assert(fv.subrange(0, fv.len() as int) =~= fv);
    let n = found.len();
    let mut ms = new_members();
    push_member(&mut ms, "status", json_str("ok"));
    push_member(&mut ms, "operation", json_str("search_messages"));
    push_member(&mut ms, "channel_id", json_str(channel_raw));
    push_member(&mut ms, "query", json_str(query));
    push_member(&mut ms, "matched_count", count(n));
    push_member(&mut ms, "messages", array(items));
    assert(members_view(ms@) =~= seq![
        ("status"@, JsonV::Str("ok"@)),
        ("operation"@, JsonV::Str("search_messages"@)),
        ("channel_id"@, JsonV::Str(channel_raw@)),
        ("query"@, JsonV::Str(query@)),
        ("matched_count"@, count_json(fv.len())),
        ("messages"@, JsonV::Array(fv.map_values(|x: usize| found_message_view(fetched@[x as int])))),
    ]);
    object(ms)
}


/// The error of a listing that needs the voice states of a server the bot
/// has not cached yet.
pub const GUILD_NOT_CACHED: &'static str = "Guild is not available in cache. Try again after the bot has fully joined and received voice states.";

/// The name a member without a known display name is shown under.
pub const UNKNOWN_MEMBER_NAME: &'static str = "(unknown)";

/// A member's display name, or "(unknown)".
pub fn member_display_name(name: Option<&str>) -> (r: String)
    ensures
        r@ == match name {
            Some(n) => n@,
            None => UNKNOWN_MEMBER_NAME@,
        },
{
    match name {
        Some(n) => String::from_str(n),
        None => String::from_str(UNKNOWN_MEMBER_NAME),
    }
}

/// An ID as text, or `null`.
pub open spec fn opt_id_view(o: Option<u64>) -> JsonV {
    match o {
        Some(v) => JsonV::Str(decimal(v as nat)),
        None => JsonV::Null,
    }
}

/// Who a member is.
pub open spec fn member_who(m: MemberRow) -> Seq<(Seq<char>, JsonV)> {
    seq![("user_id"@, JsonV::Str(decimal(m.user_id as nat))), ("display_name"@, JsonV::Str(m.display_name@))]
}

/// Whether a member is muted or deafened, by itself or by the server.
pub open spec fn member_flags(m: MemberRow) -> Seq<(Seq<char>, JsonV)> {
    seq![
        ("self_mute"@, JsonV::Bool(m.self_mute)),
        ("self_deaf"@, JsonV::Bool(m.self_deaf)),
        ("mute"@, JsonV::Bool(m.mute)),
        ("deaf"@, JsonV::Bool(m.deaf)),
    ]
}

/// A member as `list_channels` shows it.
pub open spec fn member_brief_view(m: MemberRow) -> JsonV {
    JsonV::Object(member_who(m))
}

/// A member as `list_voice_channels` shows it.
pub open spec fn member_state_view(m: MemberRow) -> JsonV {
    JsonV::Object(member_who(m) + member_flags(m))
}

/// A member as `list_voice_members` shows it.
pub open spec fn member_located_view(m: MemberRow) -> JsonV {
    JsonV::Object(member_who(m) + seq![("channel_id"@, opt_id_view(m.channel_id))] + member_flags(m))
}

/// How a listing shows its members.
#[derive(Clone, Copy, PartialEq, Eq, Structural)]
pub enum MemberShape {
    Brief,
    State,
    Located,
}

pub open spec fn member_view(shape: MemberShape, m: MemberRow) -> JsonV {
    match shape {
        MemberShape::Brief => member_brief_view(m),
        MemberShape::State => member_state_view(m),
        MemberShape::Located => member_located_view(m),
    }
}

/// The members at the given positions, shown in order.
pub open spec fn members_at_view(shape: MemberShape, ms: Seq<MemberRow>, idx: Seq<usize>) -> Seq<JsonV> {
    idx.map_values(|i: usize| member_view(shape, ms[i as int]))
}

fn member_json(shape: MemberShape, m: &MemberRow) -> (r: Json)
    ensures
        r@ == member_view(shape, *m),
{
    let mut ms = new_members();
    push_member(&mut ms, "user_id", id_text(m.user_id));
    push_member(&mut ms, "display_name", json_str(m.display_name.as_str()));
    let ghost who = members_view(ms@);
    assert(who =~= member_who(*m));
    match shape {
        MemberShape::Brief => {},
        MemberShape::State => {
            push_flags(&mut ms, m);
        },
        MemberShape::Located => {
            let c = match m.channel_id {
                Some(c) => id_text(c),
                None => Json::Null,
            };
            push_member(&mut ms, "channel_id", c);
            push_flags(&mut ms, m);
            assert(members_view(ms@) =~= member_who(*m) + seq![("channel_id"@, opt_id_view(m.channel_id))]
                + member_flags(*m));
        },
    }
    object(ms)
}

fn push_flags(ms: &mut Vec<(String, Json)>, m: &MemberRow)
    ensures
        members_view(final(ms)@) == members_view(old(ms)@) + member_flags(*m),
{
    push_member(ms, "self_mute", Json::Bool(m.self_mute));
    push_member(ms, "self_deaf", Json::Bool(m.self_deaf));
    push_member(ms, "mute", Json::Bool(m.mute));
    push_member(ms, "deaf", Json::Bool(m.deaf));
    assert(members_view(ms@) =~= members_view(old(ms)@) + member_flags(*m));
}

fn members_at(shape: MemberShape, members: &Vec<MemberRow>, idx: &Vec<usize>) -> (r: Vec<Json>)
    requires
        forall|j: int| 0 <= j < idx@.len() ==> (#[trigger] idx@[j]) < members@.len(),
    ensures
        items_view(r@) == members_at_view(shape, members@, idx@),
{
    let mut out: Vec<Json> = Vec::new();
    assert(items_view(out@) =~= Seq::<JsonV>::empty());
    let mut i: usize = 0;
    while i < idx.len()
        invariant
            i <= idx@.len(),
            forall|j: int| 0 <= j < idx@.len() ==> (#[trigger] idx@[j]) < members@.len(),
            items_view(out@) == members_at_view(shape, members@, idx@.subrange(0, i as int)),
        decreases idx@.len() - i,
    {
        let m = member_json(shape, &members[idx[i]]);
        push_item(&mut out, m);
        assert(members_at_view(shape, members@, idx@.subrange(0, i + 1)) =~= members_at_view(
            shape,
            members@,
            idx@.subrange(0, i as int),
        ).push(member_view(shape, members@[idx@[i as int] as int])));
        i = i + 1;
    }
    assert(idx@.subrange(0, idx@.len() as int) =~= idx@);
    out
}

/// Whether `list_channels` shows the members of a channel of this kind.
pub open spec fn shows_members(include_members: bool, kind: ChannelKind) -> bool {
    include_members && (kind == ChannelKind::Voice || kind == ChannelKind::Stage)
}

/// The members `list_channels` shows under a channel: none unless they are
/// asked for, the channel is a voice or stage channel and the server's
/// voice states are known.
pub open spec fn listed_members(members: Option<Seq<MemberRow>>, ch: ChannelRowView, include_members: bool) -> Seq<JsonV> {
    match members {
        Some(ms) => if shows_members(include_members, ch.kind) {
            members_at_view(MemberShape::Brief, ms, members_in(ms, ch.id))
        } else {
            Seq::empty()
        },
        None => Seq::empty(),
    }
}

/// A channel as `list_channels` shows it.
pub open spec fn channel_entry_view(ch: ChannelRowView, members: Seq<JsonV>) -> JsonV {
    JsonV::Object(
        seq![
            ("channel_id"@, JsonV::Str(decimal(ch.id as nat))),
            ("name"@, JsonV::Str(ch.name)),
            ("type"@, JsonV::Str(kind_name(ch.kind))),
            ("position"@, count_json(ch.position as nat)),
            ("parent_id"@, opt_id_view(ch.parent_id)),
            ("members"@, JsonV::Array(members)),
            ("member_count"@, count_json(members.len())),
        ],
    )
}

/// The answer to `list_channels`: the channels under the filter, ordered
/// by position then ID.
pub open spec fn list_channels_view(
    guild_id: u64,
    filter: Seq<char>,
    include_members: bool,
    rows: Seq<ChannelRowView>,
    members: Option<Seq<MemberRow>>,
) -> JsonV {
    let listed = listed_channels(rows, Some(filter));
    JsonV::Object(
        seq![
            ("status"@, JsonV::Str("ok"@)),
            ("operation"@, JsonV::Str("list_channels"@)),
            ("guild_id"@, JsonV::Str(decimal(guild_id as nat))),
            ("channel_type"@, JsonV::Str(filter)),
            ("include_members"@, JsonV::Bool(include_members)),
            ("channel_count"@, count_json(listed.len())),
            (
                "channels"@,
                JsonV::Array(
                    listed.map_values(
                        |ch: ChannelRowView| channel_entry_view(ch, listed_members(members, ch, include_members)),
                    ),
                ),
            ),
        ],
    )
}

fn channel_entry(ch: &ChannelRow, members: Vec<Json>) -> (r: Json)
    ensures
        r@ == channel_entry_view(ch@, items_view(members@)),
{
    let ghost mv = items_view(members@);
    let n = members.len();
    proof {
        crate::schema::lemma_items_view(members@);
    }
    let mut ms = new_members();
    push_member(&mut ms, "channel_id", id_text(ch.id));
    push_member(&mut ms, "name", json_str(ch.name.as_str()));
    push_member(&mut ms, "type", json_str(DiscordTool::channel_type_name(ch.kind)));
    push_member(&mut ms, "position", count(ch.position as usize));
    let p = match ch.parent_id {
        Some(v) => id_text(v),
        None => Json::Null,
    };
    push_member(&mut ms, "parent_id", p);
    push_member(&mut ms, "members", array(members));
    push_member(&mut ms, "member_count", count(n));
    assert(members_view(ms@) =~= seq![
        ("channel_id"@, JsonV::Str(decimal(ch@.id as nat))),
        ("name"@, JsonV::Str(ch@.name)),
        ("type"@, JsonV::Str(kind_name(ch@.kind))),
        ("position"@, count_json(ch@.position as nat)),
        ("parent_id"@, opt_id_view(ch@.parent_id)),
        ("members"@, JsonV::Array(mv)),
        ("member_count"@, count_json(mv.len())),
    ]);
    object(ms)
}

/// The answer to `list_channels`. `members` are the server's voice states
/// in the order they were read, when the server is cached.
pub fn list_channels_reply(
    guild_id: u64,
    filter: &str,
    include_members: bool,
    rows: &Vec<ChannelRow>,
    members: Option<&Vec<MemberRow>>,
) -> (r: Json)
    ensures
        r@ == list_channels_view(
            guild_id,
            filter@,
            include_members,
            channel_rows_view(rows@),
            match members {
                Some(m) => Some(m@),
                None => None,
            },
        ),
{
    let ghost mo: Option<Seq<MemberRow>> = match members {
        Some(m) => Some(m@),
        None => None,
    };
    let listed = select_channels(rows, Some(filter));
    let ghost lv = channel_rows_view(listed@);
    let mut items: Vec<Json> = Vec::new();
    assert(items_view(items@) =~= Seq::<JsonV>::empty());
    let mut i: usize = 0;
    while i < listed.len()
        invariant
            i <= listed@.len(),
            lv == channel_rows_view(listed@),
            mo == match members {
                Some(m) => Some(m@),
                None => None::<Seq<MemberRow>>,
            },
            items_view(items@) == lv.subrange(0, i as int).map_values(
                |ch: ChannelRowView| channel_entry_view(ch, listed_members(mo, ch, include_members)),
            ),
        decreases listed@.len() - i,
    {
        let ch = &listed[i];
        let shown: Vec<Json> = match members {
            Some(ms) => if include_members && (ch.kind == ChannelKind::Voice || ch.kind == ChannelKind::Stage) {
                let idx = members_in_channel(ms, ch.id);
                proof {
                    lemma_members_in_range(ms@, ch.id);
                }
                members_at(MemberShape::Brief, ms, &idx)
            } else {
                let v: Vec<Json> = Vec::new();
                assert(items_view(v@) =~= Seq::<JsonV>::empty());
                v
            },
            None => {
                let v: Vec<Json> = Vec::new();
                assert(items_view(v@) =~= Seq::<JsonV>::empty());
                v
            },
        };
        assert(items_view(shown@) == listed_members(mo, lv[i as int], include_members));
        let entry = channel_entry(ch, shown);
        push_item(&mut items, entry);
        assert(lv.subrange(0, i + 1).map_values(
            |c: ChannelRowView| channel_entry_view(c, listed_members(mo, c, include_members)),
        ) =~= lv.subrange(0, i as int).map_values(
            |c: ChannelRowView| channel_entry_view(c, listed_members(mo, c, include_members)),
        ).push(channel_entry_view(lv[i as int], listed_members(mo, lv[i as int], include_members))));
        i = i + 1;
    }
    assert(lv.subrange(0, lv.len() as int) =~= lv);
    let n = listed.len();
    let mut ms = new_members();
    push_member(&mut ms, "status", json_str("ok"));
    push_member(&mut ms, "operation", json_str("list_channels"));
    push_member(&mut ms, "guild_id", id_text(guild_id));
    push_member(&mut ms, "channel_type", json_str(filter));
    push_member(&mut ms, "include_members", Json::Bool(include_members));
    push_member(&mut ms, "channel_count", count(n));
    push_member(&mut ms, "channels", array(items));
    assert(members_view(ms@) =~= seq![
        ("status"@, JsonV::Str("ok"@)),
        ("operation"@, JsonV::Str("list_channels"@)),
        ("guild_id"@, JsonV::Str(decimal(guild_id as nat))),
        ("channel_type"@, JsonV::Str(filter@)),
        ("include_members"@, JsonV::Bool(include_members)),
        ("channel_count"@, count_json(lv.len())),
        (
            "channels"@,
            JsonV::Array(lv.map_values(
                |ch: ChannelRowView| channel_entry_view(ch, listed_members(mo, ch, include_members)),
            )),
        ),
    ]);
    object(ms)
}


/// A voice or stage channel as `list_voice_channels` shows it.
pub open spec fn voice_channel_entry_view(ch: ChannelRowView, members: Seq<JsonV>) -> JsonV {
    JsonV::Object(
        seq![
            ("channel_id"@, JsonV::Str(decimal(ch.id as nat))),
            ("name"@, JsonV::Str(ch.name)),
            ("type"@, JsonV::Str(kind_name(ch.kind))),
            ("position"@, count_json(ch.position as nat)),
            ("member_count"@, count_json(members.len())),
            ("members"@, JsonV::Array(members)),
        ],
    )
}

/// The members `list_voice_channels` shows under a channel.
pub open spec fn voice_channel_members(ms: Seq<MemberRow>, ch: ChannelRowView, include_members: bool) -> Seq<JsonV> {
    if include_members {
        members_at_view(MemberShape::State, ms, members_in(ms, ch.id))
    } else {
        Seq::empty()
    }
}

/// The answer to `list_voice_channels`: the voice and stage channels,
/// ordered by position then ID.
pub open spec fn list_voice_channels_view(
    guild_id: u64,
    include_members: bool,
    rows: Seq<ChannelRowView>,
    members: Seq<MemberRow>,
) -> JsonV {
    let listed = listed_channels(rows, None);
    JsonV::Object(
        seq![
            ("status"@, JsonV::Str("ok"@)),
            ("operation"@, JsonV::Str("list_voice_channels"@)),
            ("guild_id"@, JsonV::Str(decimal(guild_id as nat))),
            ("include_members"@, JsonV::Bool(include_members)),
            ("voice_channel_count"@, count_json(listed.len())),
            (
                "channels"@,
                JsonV::Array(
                    listed.map_values(
                        |ch: ChannelRowView| voice_channel_entry_view(
                            ch,
                            voice_channel_members(members, ch, include_members),
                        ),
                    ),
                ),
            ),
        ],
    )
}

fn voice_channel_entry(ch: &ChannelRow, members: Vec<Json>) -> (r: Json)
    ensures
        r@ == voice_channel_entry_view(ch@, items_view(members@)),
{
    let ghost mv = items_view(members@);
    let n = members.len();
    proof {
        crate::schema::lemma_items_view(members@);
    }
    let mut ms = new_members();
    push_member(&mut ms, "channel_id", id_text(ch.id));
    push_member(&mut ms, "name", json_str(ch.name.as_str()));
    push_member(&mut ms, "type", json_str(DiscordTool::channel_type_name(ch.kind)));
    push_member(&mut ms, "position", count(ch.position as usize));
    push_member(&mut ms, "member_count", count(n));
    push_member(&mut ms, "members", array(members));
    assert(members_view(ms@) =~= seq![
        ("channel_id"@, JsonV::Str(decimal(ch@.id as nat))),
        ("name"@, JsonV::Str(ch@.name)),
        ("type"@, JsonV::Str(kind_name(ch@.kind))),
        ("position"@, count_json(ch@.position as nat)),
        ("member_count"@, count_json(mv.len())),
        ("members"@, JsonV::Array(mv)),
    ]);
    object(ms)
}

/// The answer to `list_voice_channels`, from the server's channels and its
/// voice states in the order they were read.
pub fn list_voice_channels_reply(
    guild_id: u64,
    include_members: bool,
    rows: &Vec<ChannelRow>,
    members: &Vec<MemberRow>,
) -> (r: Json)
    ensures
        r@ == list_voice_channels_view(guild_id, include_members, channel_rows_view(rows@), members@),
{
    let listed = select_channels(rows, None);
    let ghost lv = channel_rows_view(listed@);
    let mut items: Vec<Json> = Vec::new();
    assert(items_view(items@) =~= Seq::<JsonV>::empty());
    let mut i: usize = 0;
    while i < listed.len()
        invariant
            i <= listed@.len(),
            lv == channel_rows_view(listed@),
            items_view(items@) == lv.subrange(0, i as int).map_values(
                |ch: ChannelRowView| voice_channel_entry_view(ch, voice_channel_members(members@, ch, include_members)),
            ),
        decreases listed@.len() - i,
    {
        let ch = &listed[i];
        let shown: Vec<Json> = if include_members {
            let idx = members_in_channel(members, ch.id);
            proof {
                lemma_members_in_range(members@, ch.id);
            }
            members_at(MemberShape::State, members, &idx)
        } else {
            let v: Vec<Json> = Vec::new();
            assert(items_view(v@) =~= Seq::<JsonV>::empty());
            v
        };
        let entry = voice_channel_entry(ch, shown);
        push_item(&mut items, entry);
        assert(lv.subrange(0, i + 1).map_values(
            |c: ChannelRowView| voice_channel_entry_view(c, voice_channel_members(members@, c, include_members)),
        ) =~= lv.subrange(0, i as int).map_values(
            |c: ChannelRowView| voice_channel_entry_view(c, voice_channel_members(members@, c, include_members)),
        ).push(voice_channel_entry_view(lv[i as int], voice_channel_members(members@, lv[i as int], include_members))));
        i = i + 1;
    }
    assert(lv.subrange(0, lv.len() as int) =~= lv);
    let n = listed.len();
    let mut ms = new_members();
    push_member(&mut ms, "status", json_str("ok"));
    push_member(&mut ms, "operation", json_str("list_voice_channels"));
    push_member(&mut ms, "guild_id", id_text(guild_id));
    push_member(&mut ms, "include_members", Json::Bool(include_members));
    push_member(&mut ms, "voice_channel_count", count(n));
    push_member(&mut ms, "channels", array(items));
    assert(members_view(ms@) =~= seq![
        ("status"@, JsonV::Str("ok"@)),
        ("operation"@, JsonV::Str("list_voice_channels"@)),
        ("guild_id"@, JsonV::Str(decimal(guild_id as nat))),
        ("include_members"@, JsonV::Bool(include_members)),
        ("voice_channel_count"@, count_json(lv.len())),
        (
            "channels"@,
            JsonV::Array(lv.map_values(
                |ch: ChannelRowView| voice_channel_entry_view(ch, voice_channel_members(members@, ch, include_members)),
            )),
        ),
    ]);
    object(ms)
}

/// The answer to `list_voice_members`: the members in a voice channel (the
/// given one, or any), ordered by channel ID text, then display name.
pub open spec fn list_voice_members_view(guild_id: u64, filter: Option<u64>, members: Seq<MemberRow>) -> JsonV {
    let shown = sort_by(members_connected(members, filter), member_order(members));
    JsonV::Object(
        seq![
            ("status"@, JsonV::Str("ok"@)),
            ("operation"@, JsonV::Str("list_voice_members"@)),
            ("guild_id"@, JsonV::Str(decimal(guild_id as nat))),
            ("channel_id"@, opt_id_view(filter)),
            ("member_count"@, count_json(shown.len())),
            ("members"@, JsonV::Array(members_at_view(MemberShape::Located, members, shown))),
        ],
    )
}

pub fn list_voice_members_reply(guild_id: u64, filter: Option<u64>, members: &Vec<MemberRow>) -> (r: Json)
    ensures
        r@ == list_voice_members_view(guild_id, filter, members@),
{
    let idx = list_voice_members(members, filter);
    let ghost iv = idx@;
    proof {
        crate::discord_tool::lemma_listed_members_in_range(members@, filter);
    }
    let n = idx.len();
    let shown = members_at(MemberShape::Located, members, &idx);
    let mut ms = new_members();
    push_member(&mut ms, "status", json_str("ok"));
    push_member(&mut ms, "operation", json_str("list_voice_members"));
    push_member(&mut ms, "guild_id", id_text(guild_id));
    let c = match filter {
        Some(v) => id_text(v),
        None => Json::Null,
    };
    push_member(&mut ms, "channel_id", c);
    push_member(&mut ms, "member_count", count(n));
    push_member(&mut ms, "members", array(shown));
    assert(members_view(ms@) =~= seq![
        ("status"@, JsonV::Str("ok"@)),
        ("operation"@, JsonV::Str("list_voice_members"@)),
        ("guild_id"@, JsonV::Str(decimal(guild_id as nat))),
        ("channel_id"@, opt_id_view(filter)),
        ("member_count"@, count_json(iv.len())),
        ("members"@, JsonV::Array(members_at_view(MemberShape::Located, members@, iv))),
    ]);
    object(ms)
}

} // verus!
