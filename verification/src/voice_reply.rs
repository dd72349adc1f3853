//! What the `voicevox-tool` answers the model: the catalog listings, and the
//! confirmations of what the voice system was asked to do.
use vstd::prelude::*;
use crate::text::{u64_string, decimal, take_at_most};
use crate::schema::{Json, JsonV, members_view, items_view};
use crate::tool_schema::{new_members, push_member, push_item, object, array, json_str};
use crate::catalog::{VoiceStyleEntry, StyleEntry, catalog, entries_view};
use crate::voicevox_tool::{
    list_voice_styles, list_voice_speakers, styles_listed, filter_key, speaker_table, speakers_listed,
    SpeakerRow, speaker_rows_view, VOICE_PARALLEL_COUNT_DEFAULT, VOICE_PARALLEL_COUNT_MAX,
};

verus! {

/// A number of the answer.
pub open spec fn number_json(n: nat) -> JsonV {
    JsonV::Number(decimal(n))
}

fn number(n: u64) -> (r: Json)
    ensures
        r@ == number_json(n as nat),
{
    Json::Number(u64_string(n))
}

/// A text of the answer, or `null`.
pub open spec fn opt_text_json(t: Option<Seq<char>>) -> JsonV {
    match t {
        Some(s) => JsonV::Str(s),
        None => JsonV::Null,
    }
}

fn opt_text(t: Option<&str>) -> (r: Json)
    ensures
        r@ == opt_text_json(
            match t {
                Some(s) => Some(s@),
                None => None,
            },
        ),
{
    match t {
        Some(s) => json_str(s),
        None => Json::Null,
    }
}

/// An ID as text, or `null`.
pub open spec fn opt_id_json(o: Option<u64>) -> JsonV {
    match o {
        Some(v) => JsonV::Str(decimal(v as nat)),
        None => JsonV::Null,
    }
}

fn opt_id(o: Option<u64>) -> (r: Json)
    ensures
        r@ == opt_id_json(o),
{
    match o {
        Some(v) => Json::Str(u64_string(v)),
        None => Json::Null,
    }
}

/// A style of the catalog as `list_voice_styles` shows it.
pub open spec fn style_json(e: StyleEntry) -> JsonV {
    JsonV::Object(
        seq![
            ("speaker"@, JsonV::Str(e.speaker_name)),
            ("style"@, JsonV::Str(e.style_name)),
            ("style_id"@, number_json(e.style_id as nat)),
            ("vvm_file"@, JsonV::Str(e.vvm_file)),
        ],
    )
}

/// The answer to `list_voice_styles`: the first `limit` styles whose
/// speaker's name holds the filter (case aside), and how many there are.
pub open spec fn list_styles_view(speaker_filter: Option<Seq<char>>, limit: nat) -> JsonV {
    let all = styles_listed(catalog(), filter_key(speaker_filter));
    let shown = take_at_most(all, limit);
    JsonV::Object(
        seq![
            ("status"@, JsonV::Str("ok"@)),
            ("operation"@, JsonV::Str("list_voice_styles"@)),
            ("speaker_filter"@, opt_text_json(speaker_filter)),
            ("returned"@, number_json(shown.len())),
            ("total_matches"@, number_json(all.len())),
            ("styles"@, JsonV::Array(shown.map_values(|e: StyleEntry| style_json(e)))),
        ],
    )
}

fn style_entry_json(e: &VoiceStyleEntry) -> (r: Json)
    ensures
        r@ == style_json(e@),
{
    let mut ms = new_members();
    push_member(&mut ms, "speaker", json_str(e.speaker_name.as_str()));
    push_member(&mut ms, "style", json_str(e.style_name.as_str()));
    push_member(&mut ms, "style_id", number(e.style_id as u64));
    push_member(&mut ms, "vvm_file", json_str(e.vvm_file.as_str()));
    assert(members_view(ms@) =~= seq![
        ("speaker"@, JsonV::Str(e@.speaker_name)),
        ("style"@, JsonV::Str(e@.style_name)),
        ("style_id"@, number_json(e@.style_id as nat)),
        ("vvm_file"@, JsonV::Str(e@.vvm_file)),
    ]);
    object(ms)
}

pub fn list_styles_reply(speaker_filter: Option<&str>, limit: usize) -> (r: Json)
    ensures
        r@ == list_styles_view(
            match speaker_filter {
                Some(f) => Some(f@),
                None => None,
            },
            limit as nat,
        ),
{
    let (rows, total) = list_voice_styles(speaker_filter, limit);
    let ghost rv = entries_view(rows@);
    let mut items: Vec<Json> = Vec::new();
    assert(items_view(items@) =~= Seq::<JsonV>::empty());
    let mut i: usize = 0;
    while i < rows.len()
        invariant
            i <= rows@.len(),
            rv == entries_view(rows@),
            items_view(items@) == rv.subrange(0, i as int).map_values(|e: StyleEntry| style_json(e)),
        decreases rows@.len() - i,
    {
        push_item(&mut items, style_entry_json(&rows[i]));
        assert(rv.subrange(0, i + 1).map_values(|e: StyleEntry| style_json(e)) =~= rv.subrange(
            0,
            i as int,
        ).map_values(|e: StyleEntry| style_json(e)).push(style_json(rv[i as int])));
        i = i + 1;
    }
    assert(rv.subrange(0, rv.len() as int) =~= rv);
    let n = rows.len();
    let mut ms = new_members();
    push_member(&mut ms, "status", json_str("ok"));
    push_member(&mut ms, "operation", json_str("list_voice_styles"));
    push_member(&mut ms, "speaker_filter", opt_text(speaker_filter));
    push_member(&mut ms, "returned", number(n as u64));
    push_member(&mut ms, "total_matches", number(total as u64));
    push_member(&mut ms, "styles", array(items));
    proof {
        let fv: Option<Seq<char>> = match speaker_filter {
            Some(f) => Some(f@),
            None => None,
        };
        let all = styles_listed(catalog(), filter_key(fv));
        assert(members_view(ms@) =~= seq![
            ("status"@, JsonV::Str("ok"@)),
            ("operation"@, JsonV::Str("list_voice_styles"@)),
            ("speaker_filter"@, opt_text_json(fv)),
            ("returned"@, number_json(take_at_most(all, limit as nat).len())),
            ("total_matches"@, number_json(all.len())),
            ("styles"@, JsonV::Array(take_at_most(all, limit as nat).map_values(|e: StyleEntry| style_json(e)))),
        ]);
    }
    object(ms)
}

/// A speaker as `list_voice_speakers` shows it.
pub open spec fn speaker_json(row: (Seq<char>, nat)) -> JsonV {
    JsonV::Object(seq![("speaker"@, JsonV::Str(row.0)), ("style_count"@, number_json(row.1))])
}

/// The answer to `list_voice_speakers`: the first `limit` speakers, in name
/// order, whose name holds the (lowercased) filter, with their style counts.
pub open spec fn list_speakers_view(name_filter: Option<Seq<char>>, limit: nat) -> JsonV {
    let all = speakers_listed(speaker_table(), name_filter);
    let shown = take_at_most(all, limit);
    JsonV::Object(
        seq![
            ("status"@, JsonV::Str("ok"@)),
            ("operation"@, JsonV::Str("list_voice_speakers"@)),
            ("returned"@, number_json(shown.len())),
            ("total_matches"@, number_json(all.len())),
            ("speakers"@, JsonV::Array(shown.map_values(|row: (Seq<char>, nat)| speaker_json(row)))),
        ],
    )
}

pub fn list_speakers_reply(name_filter: Option<&str>, limit: usize) -> (r: Json)
    ensures
        r@ == list_speakers_view(
            match name_filter {
                Some(f) => Some(f@),
                None => None,
            },
            limit as nat,
        ),
{
    let (rows, total) = list_voice_speakers(name_filter, limit);
    let ghost rv = speaker_rows_view(rows@);
    let mut items: Vec<Json> = Vec::new();
    assert(items_view(items@) =~= Seq::<JsonV>::empty());
    let mut i: usize = 0;
    while i < rows.len()
        invariant
            i <= rows@.len(),
            rv == speaker_rows_view(rows@),
            items_view(items@) == rv.subrange(0, i as int).map_values(|row: (Seq<char>, nat)| speaker_json(row)),
        decreases rows@.len() - i,
    {
        let row = &rows[i];
        let mut ms = new_members();
        push_member(&mut ms, "speaker", json_str(row.speaker.as_str()));
        push_member(&mut ms, "style_count", number(row.style_count as u64));
        assert(members_view(ms@) =~= seq![
            ("speaker"@, JsonV::Str(rv[i as int].0)),
            ("style_count"@, number_json(rv[i as int].1)),
        ]);
        push_item(&mut items, object(ms));
        assert(rv.subrange(0, i + 1).map_values(|row: (Seq<char>, nat)| speaker_json(row)) =~= rv.subrange(
            0,
            i as int,
        ).map_values(|row: (Seq<char>, nat)| speaker_json(row)).push(speaker_json(rv[i as int])));
        i = i + 1;
    }
    assert(rv.subrange(0, rv.len() as int) =~= rv);
    let n = rows.len();
    let mut ms = new_members();
    push_member(&mut ms, "status", json_str("ok"));
    push_member(&mut ms, "operation", json_str("list_voice_speakers"));
    push_member(&mut ms, "returned", number(n as u64));
    push_member(&mut ms, "total_matches", number(total as u64));
    push_member(&mut ms, "speakers", array(items));
    proof {
        let fv: Option<Seq<char>> = match name_filter {
            Some(f) => Some(f@),
            None => None,
        };
        let all = speakers_listed(speaker_table(), fv);
        assert(members_view(ms@) =~= seq![
            ("status"@, JsonV::Str("ok"@)),
            ("operation"@, JsonV::Str("list_voice_speakers"@)),
            ("returned"@, number_json(take_at_most(all, limit as nat).len())),
            ("total_matches"@, number_json(all.len())),
            (
                "speakers"@,
                JsonV::Array(take_at_most(all, limit as nat).map_values(|row: (Seq<char>, nat)| speaker_json(row))),
            ),
        ]);
    }
    object(ms)
}

/// `{"status": "ok", "operation": op, "guild_id": guild}` followed by
/// `rest`.
pub open spec fn voice_reply_view(op: Seq<char>, guild: Seq<char>, rest: Seq<(Seq<char>, JsonV)>) -> JsonV {
    JsonV::Object(
        seq![
            ("status"@, JsonV::Str("ok"@)),
            ("operation"@, JsonV::Str(op)),
            ("guild_id"@, JsonV::Str(guild)),
        ] + rest,
    )
}

fn reply_head(op: &str, guild_raw: &str) -> (r: Vec<(String, Json)>)
    ensures
        members_view(r@) == seq![
            ("status"@, JsonV::Str("ok"@)),
            ("operation"@, JsonV::Str(op@)),
            ("guild_id"@, JsonV::Str(guild_raw@)),
        ],
{
    let mut ms = new_members();
    push_member(&mut ms, "status", json_str("ok"));
    push_member(&mut ms, "operation", json_str(op));
    push_member(&mut ms, "guild_id", json_str(guild_raw));
    ms
}

/// The answer to `join_voice`.
pub open spec fn join_reply_view(guild: Seq<char>, voice_channel: u64, auto_read: bool, text_channel: Option<u64>) -> JsonV {
    voice_reply_view(
        "join_voice"@,
        guild,
        seq![
            ("voice_channel_id"@, JsonV::Str(decimal(voice_channel as nat))),
            ("auto_read"@, JsonV::Bool(auto_read)),
            ("text_channel_id"@, opt_id_json(text_channel)),
        ],
    )
}

pub fn join_reply(guild_raw: &str, voice_channel: u64, auto_read: bool, text_channel: Option<u64>) -> (r: Json)
    ensures
        r@ == join_reply_view(guild_raw@, voice_channel, auto_read, text_channel),
{
    let mut ms = reply_head("join_voice", guild_raw);
    let ghost head = members_view(ms@);
    push_member(&mut ms, "voice_channel_id", Json::Str(u64_string(voice_channel)));
    push_member(&mut ms, "auto_read", Json::Bool(auto_read));
    push_member(&mut ms, "text_channel_id", opt_id(text_channel));
    assert(members_view(ms@) =~= head + seq![
        ("voice_channel_id"@, JsonV::Str(decimal(voice_channel as nat))),
        ("auto_read"@, JsonV::Bool(auto_read)),
        ("text_channel_id"@, opt_id_json(text_channel)),
    ]);
    object(ms)
}

/// The answer to `leave_voice`.
pub fn leave_reply(guild_raw: &str) -> (r: Json)
    ensures
        r@ == voice_reply_view("leave_voice"@, guild_raw@, Seq::empty()),
{
    let ms = reply_head("leave_voice", guild_raw);
    assert(members_view(ms@) =~= members_view(ms@) + Seq::<(Seq<char>, JsonV)>::empty());
    object(ms)
}

/// The answer to `set_speaker`.
pub fn set_speaker_reply(guild_raw: &str, speaker: u32) -> (r: Json)
    ensures
        r@ == voice_reply_view("set_speaker"@, guild_raw@, seq![("speaker"@, number_json(speaker as nat))]),
{
    let mut ms = reply_head("set_speaker", guild_raw);
    let ghost head = members_view(ms@);
    push_member(&mut ms, "speaker", number(speaker as u64));
    assert(members_view(ms@) =~= head + seq![("speaker"@, number_json(speaker as nat))]);
    object(ms)
}

/// The answer to `set_auto_read`.
pub open spec fn auto_read_reply_view(guild: Seq<char>, enabled: bool, text_channel: Option<u64>) -> JsonV {
    voice_reply_view(
        "set_auto_read"@,
        guild,
        seq![("enabled"@, JsonV::Bool(enabled)), ("text_channel_id"@, opt_id_json(text_channel))],
    )
}

pub fn auto_read_reply(guild_raw: &str, enabled: bool, text_channel: Option<u64>) -> (r: Json)
    ensures
        r@ == auto_read_reply_view(guild_raw@, enabled, text_channel),
{
    let mut ms = reply_head("set_auto_read", guild_raw);
    let ghost head = members_view(ms@);
    push_member(&mut ms, "enabled", Json::Bool(enabled));
    push_member(&mut ms, "text_channel_id", opt_id(text_channel));
    assert(members_view(ms@) =~= head + seq![
        ("enabled"@, JsonV::Bool(enabled)),
        ("text_channel_id"@, opt_id_json(text_channel)),
    ]);
    object(ms)
}

/// "{min}..={max}", the range of read parallel counts.
pub open spec fn parallel_range_text() -> Seq<char> {
    decimal(VOICE_PARALLEL_COUNT_DEFAULT as nat) + "..="@ + decimal(VOICE_PARALLEL_COUNT_MAX as nat)
}

fn parallel_range() -> (r: Json)
    ensures
        r@ == JsonV::Str(parallel_range_text()),
{
    let mut s = u64_string(VOICE_PARALLEL_COUNT_DEFAULT as u64);
    crate::text::push_str(&mut s, "..=");
    let m = u64_string(VOICE_PARALLEL_COUNT_MAX as u64);
    crate::text::push_str(&mut s, m.as_str());
    Json::Str(s)
}

/// The answer to `set_parallel_read`.
pub open spec fn parallel_reply_view(guild: Seq<char>, text_channel: u64, parallel_count: nat, queue_limit: nat) -> JsonV {
    voice_reply_view(
        "set_parallel_read"@,
        guild,
        seq![
            ("text_channel_id"@, JsonV::Str(decimal(text_channel as nat))),
            ("parallel_count"@, number_json(parallel_count)),
            ("parallel_count_range"@, JsonV::Str(parallel_range_text())),
            ("sequential_queue_limit"@, number_json(queue_limit)),
        ],
    )
}

pub fn parallel_reply(guild_raw: &str, text_channel: u64, parallel_count: usize, queue_limit: usize) -> (r: Json)
    ensures
        r@ == parallel_reply_view(guild_raw@, text_channel, parallel_count as nat, queue_limit as nat),
{
    let mut ms = reply_head("set_parallel_read", guild_raw);
    let ghost head = members_view(ms@);
    push_member(&mut ms, "text_channel_id", Json::Str(u64_string(text_channel)));
    push_member(&mut ms, "parallel_count", number(parallel_count as u64));
    push_member(&mut ms, "parallel_count_range", parallel_range());
    push_member(&mut ms, "sequential_queue_limit", number(queue_limit as u64));
    assert(members_view(ms@) =~= head + seq![
        ("text_channel_id"@, JsonV::Str(decimal(text_channel as nat))),
        ("parallel_count"@, number_json(parallel_count as nat)),
        ("parallel_count_range"@, JsonV::Str(parallel_range_text())),
        ("sequential_queue_limit"@, number_json(queue_limit as nat)),
    ]);
    object(ms)
}

/// The answer to `speak_text`: the lengths in characters of the text asked
/// for and of the text queued (after the dictionary), where it is read, and
/// by which speaker (`null` for the server's).
pub open spec fn speak_reply_view(
    guild: Seq<char>,
    requested: Seq<char>,
    queued: Seq<char>,
    text_channel: u64,
    parallel_count: nat,
    speaker: Option<u32>,
) -> JsonV {
    voice_reply_view(
        "speak_text"@,
        guild,
        seq![
            ("requested_text_length"@, number_json(requested.len())),
            ("queued_text_length"@, number_json(queued.len())),
            ("text_channel_id"@, JsonV::Str(decimal(text_channel as nat))),
            ("parallel_count"@, number_json(parallel_count)),
            (
                "speaker"@,
                match speaker {
                    Some(s) => number_json(s as nat),
                    None => JsonV::Null,
                },
            ),
        ],
    )
}

pub fn speak_reply(
    guild_raw: &str,
    requested: &str,
    queued: &str,
    text_channel: u64,
    parallel_count: usize,
    speaker: Option<u32>,
) -> (r: Json)
    ensures
        r@ == speak_reply_view(guild_raw@, requested@, queued@, text_channel, parallel_count as nat, speaker),
{
    let mut ms = reply_head("speak_text", guild_raw);
    let ghost head = members_view(ms@);
    push_member(&mut ms, "requested_text_length", number(requested.unicode_len() as u64));
    push_member(&mut ms, "queued_text_length", number(queued.unicode_len() as u64));
    push_member(&mut ms, "text_channel_id", Json::Str(u64_string(text_channel)));
    push_member(&mut ms, "parallel_count", number(parallel_count as u64));
    let sp = match speaker {
        Some(s) => number(s as u64),
        None => Json::Null,
    };
    push_member(&mut ms, "speaker", sp);
    assert(members_view(ms@) =~= head + seq![
        ("requested_text_length"@, number_json(requested@.len())),
        ("queued_text_length"@, number_json(queued@.len())),
        ("text_channel_id"@, JsonV::Str(decimal(text_channel as nat))),
        ("parallel_count"@, number_json(parallel_count as nat)),
        (
            "speaker"@,
            match speaker {
                Some(s) => number_json(s as nat),
                None => JsonV::Null,
            },
        ),
    ]);
    object(ms)
}

/// The answer to `register_dictionary`: the entry as registered (trimmed),
/// whether it replaced one, and the channel's entry count and limit.
pub open spec fn dictionary_reply_view(
    guild: Seq<char>,
    text_channel: u64,
    source: Seq<char>,
    target: Seq<char>,
    updated: bool,
    entries: nat,
    limit: nat,
) -> JsonV {
    voice_reply_view(
        "register_dictionary"@,
        guild,
        seq![
            ("text_channel_id"@, JsonV::Str(decimal(text_channel as nat))),
            ("dictionary_source"@, JsonV::Str(crate::text::trim(source))),
            ("dictionary_target"@, JsonV::Str(crate::text::trim(target))),
            ("updated"@, JsonV::Bool(updated)),
            ("entries"@, number_json(entries)),
            ("entries_limit"@, number_json(limit)),
        ],
    )
}

pub fn dictionary_reply(
    guild_raw: &str,
    text_channel: u64,
    source: &str,
    target: &str,
    updated: bool,
    entries: usize,
    limit: usize,
) -> (r: Json)
    ensures
        r@ == dictionary_reply_view(guild_raw@, text_channel, source@, target@, updated, entries as nat, limit as nat),
{
    let mut ms = reply_head("register_dictionary", guild_raw);
    let ghost head = members_view(ms@);
    push_member(&mut ms, "text_channel_id", Json::Str(u64_string(text_channel)));
    push_member(&mut ms, "dictionary_source", Json::Str(crate::text::trim_str(source)));
    push_member(&mut ms, "dictionary_target", Json::Str(crate::text::trim_str(target)));
    push_member(&mut ms, "updated", Json::Bool(updated));
    push_member(&mut ms, "entries", number(entries as u64));
    push_member(&mut ms, "entries_limit", number(limit as u64));
    assert(members_view(ms@) =~= head + seq![
        ("text_channel_id"@, JsonV::Str(decimal(text_channel as nat))),
        ("dictionary_source"@, JsonV::Str(crate::text::trim(source@))),
        ("dictionary_target"@, JsonV::Str(crate::text::trim(target@))),
        ("updated"@, JsonV::Bool(updated)),
        ("entries"@, number_json(entries as nat)),
        ("entries_limit"@, number_json(limit as nat)),
    ]);
    object(ms)
}


/// What `status` reports of a server's voice reading.
pub struct VoiceStatus {
    /// The voice channel the bot is in.
    pub connected_voice_channel: Option<u64>,
    /// The text channel asked about.
    pub text_channel: Option<u64>,
    /// That channel, or else the server's auto-read channel.
    pub effective_text_channel: Option<u64>,
    /// Whether that channel is read aloud, its dictionary entry count and its
    /// read parallel count.
    pub auto_read_for_text_channel: Option<bool>,
    pub dictionary_entries_for_text_channel: Option<usize>,
    pub parallel_count_for_text_channel: Option<usize>,
    pub dictionary_entries_limit: usize,
    pub default_speaker: u32,
    pub sequential_queue_limit: usize,
    pub core_runtime: String,
    pub last_error: Option<String>,
}

/// An optional count, or `null`.
pub open spec fn opt_number_json(o: Option<usize>) -> JsonV {
    match o {
        Some(n) => number_json(n as nat),
        None => JsonV::Null,
    }
}

/// The answer to `status`.
pub open spec fn status_reply_view(guild: Seq<char>, st: VoiceStatus) -> JsonV {
    voice_reply_view(
        "status"@,
        guild,
        seq![
            ("connected_voice_channel_id"@, opt_id_json(st.connected_voice_channel)),
            (
                "auto_read_for_text_channel"@,
                match st.auto_read_for_text_channel {
                    Some(b) => JsonV::Bool(b),
                    None => JsonV::Null,
                },
            ),
            ("dictionary_entries_for_text_channel"@, opt_number_json(st.dictionary_entries_for_text_channel)),
            ("dictionary_entries_limit"@, number_json(st.dictionary_entries_limit as nat)),
            ("text_channel_id"@, opt_id_json(st.text_channel)),
            ("effective_text_channel_id"@, opt_id_json(st.effective_text_channel)),
            ("default_speaker"@, number_json(st.default_speaker as nat)),
            ("parallel_count_for_text_channel"@, opt_number_json(st.parallel_count_for_text_channel)),
            ("parallel_count_range"@, JsonV::Str(parallel_range_text())),
            ("sequential_queue_limit"@, number_json(st.sequential_queue_limit as nat)),
            ("voice_mode"@, JsonV::Str("voicevox_core_standalone"@)),
            ("core_runtime"@, JsonV::Str(st.core_runtime@)),
            (
                "last_error"@,
                opt_text_json(
                    match st.last_error {
                        Some(e) => Some(e@),
                        None => None,
                    },
                ),
            ),
        ],
    )
}

fn opt_number(o: Option<usize>) -> (r: Json)
    ensures
        r@ == opt_number_json(o),
{
    match o {
        Some(n) => number(n as u64),
        None => Json::Null,
    }
}

pub fn status_reply(guild_raw: &str, st: &VoiceStatus) -> (r: Json)
    ensures
        r@ == status_reply_view(guild_raw@, *st),
{
    let mut ms = reply_head("status", guild_raw);
    let ghost head = members_view(ms@);
    push_member(&mut ms, "connected_voice_channel_id", opt_id(st.connected_voice_channel));
    let ar = match st.auto_read_for_text_channel {
        Some(b) => Json::Bool(b),
        None => Json::Null,
    };
    push_member(&mut ms, "auto_read_for_text_channel", ar);
    push_member(&mut ms, "dictionary_entries_for_text_channel", opt_number(st.dictionary_entries_for_text_channel));
    push_member(&mut ms, "dictionary_entries_limit", number(st.dictionary_entries_limit as u64));
    push_member(&mut ms, "text_channel_id", opt_id(st.text_channel));
    push_member(&mut ms, "effective_text_channel_id", opt_id(st.effective_text_channel));
    push_member(&mut ms, "default_speaker", number(st.default_speaker as u64));
    push_member(&mut ms, "parallel_count_for_text_channel", opt_number(st.parallel_count_for_text_channel));
    push_member(&mut ms, "parallel_count_range", parallel_range());
    push_member(&mut ms, "sequential_queue_limit", number(st.sequential_queue_limit as u64));
    push_member(&mut ms, "voice_mode", json_str("voicevox_core_standalone"));
    push_member(&mut ms, "core_runtime", json_str(st.core_runtime.as_str()));
    let le = match &st.last_error {
        Some(e) => json_str(e.as_str()),
        None => Json::Null,
    };
    push_member(&mut ms, "last_error", le);
    proof {
        assert(members_view(ms@) =~= head + seq![
            ("connected_voice_channel_id"@, opt_id_json(st.connected_voice_channel)),
            (
                "auto_read_for_text_channel"@,
                match st.auto_read_for_text_channel {
                    Some(b) => JsonV::Bool(b),
                    None => JsonV::Null,
                },
            ),
            ("dictionary_entries_for_text_channel"@, opt_number_json(st.dictionary_entries_for_text_channel)),
            ("dictionary_entries_limit"@, number_json(st.dictionary_entries_limit as nat)),
            ("text_channel_id"@, opt_id_json(st.text_channel)),
            ("effective_text_channel_id"@, opt_id_json(st.effective_text_channel)),
            ("default_speaker"@, number_json(st.default_speaker as nat)),
            ("parallel_count_for_text_channel"@, opt_number_json(st.parallel_count_for_text_channel)),
            ("parallel_count_range"@, JsonV::Str(parallel_range_text())),
            ("sequential_queue_limit"@, number_json(st.sequential_queue_limit as nat)),
            ("voice_mode"@, JsonV::Str("voicevox_core_standalone"@)),
            ("core_runtime"@, JsonV::Str(st.core_runtime@)),
            (
                "last_error"@,
                opt_text_json(
                    match st.last_error {
                        Some(e) => Some(e@),
                        None => None,
                    },
                ),
            ),
        ]);
    }
    object(ms)
}

} // verus!
