//! The `voicevox-tool` of the language model: reading its arguments into a
//! request for the voice system, and the catalog listings it answers.
use vstd::prelude::*;
use crate::text::{
    push_str, str_eq, trim, trim_str, u64_string, decimal, lowercase_str, unicode_lowercase,
    take_at_most, lemma_take_at_most_push, contains_seq, contains_chars, str_to_chars, strs_view,
};
use crate::catalog::{
    VoiceStyleEntry, StyleEntry, entries, entries_view, catalog, speaker_names,
    catalog_speaker_names,
};
use crate::tool_args::{
    ArgValue, ToolArgs, arg, arg_str, arg_bool, arg_u64, missing_message, id_result, missing_param,
    parse_id_str,
};
use crate::schema::{Json, JsonV, members_view};
use crate::tool_schema::{
    object_schema_view, property_view, union_property_view, enum_property_view, schema_property,
    enum_values, lemma_str_items_contains, lemma_object_schema_property,
    lemma_enum_property_values, new_members, push_member, property, union_property, enum_property,
    object_schema,
};

verus! {

/// Lowest read parallel count of a text channel (sequential reading).
pub const VOICE_PARALLEL_COUNT_DEFAULT: usize = 1;

/// Highest read parallel count of a text channel.
pub const VOICE_PARALLEL_COUNT_MAX: usize = 4;

/// The `voicevox-tool`.
pub struct VoicevoxTool {}

/// How auto-read is switched: on or off for the given text channel; with no
/// channel (only when switched off), nothing is changed.
#[derive(Debug, Clone, Copy, PartialEq, Eq, Structural)]
pub struct AutoReadChange {
    pub enabled: bool,
    pub text_channel: Option<u64>,
}

/// What a call of the tool asks the voice system for, with its arguments read.
#[allow(inconsistent_fields)]
pub enum VoiceToolRequest {
    ListStyles { speaker_filter: Option<String>, limit: usize },
    ListSpeakers { name_filter: Option<String>, limit: usize },
    /// Join `channel_id`; then apply `after` (its error is reported after joining).
    JoinVoice { guild_id: u64, guild_raw: String, channel_id: u64, after: Result<AutoReadChange, String> },
    LeaveVoice { guild_id: u64, guild_raw: String },
    SpeakText {
        guild_id: u64,
        guild_raw: String,
        text: String,
        text_channel: Option<u64>,
        speaker: Option<u32>,
    },
    RegisterDictionary { guild_raw: String, text_channel_id: u64, source: String, target: String },
    SetAutoRead { guild_id: u64, guild_raw: String, change: AutoReadChange },
    SetParallelRead { guild_raw: String, text_channel: u64, parallel_count: usize },
    SetSpeaker { guild_id: u64, guild_raw: String, speaker: u32 },
    /// The speaker update; the scale and pan updates are numbers read by the caller.
    SetUserVoice { guild_raw: String, user_raw: String, user_id: u64, speaker: Option<Option<u32>> },
    GetUserVoice { guild_raw: String, user_raw: String, user_id: u64 },
    Status { guild_id: u64, guild_raw: String, text_channel: Option<u64> },
}

/// A [`VoiceToolRequest`] with its strings as character sequences.
#[allow(inconsistent_fields)]
pub enum VoiceRequest {
    ListStyles { speaker_filter: Option<Seq<char>>, limit: usize },
    ListSpeakers { name_filter: Option<Seq<char>>, limit: usize },
    JoinVoice {
        guild_id: u64,
        guild_raw: Seq<char>,
        channel_id: u64,
        after: Result<AutoReadChange, Seq<char>>,
    },
    LeaveVoice { guild_id: u64, guild_raw: Seq<char> },
    SpeakText {
        guild_id: u64,
        guild_raw: Seq<char>,
        text: Seq<char>,
        text_channel: Option<u64>,
        speaker: Option<u32>,
    },
    RegisterDictionary {
        guild_raw: Seq<char>,
        text_channel_id: u64,
        source: Seq<char>,
        target: Seq<char>,
    },
    SetAutoRead { guild_id: u64, guild_raw: Seq<char>, change: AutoReadChange },
    SetParallelRead { guild_raw: Seq<char>, text_channel: u64, parallel_count: usize },
    SetSpeaker { guild_id: u64, guild_raw: Seq<char>, speaker: u32 },
    SetUserVoice {
        guild_raw: Seq<char>,
        user_raw: Seq<char>,
        user_id: u64,
        speaker: Option<Option<u32>>,
    },
    GetUserVoice { guild_raw: Seq<char>, user_raw: Seq<char>, user_id: u64 },
    Status { guild_id: u64, guild_raw: Seq<char>, text_channel: Option<u64> },
}

pub open spec fn opt_view(o: Option<String>) -> Option<Seq<char>> {
    match o {
        Some(s) => Some(s@),
        None => None,
    }
}

pub open spec fn res_view<T>(r: Result<T, String>) -> Result<T, Seq<char>> {
    match r {
        Ok(v) => Ok(v),
        Err(e) => Err(e@),
    }
}

impl View for VoiceToolRequest {
    type V = VoiceRequest;

    open spec fn view(&self) -> VoiceRequest {
        match self {
            VoiceToolRequest::ListStyles { speaker_filter, limit } => VoiceRequest::ListStyles {
                speaker_filter: opt_view(*speaker_filter),
                limit: *limit,
            },
            VoiceToolRequest::ListSpeakers { name_filter, limit } => VoiceRequest::ListSpeakers {
                name_filter: opt_view(*name_filter),
                limit: *limit,
            },
            VoiceToolRequest::JoinVoice { guild_id, guild_raw, channel_id, after } =>
                VoiceRequest::JoinVoice {
                guild_id: *guild_id,
                guild_raw: guild_raw@,
                channel_id: *channel_id,
                after: res_view(*after),
            },
            VoiceToolRequest::LeaveVoice { guild_id, guild_raw } => VoiceRequest::LeaveVoice {
                guild_id: *guild_id,
                guild_raw: guild_raw@,
            },
            VoiceToolRequest::SpeakText { guild_id, guild_raw, text, text_channel, speaker } =>
                VoiceRequest::SpeakText {
                guild_id: *guild_id,
                guild_raw: guild_raw@,
                text: text@,
                text_channel: *text_channel,
                speaker: *speaker,
            },
            VoiceToolRequest::RegisterDictionary { guild_raw, text_channel_id, source, target } =>
                VoiceRequest::RegisterDictionary {
                guild_raw: guild_raw@,
                text_channel_id: *text_channel_id,
                source: source@,
                target: target@,
            },
            VoiceToolRequest::SetAutoRead { guild_id, guild_raw, change } =>
                VoiceRequest::SetAutoRead {
                guild_id: *guild_id,
                guild_raw: guild_raw@,
                change: *change,
            },
            VoiceToolRequest::SetParallelRead { guild_raw, text_channel, parallel_count } =>
                VoiceRequest::SetParallelRead {
                guild_raw: guild_raw@,
                text_channel: *text_channel,
                parallel_count: *parallel_count,
            },
            VoiceToolRequest::SetSpeaker { guild_id, guild_raw, speaker } =>
                VoiceRequest::SetSpeaker {
                guild_id: *guild_id,
                guild_raw: guild_raw@,
                speaker: *speaker,
            },
            VoiceToolRequest::SetUserVoice { guild_raw, user_raw, user_id, speaker } =>
                VoiceRequest::SetUserVoice {
                guild_raw: guild_raw@,
                user_raw: user_raw@,
                user_id: *user_id,
                speaker: *speaker,
            },
            VoiceToolRequest::GetUserVoice { guild_raw, user_raw, user_id } =>
                VoiceRequest::GetUserVoice {
                guild_raw: guild_raw@,
                user_raw: user_raw@,
                user_id: *user_id,
            },
            VoiceToolRequest::Status { guild_id, guild_raw, text_channel } =>
                VoiceRequest::Status {
                guild_id: *guild_id,
                guild_raw: guild_raw@,
                text_channel: *text_channel,
            },
        }
    }
}

/// A required string argument.
pub open spec fn str_arg_result(a: ToolArgs, key: Seq<char>) -> Result<Seq<char>, Seq<char>> {
    match arg_str(a, key) {
        Some(s) => Ok(s),
        None => Err(missing_message(key)),
    }
}

/// An ID given as a number or as a decimal string.
pub open spec fn id_value_result(v: ArgValue, key: Seq<char>) -> Result<u64, Seq<char>> {
    match v {
        ArgValue::Unsigned(n) => Ok(n),
        ArgValue::Text(s) => id_result(s@, key),
        _ => Err(missing_message(key)),
    }
}

/// The `guild_id` argument, parsed and as given.
pub open spec fn guild_result(a: ToolArgs) -> Result<(u64, Seq<char>), Seq<char>> {
    match str_arg_result(a, "guild_id"@) {
        Err(e) => Err(e),
        Ok(raw) => match id_result(raw, "guild_id"@) {
            Ok(id) => Ok((id, raw)),
            Err(e) => Err(e),
        },
    }
}

/// An optional channel ID: absent, or an ID.
pub open spec fn optional_channel_result(a: ToolArgs, key: Seq<char>) -> Result<Option<u64>, Seq<char>> {
    match arg(a, key) {
        None => Ok(None),
        Some(v) => match id_value_result(v, key) {
            Ok(id) => Ok(Some(id)),
            Err(e) => Err(e),
        },
    }
}

/// "'{key}' must be <= 4294967295".
pub open spec fn too_large_u32_message(key: Seq<char>) -> Seq<char> {
    "'"@ + key + "' must be <= "@ + decimal(u32::MAX as nat)
}

/// An ID-like value that must fit in `u32`.
pub open spec fn u32_value_result(v: ArgValue, key: Seq<char>) -> Result<u32, Seq<char>> {
    match id_value_result(v, key) {
        Ok(n) => if n <= u32::MAX {
            Ok(n as u32)
        } else {
            Err(too_large_u32_message(key))
        },
        Err(e) => Err(e),
    }
}

/// An optional `u32` setting: absent (no change), `null` (cleared), or a value.
pub open spec fn u32_setting_result(a: ToolArgs, key: Seq<char>) -> Result<Option<Option<u32>>, Seq<char>> {
    match arg(a, key) {
        None => Ok(None),
        Some(ArgValue::Null) => Ok(Some(None)),
        Some(v) => match u32_value_result(v, key) {
            Ok(n) => Ok(Some(Some(n))),
            Err(e) => Err(e),
        },
    }
}

/// A required `u32` argument.
pub open spec fn u32_result(a: ToolArgs, key: Seq<char>) -> Result<u32, Seq<char>> {
    match arg(a, key) {
        None => Err(missing_message(key)),
        Some(v) => u32_value_result(v, key),
    }
}

pub open spec fn clamp(v: int, lo: int, hi: int) -> int {
    if v < lo {
        lo
    } else if v > hi {
        hi
    } else {
        v
    }
}

/// A list limit: the given unsigned number, or `default`, kept in `1..=max`.
pub open spec fn limit_value(a: ToolArgs, key: Seq<char>, default: usize, max: usize) -> usize {
    let v = match arg_u64(a, key) {
        Some(n) => if n <= usize::MAX {
            n as int
        } else {
            default as int
        },
        None => default as int,
    };
    clamp(v, 1, max as int) as usize
}

/// "'{key}' is too large for this platform".
pub open spec fn too_large_platform_message(key: Seq<char>) -> Seq<char> {
    "'"@ + key + "' is too large for this platform"@
}

/// A read parallel count: `default` when absent, else kept in the range.
pub open spec fn parallel_count_result(a: ToolArgs, key: Seq<char>, default: usize) -> Result<usize, Seq<char>> {
    match arg(a, key) {
        None => Ok(default),
        Some(v) => match id_value_result(v, key) {
            Ok(n) => if n > usize::MAX {
                Err(too_large_platform_message(key))
            } else {
                Ok(
                    clamp(
                        n as int,
                        VOICE_PARALLEL_COUNT_DEFAULT as int,
                        VOICE_PARALLEL_COUNT_MAX as int,
                    ) as usize,
                )
            },
            Err(e) => Err(e),
        },
    }
}

/// An optional string argument, trimmed.
pub open spec fn optional_trimmed(a: ToolArgs, key: Seq<char>) -> Option<Seq<char>> {
    match arg_str(a, key) {
        Some(s) => Some(trim(s)),
        None => None,
    }
}

/// An optional string argument, trimmed, kept only when not empty.
pub open spec fn nonempty_trimmed(a: ToolArgs, key: Seq<char>) -> Option<Seq<char>> {
    match optional_trimmed(a, key) {
        Some(s) => if s.len() > 0 {
            Some(s)
        } else {
            None
        },
        None => None,
    }
}

/// The auto-read switch: turning it on needs a text channel.
pub open spec fn auto_read_result(enabled: bool, text_channel: Option<u64>) -> Result<AutoReadChange, Seq<char>> {
    if enabled && text_channel is None {
        Err("'text_channel_id' is required when enabled=true"@)
    } else {
        Ok(AutoReadChange { enabled, text_channel })
    }
}

pub open spec fn unsupported_operation_message(op: Seq<char>) -> Seq<char> {
    "Unsupported 'operation': "@ + op
        + ". Use one of: join_voice, leave_voice, speak_text, register_dictionary, set_auto_read, set_parallel_read, set_speaker, set_user_voice, get_user_voice, list_voice_styles, list_voice_speakers, status."@
}

pub open spec fn join_request(a: ToolArgs, gid: u64, graw: Seq<char>) -> Result<VoiceRequest, Seq<char>> {
    match arg(a, "channel_id"@) {
        None => Err(missing_message("channel_id"@)),
        Some(v) => match id_value_result(v, "channel_id"@) {
            Err(e) => Err(e),
            Ok(ch) => Ok(
                VoiceRequest::JoinVoice {
                    guild_id: gid,
                    guild_raw: graw,
                    channel_id: ch,
                    after: match optional_channel_result(a, "text_channel_id"@) {
                        Err(e) => Err(e),
                        Ok(tc) => auto_read_result(
                            match arg_bool(a, "enabled"@) {
                                Some(b) => b,
                                None => false,
                            },
                            tc,
                        ),
                    },
                },
            ),
        },
    }
}

pub open spec fn speak_request(a: ToolArgs, gid: u64, graw: Seq<char>) -> Result<VoiceRequest, Seq<char>> {
    match str_arg_result(a, "text"@) {
        Err(e) => Err(e),
        Ok(text) => match optional_channel_result(a, "text_channel_id"@) {
            Err(e) => Err(e),
            Ok(tc) => match u32_setting_result(a, "speaker"@) {
                Err(e) => Err(e),
                Ok(sp) => Ok(
                    VoiceRequest::SpeakText {
                        guild_id: gid,
                        guild_raw: graw,
                        text,
                        text_channel: tc,
                        speaker: match sp {
                            Some(s) => s,
                            None => None,
                        },
                    },
                ),
            },
        },
    }
}

pub open spec fn dictionary_request(a: ToolArgs, graw: Seq<char>) -> Result<VoiceRequest, Seq<char>> {
    match arg(a, "text_channel_id"@) {
        None => Err(missing_message("text_channel_id"@)),
        Some(v) => match id_value_result(v, "text_channel_id"@) {
            Err(e) => Err(e),
            Ok(tc) => match str_arg_result(a, "dictionary_source"@) {
                Err(e) => Err(e),
                Ok(source) => match str_arg_result(a, "dictionary_target"@) {
                    Err(e) => Err(e),
                    Ok(target) => Ok(
                        VoiceRequest::RegisterDictionary {
                            guild_raw: graw,
                            text_channel_id: tc,
                            source,
                            target,
                        },
                    ),
                },
            },
        },
    }
}

pub open spec fn auto_read_request(a: ToolArgs, gid: u64, graw: Seq<char>) -> Result<VoiceRequest, Seq<char>> {
    match arg_bool(a, "enabled"@) {
        None => Err(missing_message("enabled"@)),
        Some(enabled) => match optional_channel_result(a, "text_channel_id"@) {
            Err(e) => Err(e),
            Ok(tc) => match auto_read_result(enabled, tc) {
                Err(e) => Err(e),
                Ok(change) => Ok(VoiceRequest::SetAutoRead { guild_id: gid, guild_raw: graw, change }),
            },
        },
    }
}

pub open spec fn parallel_request(a: ToolArgs, graw: Seq<char>) -> Result<VoiceRequest, Seq<char>> {
    match optional_channel_result(a, "text_channel_id"@) {
        Err(e) => Err(e),
        Ok(None) => Err("'text_channel_id' is required for set_parallel_read"@),
        Ok(Some(tc)) => {
            let count = if arg(a, "parallel_count"@) is Some {
                parallel_count_result(a, "parallel_count"@, VOICE_PARALLEL_COUNT_DEFAULT)
            } else if arg_bool(a, "enabled"@) == Some(true) {
                Ok(2usize)
            } else {
                Ok(VOICE_PARALLEL_COUNT_DEFAULT)
            };
            match count {
                Err(e) => Err(e),
                Ok(n) => Ok(
                    VoiceRequest::SetParallelRead { guild_raw: graw, text_channel: tc, parallel_count: n },
                ),
            }
        },
    }
}

pub open spec fn speaker_request(a: ToolArgs, gid: u64, graw: Seq<char>) -> Result<VoiceRequest, Seq<char>> {
    match u32_result(a, "speaker"@) {
        Err(e) => Err(e),
        Ok(sp) => Ok(VoiceRequest::SetSpeaker { guild_id: gid, guild_raw: graw, speaker: sp }),
    }
}

/// `set_user_voice` when `set` holds, `get_user_voice` otherwise.
pub open spec fn user_request(a: ToolArgs, set: bool, graw: Seq<char>) -> Result<VoiceRequest, Seq<char>> {
    match str_arg_result(a, "user_id"@) {
        Err(e) => Err(e),
        Ok(uraw) => match id_result(uraw, "user_id"@) {
            Err(e) => Err(e),
            Ok(uid) => if !set {
                Ok(VoiceRequest::GetUserVoice { guild_raw: graw, user_raw: uraw, user_id: uid })
            } else {
                match u32_setting_result(a, "speaker"@) {
                    Err(e) => Err(e),
                    Ok(sp) => Ok(
                        VoiceRequest::SetUserVoice {
                            guild_raw: graw,
                            user_raw: uraw,
                            user_id: uid,
                            speaker: sp,
                        },
                    ),
                }
            },
        },
    }
}

pub open spec fn status_request(a: ToolArgs, gid: u64, graw: Seq<char>) -> Result<VoiceRequest, Seq<char>> {
    match optional_channel_result(a, "text_channel_id"@) {
        Err(e) => Err(e),
        Ok(tc) => Ok(VoiceRequest::Status { guild_id: gid, guild_raw: graw, text_channel: tc }),
    }
}

/// The request for an operation that needs a guild, after `guild_id` is read.
pub open spec fn guild_request(a: ToolArgs, op: Seq<char>, gid: u64, graw: Seq<char>) -> Result<VoiceRequest, Seq<char>> {
    if op == "join_voice"@ {
        join_request(a, gid, graw)
    } else if op == "leave_voice"@ {
        Ok(VoiceRequest::LeaveVoice { guild_id: gid, guild_raw: graw })
    } else if op == "speak_text"@ {
        speak_request(a, gid, graw)
    } else if op == "register_dictionary"@ {
        dictionary_request(a, graw)
    } else if op == "set_auto_read"@ {
        auto_read_request(a, gid, graw)
    } else if op == "set_parallel_read"@ {
        parallel_request(a, graw)
    } else if op == "set_speaker"@ {
        speaker_request(a, gid, graw)
    } else if op == "set_user_voice"@ {
        user_request(a, true, graw)
    } else if op == "get_user_voice"@ {
        user_request(a, false, graw)
    } else {
        status_request(a, gid, graw)
    }
}

pub open spec fn is_guild_operation(op: Seq<char>) -> bool {
    ||| op == "join_voice"@
    ||| op == "leave_voice"@
    ||| op == "speak_text"@
    ||| op == "register_dictionary"@
    ||| op == "set_auto_read"@
    ||| op == "set_parallel_read"@
    ||| op == "set_speaker"@
    ||| op == "set_user_voice"@
    ||| op == "get_user_voice"@
    ||| op == "status"@
}

/// What a call of the tool asks for, or the error it is answered with
/// before anything is done.
pub open spec fn voice_request(a: ToolArgs) -> Result<VoiceRequest, Seq<char>> {
    match arg_str(a, "operation"@) {
        None => Err("Missing or invalid 'operation' parameter"@),
        Some(op) => if op == "list_voice_styles"@ {
            Ok(
                VoiceRequest::ListStyles {
                    speaker_filter: nonempty_trimmed(a, "speaker_name"@),
                    limit: limit_value(a, "limit"@, 128, 512),
                },
            )
        } else if op == "list_voice_speakers"@ {
            Ok(
                VoiceRequest::ListSpeakers {
                    name_filter: match nonempty_trimmed(a, "speaker_name"@) {
                        Some(s) => Some(unicode_lowercase(s)),
                        None => None,
                    },
                    limit: limit_value(a, "limit"@, 128, 512),
                },
            )
        } else if is_guild_operation(op) {
            match guild_result(a) {
                Err(e) => Err(e),
                Ok((gid, graw)) => guild_request(a, op, gid, graw),
            }
        } else {
            Err(unsupported_operation_message(op))
        },
    }
}

impl VoicevoxTool {
    pub fn new() -> (r: Self) {
        VoicevoxTool {  }
    }

    /// A required string argument.
    pub fn get_str_arg(args: &ToolArgs, key: &str) -> (r: Result<String, String>)
        ensures
            match r {
                Ok(s) => str_arg_result(*args, key@) == Ok::<Seq<char>, Seq<char>>(s@),
                Err(e) => str_arg_result(*args, key@) == Err::<Seq<char>, Seq<char>>(e@),
            },
    {
        match args.get_str(key) {
            Some(s) => Ok(s),
            None => Err(missing_param(key)),
        }
    }

    /// A required boolean argument.
    pub fn get_bool_arg(args: &ToolArgs, key: &str) -> (r: Result<bool, String>)
        ensures
            res_view(r) == match arg_bool(*args, key@) {
                Some(b) => Ok::<bool, Seq<char>>(b),
                None => Err(missing_message(key@)),
            },
    {
        match args.get_bool(key) {
            Some(b) => Ok(b),
            None => Err(missing_param(key)),
        }
    }

    /// An optional string argument, trimmed.
    pub fn get_optional_str_arg(args: &ToolArgs, key: &str) -> (r: Option<String>)
        ensures
            opt_view(r) == optional_trimmed(*args, key@),
    {
        match args.get_str(key) {
            Some(s) => Some(trim_str(s.as_str())),
            None => None,
        }
    }

    /// A decimal ID: "Invalid '{key}': {error}" when it is not a `u64`.
    pub fn parse_id(raw: &str, key: &str) -> (r: Result<u64, String>)
        ensures
            res_view(r) == id_result(raw@, key@),
    {
        parse_id_str(raw, key)
    }

    /// An ID given as a number or as a decimal string.
    pub fn parse_id_value(raw: &ArgValue, key: &str) -> (r: Result<u64, String>)
        ensures
            res_view(r) == id_value_result(*raw, key@),
    {
        match raw {
            ArgValue::Unsigned(n) => Ok(*n),
            ArgValue::Text(s) => Self::parse_id(s.as_str(), key),
            _ => Err(missing_param(key)),
        }
    }

    /// The `guild_id` argument, parsed and as given.
    pub fn get_guild_arg(args: &ToolArgs) -> (r: Result<(u64, String), String>)
        ensures
            match r {
                Ok((id, raw)) => guild_result(*args) == Ok::<(u64, Seq<char>), Seq<char>>((id, raw@)),
                Err(e) => guild_result(*args) == Err::<(u64, Seq<char>), Seq<char>>(e@),
            },
    {
        let raw = match Self::get_str_arg(args, "guild_id") {
            Ok(s) => s,
            Err(e) => {
                return Err(e);
            },
        };
        match Self::parse_id(raw.as_str(), "guild_id") {
            Ok(id) => Ok((id, raw)),
            Err(e) => Err(e),
        }
    }

    /// An optional channel ID.
    pub fn get_optional_channel_arg(args: &ToolArgs, key: &str) -> (r: Result<Option<u64>, String>)
        ensures
            res_view(r) == optional_channel_result(*args, key@),
    {
        match args.get(key) {
            None => Ok(None),
            Some(v) => match Self::parse_id_value(v, key) {
                Ok(id) => Ok(Some(id)),
                Err(e) => Err(e),
            },
        }
    }

    fn too_large_u32(key: &str) -> (r: String)
        ensures
            r@ == too_large_u32_message(key@),
    {
        let mut s = String::new();
        push_str(&mut s, "'");
        push_str(&mut s, key);
        push_str(&mut s, "' must be <= ");
        let n = u64_string(4294967295);
        push_str(&mut s, n.as_str());
        s
    }

    fn u32_value(v: &ArgValue, key: &str) -> (r: Result<u32, String>)
        ensures
            res_view(r) == u32_value_result(*v, key@),
    {
        match Self::parse_id_value(v, key) {
            Ok(n) => if n <= 4294967295 {
                Ok(n as u32)
            } else {
                Err(Self::too_large_u32(key))
            },
            Err(e) => Err(e),
        }
    }

    /// An optional `u32` setting: absent, `null`, or a value.
    pub fn get_optional_u32_setting(args: &ToolArgs, key: &str) -> (r: Result<Option<Option<u32>>, String>)
        ensures
            res_view(r) == u32_setting_result(*args, key@),
    {
        match args.get(key) {
            None => Ok(None),
            Some(ArgValue::Null) => Ok(Some(None)),
            Some(v) => match Self::u32_value(v, key) {
                Ok(n) => Ok(Some(Some(n))),
                Err(e) => Err(e),
            },
        }
    }

    /// A required `u32` argument.
    pub fn parse_u32(args: &ToolArgs, key: &str) -> (r: Result<u32, String>)
        ensures
            res_view(r) == u32_result(*args, key@),
    {
        match args.get(key) {
            None => Err(missing_param(key)),
            Some(v) => Self::u32_value(v, key),
        }
    }

    /// A list limit kept in `1..=max`.
    pub fn parse_limit_arg(args: &ToolArgs, key: &str, default: usize, max: usize) -> (r: usize)
        requires
            max >= 1,
        ensures
            r == limit_value(*args, key@, default, max),
    {
        let value: usize = match args.get_u64(key) {
            Some(n) => if n <= usize::MAX as u64 {
                n as usize
            } else {
                default
            },
            None => default,
        };
        if value < 1 {
            1
        } else if value > max {
            max
        } else {
            value
        }
    }

    /// A read parallel count: `default` when absent, else kept in the range.
    pub fn parse_parallel_count_arg(args: &ToolArgs, key: &str, default: usize) -> (r: Result<usize, String>)
        ensures
            res_view(r) == parallel_count_result(*args, key@, default),
    {
        let raw = match args.get(key) {
            None => {
                return Ok(default);
            },
            Some(v) => v,
        };
        let value = match Self::parse_id_value(raw, key) {
            Ok(n) => n,
            Err(e) => {
                return Err(e);
            },
        };
        if value > usize::MAX as u64 {
            let mut s = String::new();
            push_str(&mut s, "'");
            push_str(&mut s, key);
            push_str(&mut s, "' is too large for this platform");
            return Err(s);
        }
        let v = value as usize;
        if v < VOICE_PARALLEL_COUNT_DEFAULT {
            Ok(VOICE_PARALLEL_COUNT_DEFAULT)
        } else if v > VOICE_PARALLEL_COUNT_MAX {
            Ok(VOICE_PARALLEL_COUNT_MAX)
        } else {
            Ok(v)
        }
    }
}

pub open spec fn request_result_matches(r: Result<VoiceToolRequest, String>, spec: Result<VoiceRequest, Seq<char>>) -> bool {
    match r {
        Ok(p) => spec == Ok::<VoiceRequest, Seq<char>>(p@),
        Err(e) => spec == Err::<VoiceRequest, Seq<char>>(e@),
    }
}

impl VoicevoxTool {
    fn auto_read(enabled: bool, text_channel: Option<u64>) -> (r: Result<AutoReadChange, String>)
        ensures
            res_view(r) == auto_read_result(enabled, text_channel),
    {
        if enabled && text_channel.is_none() {
            Err(String::from_str("'text_channel_id' is required when enabled=true"))
        } else {
            Ok(AutoReadChange { enabled, text_channel })
        }
    }

    fn plan_join(args: &ToolArgs, guild_id: u64, guild_raw: String) -> (r: Result<VoiceToolRequest, String>)
        ensures
            request_result_matches(r, join_request(*args, guild_id, guild_raw@)),
    {
        let channel_raw = match args.get("channel_id") {
            Some(v) => v,
            None => {
                return Err(missing_param("channel_id"));
            },
        };
        let channel_id = match Self::parse_id_value(channel_raw, "channel_id") {
            Ok(id) => id,
            Err(e) => {
                return Err(e);
            },
        };
        let enabled = match args.get_bool("enabled") {
            Some(b) => b,
            None => false,
        };
        let after = match Self::get_optional_channel_arg(args, "text_channel_id") {
            Err(e) => Err(e),
            Ok(tc) => Self::auto_read(enabled, tc),
        };
        Ok(VoiceToolRequest::JoinVoice { guild_id, guild_raw, channel_id, after })
    }

    fn plan_speak(args: &ToolArgs, guild_id: u64, guild_raw: String) -> (r: Result<VoiceToolRequest, String>)
        ensures
            request_result_matches(r, speak_request(*args, guild_id, guild_raw@)),
    {
        let text = match Self::get_str_arg(args, "text") {
            Ok(t) => t,
            Err(e) => {
                return Err(e);
            },
        };
        let text_channel = match Self::get_optional_channel_arg(args, "text_channel_id") {
            Ok(tc) => tc,
            Err(e) => {
                return Err(e);
            },
        };
        let speaker = match Self::get_optional_u32_setting(args, "speaker") {
            Ok(Some(sp)) => sp,
            Ok(None) => None,
            Err(e) => {
                return Err(e);
            },
        };
        Ok(VoiceToolRequest::SpeakText { guild_id, guild_raw, text, text_channel, speaker })
    }

    fn plan_dictionary(args: &ToolArgs, guild_raw: String) -> (r: Result<VoiceToolRequest, String>)
        ensures
            request_result_matches(r, dictionary_request(*args, guild_raw@)),
    {
        let raw = match args.get("text_channel_id") {
            Some(v) => v,
            None => {
                return Err(missing_param("text_channel_id"));
            },
        };
        let text_channel_id = match Self::parse_id_value(raw, "text_channel_id") {
            Ok(id) => id,
            Err(e) => {
                return Err(e);
            },
        };
        let source = match Self::get_str_arg(args, "dictionary_source") {
            Ok(t) => t,
            Err(e) => {
                return Err(e);
            },
        };
        let target = match Self::get_str_arg(args, "dictionary_target") {
            Ok(t) => t,
            Err(e) => {
                return Err(e);
            },
        };
        Ok(VoiceToolRequest::RegisterDictionary { guild_raw, text_channel_id, source, target })
    }

    fn plan_auto_read(args: &ToolArgs, guild_id: u64, guild_raw: String) -> (r: Result<VoiceToolRequest, String>)
        ensures
            request_result_matches(r, auto_read_request(*args, guild_id, guild_raw@)),
    {
        let enabled = match Self::get_bool_arg(args, "enabled") {
            Ok(b) => b,
            Err(e) => {
                return Err(e);
            },
        };
        let text_channel = match Self::get_optional_channel_arg(args, "text_channel_id") {
            Ok(tc) => tc,
            Err(e) => {
                return Err(e);
            },
        };
        match Self::auto_read(enabled, text_channel) {
            Ok(change) => Ok(VoiceToolRequest::SetAutoRead { guild_id, guild_raw, change }),
            Err(e) => Err(e),
        }
    }

    fn plan_parallel(args: &ToolArgs, guild_raw: String) -> (r: Result<VoiceToolRequest, String>)
        ensures
            request_result_matches(r, parallel_request(*args, guild_raw@)),
    {
        let text_channel = match Self::get_optional_channel_arg(args, "text_channel_id") {
            Ok(Some(tc)) => tc,
            Ok(None) => {
                return Err(String::from_str("'text_channel_id' is required for set_parallel_read"));
            },
            Err(e) => {
                return Err(e);
            },
        };
        let parallel_count = if args.has("parallel_count") {
            match Self::parse_parallel_count_arg(args, "parallel_count", VOICE_PARALLEL_COUNT_DEFAULT) {
                Ok(n) => n,
                Err(e) => {
                    return Err(e);
                },
            }
        } else {
            let enabled = match args.get_bool("enabled") {
                Some(b) => b,
                None => false,
            };
            if enabled {
                2
            } else {
                VOICE_PARALLEL_COUNT_DEFAULT
            }
        };
        Ok(VoiceToolRequest::SetParallelRead { guild_raw, text_channel, parallel_count })
    }

    fn plan_user(args: &ToolArgs, set: bool, guild_raw: String) -> (r: Result<VoiceToolRequest, String>)
        ensures
            request_result_matches(r, user_request(*args, set, guild_raw@)),
    {
        let user_raw = match Self::get_str_arg(args, "user_id") {
            Ok(t) => t,
            Err(e) => {
                return Err(e);
            },
        };
        let user_id = match Self::parse_id(user_raw.as_str(), "user_id") {
            Ok(id) => id,
            Err(e) => {
                return Err(e);
            },
        };
        if !set {
            return Ok(VoiceToolRequest::GetUserVoice { guild_raw, user_raw, user_id });
        }
        match Self::get_optional_u32_setting(args, "speaker") {
            Ok(speaker) => Ok(VoiceToolRequest::SetUserVoice { guild_raw, user_raw, user_id, speaker }),
            Err(e) => Err(e),
        }
    }

    fn plan_guild(args: &ToolArgs, op: &str, guild_id: u64, guild_raw: String) -> (r: Result<VoiceToolRequest, String>)
        requires
            is_guild_operation(op@),
        ensures
            request_result_matches(r, guild_request(*args, op@, guild_id, guild_raw@)),
    {
        if str_eq(op, "join_voice") {
            Self::plan_join(args, guild_id, guild_raw)
        } else if str_eq(op, "leave_voice") {
            Ok(VoiceToolRequest::LeaveVoice { guild_id, guild_raw })
        } else if str_eq(op, "speak_text") {
            Self::plan_speak(args, guild_id, guild_raw)
        } else if str_eq(op, "register_dictionary") {
            Self::plan_dictionary(args, guild_raw)
        } else if str_eq(op, "set_auto_read") {
            Self::plan_auto_read(args, guild_id, guild_raw)
        } else if str_eq(op, "set_parallel_read") {
            Self::plan_parallel(args, guild_raw)
        } else if str_eq(op, "set_speaker") {
            match Self::parse_u32(args, "speaker") {
                Ok(speaker) => Ok(VoiceToolRequest::SetSpeaker { guild_id, guild_raw, speaker }),
                Err(e) => Err(e),
            }
        } else if str_eq(op, "set_user_voice") {
            Self::plan_user(args, true, guild_raw)
        } else if str_eq(op, "get_user_voice") {
            Self::plan_user(args, false, guild_raw)
        } else {
            match Self::get_optional_channel_arg(args, "text_channel_id") {
                Ok(text_channel) => Ok(VoiceToolRequest::Status { guild_id, guild_raw, text_channel }),
                Err(e) => Err(e),
            }
        }
    }

    fn is_guild_op(op: &str) -> (r: bool)
        ensures
            r == is_guild_operation(op@),
    {
        str_eq(op, "join_voice") || str_eq(op, "leave_voice") || str_eq(op, "speak_text")
            || str_eq(op, "register_dictionary") || str_eq(op, "set_auto_read") || str_eq(
            op,
            "set_parallel_read",
        ) || str_eq(op, "set_speaker") || str_eq(op, "set_user_voice") || str_eq(
            op,
            "get_user_voice",
        ) || str_eq(op, "status")
    }

    /// Reads a call's arguments into the request it makes of the voice
    /// system, or the error that answers it before anything is done.
    pub fn plan(args: &ToolArgs) -> (r: Result<VoiceToolRequest, String>)
        ensures
            request_result_matches(r, voice_request(*args)),
    {
        let op = match args.get_str("operation") {
            Some(op) => op,
            None => {
                return Err(String::from_str("Missing or invalid 'operation' parameter"));
            },
        };
        let op = op.as_str();
        if str_eq(op, "list_voice_styles") {
            let speaker_filter = match Self::get_optional_str_arg(args, "speaker_name") {
                Some(s) => if s.unicode_len() > 0 {
                    Some(s)
                } else {
                    None
                },
                None => None,
            };
            let limit = Self::parse_limit_arg(args, "limit", 128, 512);
            Ok(VoiceToolRequest::ListStyles { speaker_filter, limit })
        } else if str_eq(op, "list_voice_speakers") {
            let name_filter = match Self::get_optional_str_arg(args, "speaker_name") {
                Some(s) => if s.unicode_len() > 0 {
                    Some(lowercase_str(s.as_str()))
                } else {
                    None
                },
                None => None,
            };
            let limit = Self::parse_limit_arg(args, "limit", 128, 512);
            Ok(VoiceToolRequest::ListSpeakers { name_filter, limit })
        } else if Self::is_guild_op(op) {
            match Self::get_guild_arg(args) {
                Ok((guild_id, guild_raw)) => Self::plan_guild(args, op, guild_id, guild_raw),
                Err(e) => Err(e),
            }
        } else {
            let mut s = String::from_str("Unsupported 'operation': ");
            push_str(&mut s, op);
            push_str(
                &mut s,
                ". Use one of: join_voice, leave_voice, speak_text, register_dictionary, set_auto_read, set_parallel_read, set_speaker, set_user_voice, get_user_voice, list_voice_styles, list_voice_speakers, status.",
            );
            Err(s)
        }
    }
}

/// Whether a catalog row is listed under a lowercased speaker filter.
pub open spec fn style_listed(e: StyleEntry, key: Option<Seq<char>>) -> bool {
    match key {
        None => true,
        Some(k) => contains_seq(unicode_lowercase(e.speaker_name), k),
    }
}

/// The rows listed under a filter, in catalog order.
pub open spec fn styles_listed(es: Seq<StyleEntry>, key: Option<Seq<char>>) -> Seq<StyleEntry>
    decreases es.len(),
{
    if es.len() == 0 {
        Seq::empty()
    } else {
        let rest = styles_listed(es.drop_last(), key);
        if style_listed(es.last(), key) {
            rest.push(es.last())
        } else {
            rest
        }
    }
}

pub open spec fn filter_key(f: Option<Seq<char>>) -> Option<Seq<char>> {
    match f {
        Some(s) => Some(unicode_lowercase(s)),
        None => None,
    }
}

fn listed_by(name: &String, key: &Option<Vec<char>>) -> (r: bool)
    ensures
        r == match key {
            None => true,
            Some(k) => contains_seq(unicode_lowercase(name@), k@),
        },
{
    match key {
        None => true,
        Some(k) => {
            let lower = lowercase_str(name.as_str());
            let lv = str_to_chars(lower.as_str());
            contains_chars(&lv, k)
        },
    }
}

/// `list_voice_styles`: the rows whose lowercased speaker name contains the
/// lowercased filter, at most `limit` of them, and how many matched.
pub fn list_voice_styles(speaker_filter: Option<&str>, limit: usize) -> (r: (Vec<VoiceStyleEntry>, usize))
    ensures
        ({
            let key = filter_key(
                match speaker_filter {
                    Some(f) => Some(f@),
                    None => None,
                },
            );
            &&& entries_view(r.0@) == take_at_most(styles_listed(catalog(), key), limit as nat)
            &&& r.1 == styles_listed(catalog(), key).len()
        }),
{
    let ghost key = filter_key(
        match speaker_filter {
            Some(f) => Some(f@),
            None => None,
        },
    );
    let key_chars: Option<Vec<char>> = match speaker_filter {
        Some(f) => {
            let lower = lowercase_str(f);
            Some(str_to_chars(lower.as_str()))
        },
        None => None,
    };
    let es = entries();
    let mut total: usize = 0;
    let mut styles: Vec<VoiceStyleEntry> = Vec::new();
    let mut i: usize = 0;
    while i < es.len()
        invariant
            i <= es@.len(),
            entries_view(es@) == catalog(),
            key == match key_chars {
                Some(k) => Some(k@),
                None => None::<Seq<char>>,
            },
            total == styles_listed(entries_view(es@).subrange(0, i as int), key).len(),
            total <= i,
            entries_view(styles@) == take_at_most(
                styles_listed(entries_view(es@).subrange(0, i as int), key),
                limit as nat,
            ),
        decreases es@.len() - i,
    {
        let ghost pre = entries_view(es@).subrange(0, i as int);
        let ghost cur = entries_view(es@).subrange(0, i + 1);
        assert(cur.drop_last() =~= pre);
        assert(cur.last() == es@[i as int]@);
        if listed_by(&es[i].speaker_name, &key_chars) {
            proof {
                lemma_take_at_most_push(styles_listed(pre, key), es@[i as int]@, limit as nat);
            }
            total = total + 1;
            if styles.len() < limit {
                styles.push(es[i].clone_entry());
                assert(entries_view(styles@) =~= take_at_most(styles_listed(cur, key), limit as nat));
            }
        }
        i = i + 1;
    }
    assert(entries_view(es@).subrange(0, es@.len() as int) =~= entries_view(es@));
    (styles, total)
}

/// Code-point order of strings, which is the order of their UTF-8 bytes.
pub open spec fn lex_lt(a: Seq<char>, b: Seq<char>) -> bool
    decreases a.len(),
{
    if a.len() == 0 {
        b.len() > 0
    } else if b.len() == 0 {
        false
    } else if a[0] == b[0] {
        lex_lt(a.drop_first(), b.drop_first())
    } else {
        (a[0] as u32) < (b[0] as u32)
    }
}

pub fn lex_less(a: &Vec<char>, b: &Vec<char>) -> (r: bool)
    ensures
        r == lex_lt(a@, b@),
{
    let mut i: usize = 0;
    assert(a@.skip(0) =~= a@);
    assert(b@.skip(0) =~= b@);
    while i < a.len() && i < b.len()
        invariant
            i <= a@.len(),
            i <= b@.len(),
            lex_lt(a@, b@) == lex_lt(a@.skip(i as int), b@.skip(i as int)),
        decreases a@.len() - i,
    {
        if a[i] != b[i] {
            return (a[i] as u32) < (b[i] as u32);
        }
        assert(a@.skip(i as int).drop_first() =~= a@.skip(i + 1));
        assert(b@.skip(i as int).drop_first() =~= b@.skip(i + 1));
        i = i + 1;
    }
    i == a.len() && i < b.len()
}

/// `s` with `x` inserted before the first element that follows it.
pub open spec fn insert_sorted(s: Seq<Seq<char>>, x: Seq<char>) -> Seq<Seq<char>>
    decreases s.len(),
{
    if s.len() == 0 {
        seq![x]
    } else if lex_lt(x, s[0]) {
        seq![x] + s
    } else {
        seq![s[0]] + insert_sorted(s.drop_first(), x)
    }
}

/// Names in code-point order (the order of a `BTreeMap<String, _>`).
pub open spec fn sort_names(s: Seq<Seq<char>>) -> Seq<Seq<char>>
    decreases s.len(),
{
    if s.len() == 0 {
        s
    } else {
        insert_sorted(sort_names(s.drop_last()), s.last())
    }
}

proof fn lemma_insert_at(s: Seq<Seq<char>>, x: Seq<char>, p: int)
    requires
        0 <= p <= s.len(),
        forall|j: int| 0 <= j < p ==> !lex_lt(x, #[trigger] s[j]),
        p < s.len() ==> lex_lt(x, s[p]),
    ensures
        insert_sorted(s, x) == s.insert(p, x),
    decreases p,
{
    if s.len() == 0 {
        assert(s.insert(p, x) =~= seq![x]);
    } else if p == 0 {
        assert(s.insert(p, x) =~= seq![x] + s);
    } else {
        assert(!lex_lt(x, s[0]));
        lemma_insert_at(s.drop_first(), x, p - 1);
        assert(s.insert(p, x) =~= seq![s[0]] + s.drop_first().insert(p - 1, x));
    }
}

proof fn lemma_lex_irreflexive(a: Seq<char>)
    ensures
        !lex_lt(a, a),
    decreases a.len(),
{
    if a.len() > 0 {
        lemma_lex_irreflexive(a.drop_first());
    }
}

proof fn lemma_lex_transitive(a: Seq<char>, b: Seq<char>, c: Seq<char>)
    requires
        lex_lt(a, b),
        lex_lt(b, c),
    ensures
        lex_lt(a, c),
    decreases a.len(),
{
    if a.len() > 0 && b.len() > 0 && c.len() > 0 && a[0] == b[0] && b[0] == c[0] {
        lemma_lex_transitive(a.drop_first(), b.drop_first(), c.drop_first());
    }
}

proof fn lemma_lex_total(a: Seq<char>, b: Seq<char>)
    ensures
        a =~= b || lex_lt(a, b) || lex_lt(b, a),
    decreases a.len(),
{
    if a.len() > 0 && b.len() > 0 {
        if a[0] == b[0] {
            lemma_lex_total(a.drop_first(), b.drop_first());
            if a.drop_first() =~= b.drop_first() {
                assert(a =~= seq![a[0]] + a.drop_first());
                assert(b =~= seq![b[0]] + b.drop_first());
            }
        } else {
            let x = a[0];
            let y = b[0];
            vstd::utf8::char_u32_cast(x, x as u32);
            vstd::utf8::char_u32_cast(y, y as u32);
            assert((x as u32) != (y as u32));
        }
    }
}

proof fn lemma_lex_asymmetric(a: Seq<char>, b: Seq<char>)
    requires
        lex_lt(a, b),
    ensures
        !lex_lt(b, a),
{
    if lex_lt(b, a) {
        lemma_lex_transitive(a, b, a);
        lemma_lex_irreflexive(a);
    }
}

/// Names in ascending code-point order.
pub open spec fn names_sorted(s: Seq<Seq<char>>) -> bool {
    forall|i: int, j: int| 0 <= i < j < s.len() ==> !lex_lt(#[trigger] s[j], #[trigger] s[i])
}

proof fn lemma_insert_sorted(s: Seq<Seq<char>>, x: Seq<char>)
    requires
        names_sorted(s),
    ensures
        names_sorted(insert_sorted(s, x)),
        insert_sorted(s, x).to_multiset() == s.to_multiset().insert(x),
    decreases s.len(),
{
    broadcast use vstd::seq_lib::group_to_multiset_ensures;
    broadcast use vstd::multiset::group_multiset_axioms;

    let t = insert_sorted(s, x);
    if s.len() == 0 {
        assert(t =~= s.insert(0, x));
    } else if lex_lt(x, s[0]) {
        assert(t =~= s.insert(0, x));
        assert forall|i: int, j: int| 0 <= i < j < t.len() implies !lex_lt(#[trigger] t[j], #[trigger] t[i]) by {
            if i == 0 {
                let sj = s[j - 1];
                assert(t[j] == sj);
                if j - 1 > 0 {
                    assert(!lex_lt(s[j - 1], s[0]));
                }
                lemma_lex_total(s[0], sj);
                if lex_lt(s[0], sj) {
                    lemma_lex_transitive(x, s[0], sj);
                } else {
                    assert(s[0] =~= sj);
                }
                lemma_lex_asymmetric(x, sj);
            } else {
                assert(t[i] == s[i - 1] && t[j] == s[j - 1]);
            }
        }
    } else {
        let rest = s.drop_first();
        assert forall|i: int, j: int| 0 <= i < j < rest.len() implies !lex_lt(#[trigger] rest[j], #[trigger] rest[i]) by {
            assert(rest[i] == s[i + 1] && rest[j] == s[j + 1]);
        }
        lemma_insert_sorted(rest, x);
        let u = insert_sorted(rest, x);
        assert(t =~= seq![s[0]] + u);
        assert(s =~= seq![s[0]] + rest);
        vstd::seq_lib::lemma_multiset_commutative(seq![s[0]], u);
        vstd::seq_lib::lemma_multiset_commutative(seq![s[0]], rest);
        assert(t.to_multiset() =~= s.to_multiset().insert(x));
        assert forall|i: int, j: int| 0 <= i < j < t.len() implies !lex_lt(#[trigger] t[j], #[trigger] t[i]) by {
            if i == 0 {
                let y = u[j - 1];
                assert(t[j] == y);
                assert(u.contains(y));
                assert(u.to_multiset().count(y) > 0);
                if y != x {
                    assert(rest.to_multiset().count(y) > 0);
                    assert(rest.contains(y));
                    let k = choose|k: int| 0 <= k < rest.len() && rest[k] == y;
                    assert(s[k + 1] == y);
                    assert(!lex_lt(s[k + 1], s[0]));
                }
            } else {
                assert(t[i] == u[i - 1] && t[j] == u[j - 1]);
            }
        }
    }
}

/// Law: sorted names come out in ascending code-point order, each name as
/// often as it was given (the order of a `BTreeMap<String, _>`).
pub proof fn lemma_sort_names_sorted(s: Seq<Seq<char>>)
    ensures
        names_sorted(sort_names(s)),
        sort_names(s).to_multiset() == s.to_multiset(),
    decreases s.len(),
{
    broadcast use vstd::seq_lib::group_to_multiset_ensures;

    if s.len() > 0 {
        lemma_sort_names_sorted(s.drop_last());
        lemma_insert_sorted(sort_names(s.drop_last()), s.last());
        assert(s.drop_last().push(s.last()) =~= s);
    }
}

/// How many catalog rows a speaker has.
pub open spec fn style_count(es: Seq<StyleEntry>, name: Seq<char>) -> nat
    decreases es.len(),
{
    if es.len() == 0 {
        0
    } else {
        style_count(es.drop_last(), name) + if es.last().speaker_name == name {
            1nat
        } else {
            0nat
        }
    }
}

/// A speaker of `list_voice_speakers`: name and number of styles.
pub struct SpeakerRow {
    pub speaker: String,
    pub style_count: usize,
}

pub open spec fn speaker_rows_view(v: Seq<SpeakerRow>) -> Seq<(Seq<char>, nat)> {
    v.map_values(|r: SpeakerRow| (r.speaker@, r.style_count as nat))
}

/// The speakers in name order, each with its number of styles.
pub open spec fn speaker_table() -> Seq<(Seq<char>, nat)> {
    sort_names(catalog_speaker_names()).map_values(
        |n: Seq<char>| (n, style_count(catalog(), n)),
    )
}

/// The speakers listed under a lowercased filter, in name order.
pub open spec fn speakers_listed(rows: Seq<(Seq<char>, nat)>, key: Option<Seq<char>>) -> Seq<(Seq<char>, nat)>
    decreases rows.len(),
{
    if rows.len() == 0 {
        Seq::empty()
    } else {
        let rest = speakers_listed(rows.drop_last(), key);
        let listed = match key {
            None => true,
            Some(k) => contains_seq(unicode_lowercase(rows.last().0), k),
        };
        if listed {
            rest.push(rows.last())
        } else {
            rest
        }
    }
}

/// The strings in code-point order, equal ones in their given order.
pub fn sort_strings(names: &Vec<String>) -> (r: Vec<String>)
    ensures
        strs_view(r@) == sort_names(strs_view(names@)),
{
    let mut out: Vec<String> = Vec::new();
    let mut i: usize = 0;
    while i < names.len()
        invariant
            i <= names@.len(),
            strs_view(out@) == sort_names(strs_view(names@).subrange(0, i as int)),
        decreases names@.len() - i,
    {
        let x = str_to_chars(names[i].as_str());
        let mut p: usize = 0;
        let mut found = false;
        while !found && p < out.len()
            invariant
                p <= out@.len(),
                i < names@.len(),
                x@ == names@[i as int]@,
                forall|j: int| 0 <= j < p ==> !lex_lt(x@, #[trigger] strs_view(out@)[j]),
                found ==> p < out@.len() && lex_lt(x@, strs_view(out@)[p as int]),
            decreases out@.len() - p + (if found { 0int } else { 1int }),
        {
            let y = str_to_chars(out[p].as_str());
            if lex_less(&x, &y) {
                found = true;
            } else {
                p = p + 1;
            }
        }
        proof {
            let pre = strs_view(names@).subrange(0, i as int);
            let cur = strs_view(names@).subrange(0, i + 1);
            assert(cur.drop_last() =~= pre);
            lemma_insert_at(strs_view(out@), x@, p as int);
        }
        let ghost before = out@;
        out.insert(p, names[i].clone());
        assert(strs_view(out@) =~= strs_view(before).insert(p as int, x@));
        i = i + 1;
    }
    assert(strs_view(names@).subrange(0, names@.len() as int) =~= strs_view(names@));
    out
}

fn sorted_speaker_names() -> (r: Vec<String>)
    ensures
        strs_view(r@) == sort_names(catalog_speaker_names()),
{
    let names = speaker_names();
    sort_strings(&names)
}

fn count_styles(es: &Vec<VoiceStyleEntry>, name: &String) -> (r: usize)
    ensures
        r == style_count(entries_view(es@), name@),
{
    let mut n: usize = 0;
    let mut i: usize = 0;
    while i < es.len()
        invariant
            i <= es@.len(),
            n <= i,
            n == style_count(entries_view(es@).subrange(0, i as int), name@),
        decreases es@.len() - i,
    {
        assert(entries_view(es@).subrange(0, i + 1).drop_last() =~= entries_view(es@).subrange(
            0,
            i as int,
        ));
        if es[i].speaker_name == *name {
            n = n + 1;
        }
        i = i + 1;
    }
    assert(entries_view(es@).subrange(0, es@.len() as int) =~= entries_view(es@));
    n
}

/// `list_voice_speakers`: speakers in name order with their numbers of
/// styles, those whose lowercased name contains the (lowercased) filter, at
/// most `limit` of them, and how many matched.
pub fn list_voice_speakers(name_filter: Option<&str>, limit: usize) -> (r: (Vec<SpeakerRow>, usize))
    ensures
        ({
            let key = match name_filter {
                Some(f) => Some(f@),
                None => None,
            };
            &&& speaker_rows_view(r.0@) == take_at_most(speakers_listed(speaker_table(), key), limit as nat)
            &&& r.1 == speakers_listed(speaker_table(), key).len()
        }),
{
    let ghost key = match name_filter {
        Some(f) => Some(f@),
        None => None::<Seq<char>>,
    };
    let key_chars: Option<Vec<char>> = match name_filter {
        Some(f) => Some(str_to_chars(f)),
        None => None,
    };
    let es = entries();
    let names = sorted_speaker_names();
    let ghost table = speaker_table();
    let mut total: usize = 0;
    let mut rows: Vec<SpeakerRow> = Vec::new();
    let mut i: usize = 0;
    while i < names.len()
        invariant
            i <= names@.len(),
            entries_view(es@) == catalog(),
            strs_view(names@) == sort_names(catalog_speaker_names()),
            table == speaker_table(),
            table.len() == names@.len(),
            key == match key_chars {
                Some(k) => Some(k@),
                None => None::<Seq<char>>,
            },
            total <= i,
            total == speakers_listed(table.subrange(0, i as int), key).len(),
            speaker_rows_view(rows@) == take_at_most(
                speakers_listed(table.subrange(0, i as int), key),
                limit as nat,
            ),
        decreases names@.len() - i,
    {
        let ghost pre = table.subrange(0, i as int);
        let ghost cur = table.subrange(0, i + 1);
        assert(cur.drop_last() =~= pre);
        assert(table[i as int] == (names@[i as int]@, style_count(catalog(), names@[i as int]@)));
        if listed_by(&names[i], &key_chars) {
            let count = count_styles(&es, &names[i]);
            proof {
                lemma_take_at_most_push(speakers_listed(pre, key), table[i as int], limit as nat);
            }
            total = total + 1;
            if rows.len() < limit {
                rows.push(SpeakerRow { speaker: names[i].clone(), style_count: count });
                assert(speaker_rows_view(rows@) =~= take_at_most(
                    speakers_listed(cur, key),
                    limit as nat,
                ));
            }
        }
        i = i + 1;
    }
    assert(table.subrange(0, names@.len() as int) =~= table);
    (rows, total)
}

/// What the model is told the tool does.
pub const VOICEVOX_TOOL_DOC: &'static str = "Control standalone VOICEVOX CORE + Discord VC reading (no external Engine server required). You can join/leave voice channels, speak text, configure auto-read and per-text-channel parallel count, update guild and user voice settings (including other users), and list VOICEVOX style IDs.";

/// What the tool says of `operation`.
pub const OPERATION_DOC: &'static str = "Operation to perform.";

/// What the tool says of `guild_id`.
pub const GUILD_ID_DOC: &'static str = "Discord guild ID as a decimal string.";

/// What the tool says of `channel_id`.
pub const CHANNEL_ID_DOC: &'static str = "Discord channel ID as a decimal string. Required for join_voice.";

/// What the tool says of `text_channel_id`.
pub const TEXT_CHANNEL_ID_DOC: &'static str = "Text channel ID used for auto-read target.";

/// What the tool says of `text`.
pub const TEXT_DOC: &'static str = "Text to read aloud. Required for speak_text.";

/// What the tool says of `speaker`.
pub const SPEAKER_DOC: &'static str = "VOICEVOX speaker ID (style ID). Null clears the setting for set_user_voice.";

/// What the tool says of `enabled`.
pub const ENABLED_DOC: &'static str = "Enable or disable auto-read for set_auto_read.";

/// What the tool says of `parallel_count`.
pub const PARALLEL_COUNT_DOC: &'static str = "Read parallel count for a text channel (1..4) used by set_parallel_read.";

/// What the tool says of `user_id`.
pub const USER_ID_DOC: &'static str = "Discord user ID as a decimal string. Required for set_user_voice/get_user_voice.";

/// What the tool says of `voice_speed_scale`.
pub const VOICE_SPEED_SCALE_DOC: &'static str = "Voice speed scale for user voice settings (0.5 to 2.0). Null clears the value.";

/// What the tool says of `voice_pitch_scale`.
pub const VOICE_PITCH_SCALE_DOC: &'static str = "Voice pitch scale for user voice settings (-1.0 to 1.0). Null clears the value.";

/// What the tool says of `voice_pan`.
pub const VOICE_PAN_DOC: &'static str = "Voice pan for user voice settings (-1.0 to 1.0). Null clears the value.";

/// What the tool says of `speaker_name`.
pub const SPEAKER_NAME_DOC: &'static str = "Speaker name filter for list_voice_styles.";

/// What the tool says of `limit`.
pub const LIMIT_DOC: &'static str = "Maximum number of items to return for list operations.";

/// What the tool says of `dictionary_source`.
pub const DICTIONARY_SOURCE_DOC: &'static str = "Source phrase to match for TTS dictionary registration. Required for register_dictionary.";

/// What the tool says of `dictionary_target`.
pub const DICTIONARY_TARGET_DOC: &'static str = "Replacement phrase to read aloud for TTS dictionary registration. Required for register_dictionary.";

/// The operations the tool offers, in the order its schema lists them.
pub open spec fn voice_operations() -> Seq<Seq<char>> {
    seq![
        "join_voice"@,
        "leave_voice"@,
        "speak_text"@,
        "register_dictionary"@,
        "set_auto_read"@,
        "set_parallel_read"@,
        "set_speaker"@,
        "set_user_voice"@,
        "get_user_voice"@,
        "list_voice_styles"@,
        "list_voice_speakers"@,
        "status"@,
    ]
}

/// Whether the tool carries out the operation `op` (any other is answered
/// with the list of those it does).
pub open spec fn voice_operation_understood(op: Seq<char>) -> bool {
    op == "list_voice_styles"@ || op == "list_voice_speakers"@ || is_guild_operation(op)
}

/// The tool's properties, in the order its schema lists them.
pub open spec fn voicevox_properties() -> Seq<(Seq<char>, JsonV)> {
    seq![
        ("operation"@, enum_property_view(OPERATION_DOC@, voice_operations())),
        ("guild_id"@, property_view("string"@, GUILD_ID_DOC@)),
        ("channel_id"@, property_view("string"@, CHANNEL_ID_DOC@)),
        ("text_channel_id"@, property_view("string"@, TEXT_CHANNEL_ID_DOC@)),
        ("text"@, property_view("string"@, TEXT_DOC@)),
        ("speaker"@, union_property_view(seq!["integer"@, "string"@, "null"@], SPEAKER_DOC@)),
        ("enabled"@, property_view("boolean"@, ENABLED_DOC@)),
        ("parallel_count"@, union_property_view(seq!["integer"@, "string"@], PARALLEL_COUNT_DOC@)),
        ("user_id"@, property_view("string"@, USER_ID_DOC@)),
        ("voice_speed_scale"@, union_property_view(seq!["number"@, "string"@, "null"@], VOICE_SPEED_SCALE_DOC@)),
        ("voice_pitch_scale"@, union_property_view(seq!["number"@, "string"@, "null"@], VOICE_PITCH_SCALE_DOC@)),
        ("voice_pan"@, union_property_view(seq!["number"@, "string"@, "null"@], VOICE_PAN_DOC@)),
        ("speaker_name"@, property_view("string"@, SPEAKER_NAME_DOC@)),
        ("limit"@, property_view("integer"@, LIMIT_DOC@)),
        ("dictionary_source"@, property_view("string"@, DICTIONARY_SOURCE_DOC@)),
        ("dictionary_target"@, property_view("string"@, DICTIONARY_TARGET_DOC@)),
    ]
}

/// The tool's parameters; only `operation` is required.
pub open spec fn voicevox_parameters() -> JsonV {
    object_schema_view(voicevox_properties(), seq!["operation"@])
}

impl VoicevoxTool {
    /// The name the model calls the tool by.
    pub fn name(&self) -> (r: String)
        ensures
            r@ == "voicevox-tool"@,
    {
        String::from_str("voicevox-tool")
    }

    /// What the model is told the tool does.
    pub fn description(&self) -> (r: String)
        ensures
            r@ == VOICEVOX_TOOL_DOC@,
    {
        String::from_str(VOICEVOX_TOOL_DOC)
    }

    /// The schema of the tool's parameters.
    pub fn json_schema(&self) -> (r: Json)
        ensures
            r@ == voicevox_parameters(),
    {
        let mut ops: Vec<&str> = Vec::new();
        ops.push("join_voice");
        ops.push("leave_voice");
        ops.push("speak_text");
        ops.push("register_dictionary");
        ops.push("set_auto_read");
        ops.push("set_parallel_read");
        ops.push("set_speaker");
        ops.push("set_user_voice");
        ops.push("get_user_voice");
        ops.push("list_voice_styles");
        ops.push("list_voice_speakers");
        ops.push("status");
        assert(ops@.map_values(|s: &str| s@) =~= voice_operations());
        let mut props = new_members();
        push_member(&mut props, "operation", enum_property(OPERATION_DOC, &ops));
        push_member(&mut props, "guild_id", property("string", GUILD_ID_DOC));
        push_member(&mut props, "channel_id", property("string", CHANNEL_ID_DOC));
        push_member(&mut props, "text_channel_id", property("string", TEXT_CHANNEL_ID_DOC));
        push_member(&mut props, "text", property("string", TEXT_DOC));
        let mut types_speaker: Vec<&str> = Vec::new();
        types_speaker.push("integer");
        types_speaker.push("string");
        types_speaker.push("null");
        assert(types_speaker@.map_values(|s: &str| s@) =~= seq!["integer"@, "string"@, "null"@]);
        push_member(&mut props, "speaker", union_property(&types_speaker, SPEAKER_DOC));
        push_member(&mut props, "enabled", property("boolean", ENABLED_DOC));
        let mut types_parallel_count: Vec<&str> = Vec::new();
        types_parallel_count.push("integer");
        types_parallel_count.push("string");
        assert(types_parallel_count@.map_values(|s: &str| s@) =~= seq!["integer"@, "string"@]);
        push_member(&mut props, "parallel_count", union_property(&types_parallel_count, PARALLEL_COUNT_DOC));
        push_member(&mut props, "user_id", property("string", USER_ID_DOC));
        let mut types_voice_speed_scale: Vec<&str> = Vec::new();
        types_voice_speed_scale.push("number");
        types_voice_speed_scale.push("string");
        types_voice_speed_scale.push("null");
        assert(types_voice_speed_scale@.map_values(|s: &str| s@) =~= seq!["number"@, "string"@, "null"@]);
        push_member(&mut props, "voice_speed_scale", union_property(&types_voice_speed_scale, VOICE_SPEED_SCALE_DOC));
        let mut types_voice_pitch_scale: Vec<&str> = Vec::new();
        types_voice_pitch_scale.push("number");
        types_voice_pitch_scale.push("string");
        types_voice_pitch_scale.push("null");
        assert(types_voice_pitch_scale@.map_values(|s: &str| s@) =~= seq!["number"@, "string"@, "null"@]);
        push_member(&mut props, "voice_pitch_scale", union_property(&types_voice_pitch_scale, VOICE_PITCH_SCALE_DOC));
        let mut types_voice_pan: Vec<&str> = Vec::new();
        types_voice_pan.push("number");
        types_voice_pan.push("string");
        types_voice_pan.push("null");
        assert(types_voice_pan@.map_values(|s: &str| s@) =~= seq!["number"@, "string"@, "null"@]);
        push_member(&mut props, "voice_pan", union_property(&types_voice_pan, VOICE_PAN_DOC));
        push_member(&mut props, "speaker_name", property("string", SPEAKER_NAME_DOC));
        push_member(&mut props, "limit", property("integer", LIMIT_DOC));
        push_member(&mut props, "dictionary_source", property("string", DICTIONARY_SOURCE_DOC));
        push_member(&mut props, "dictionary_target", property("string", DICTIONARY_TARGET_DOC));
        let mut required: Vec<&str> = Vec::new();
        required.push("operation");
        assert(required@.map_values(|s: &str| s@) =~= seq!["operation"@]);
        assert(members_view(props@) =~= voicevox_properties());
        object_schema(props, &required)
    }
}

/// The operations the tool's schema offers the model are exactly the
/// operations the tool carries out.
pub proof fn lemma_voice_operations_offered(op: Seq<char>)
    ensures
        enum_values(schema_property(voicevox_parameters(), "operation"@)).contains(JsonV::Str(op))
            <==> voice_operation_understood(op),
{
    lemma_object_schema_property(voicevox_properties(), seq!["operation"@], "operation"@);
    lemma_enum_property_values(OPERATION_DOC@, voice_operations());
    lemma_str_items_contains(voice_operations(), op);
    let ops = voice_operations();
    if voice_operation_understood(op) {
        if op == "join_voice"@ {
            assert(ops[0] == op);
        } else if op == "leave_voice"@ {
            assert(ops[1] == op);
        } else if op == "speak_text"@ {
            assert(ops[2] == op);
        } else if op == "register_dictionary"@ {
            assert(ops[3] == op);
        } else if op == "set_auto_read"@ {
            assert(ops[4] == op);
        } else if op == "set_parallel_read"@ {
            assert(ops[5] == op);
        } else if op == "set_speaker"@ {
            assert(ops[6] == op);
        } else if op == "set_user_voice"@ {
            assert(ops[7] == op);
        } else if op == "get_user_voice"@ {
            assert(ops[8] == op);
        } else if op == "list_voice_styles"@ {
            assert(ops[9] == op);
        } else if op == "list_voice_speakers"@ {
            assert(ops[10] == op);
        } else {
            assert(ops[11] == op);
        }
    }
}

} // verus!
