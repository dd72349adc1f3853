//! The `discord-tool` of the language model: reading its arguments into a
//! request for Discord, and ordering what Discord answers.
use vstd::prelude::*;
use crate::text::{
    push_str, str_eq, parse_u64_str, parse_unsigned, parse_error_kind, int_error_message,
    IntParseError, contains_seq, contains_chars, str_to_chars, lowercase_str, unicode_lowercase,
};
use crate::tool_args::{
    ToolArgs, arg_str, arg_bool, arg_u64, invalid_message, missing_param, invalid_param,
};
use crate::voicevox_tool::{str_arg_result, res_view, opt_view, lex_lt, lex_less};
use crate::text::{decimal, u64_to_decimal, chars_eq};
use crate::schema::{Json, JsonV, members_view};
use crate::tool_schema::{
    object_schema_view, property_view, enum_property_view, schema_property, enum_values,
    lemma_str_items_contains, lemma_object_schema_property, lemma_enum_property_values,
    lemma_member_of_skip, new_members, push_member, property, enum_property, object_schema,
};

verus! {

/// The `discord-tool`.
pub struct DiscordTool {}

/// The kind of a Discord channel.
#[derive(Debug, Clone, Copy, PartialEq, Eq, Structural)]
pub enum ChannelKind {
    Text,
    Private,
    Voice,
    GroupDm,
    Category,
    News,
    NewsThread,
    PublicThread,
    PrivateThread,
    Stage,
    Directory,
    Forum,
    Unknown(u8),
}

/// Whether a channel of this kind is listed under a `channel_type` filter.
pub open spec fn kind_matches(kind: ChannelKind, filter: Seq<char>) -> bool {
    if filter == "all"@ {
        true
    } else if filter == "text"@ {
        kind == ChannelKind::Text || kind == ChannelKind::News
    } else if filter == "voice"@ {
        kind == ChannelKind::Voice
    } else if filter == "stage"@ {
        kind == ChannelKind::Stage
    } else if filter == "category"@ {
        kind == ChannelKind::Category
    } else {
        false
    }
}

/// The name reported for a channel kind.
pub open spec fn kind_name(kind: ChannelKind) -> Seq<char> {
    match kind {
        ChannelKind::Text => "text"@,
        ChannelKind::Voice => "voice"@,
        ChannelKind::Category => "category"@,
        ChannelKind::News => "news"@,
        ChannelKind::Stage => "stage"@,
        ChannelKind::Private => "private"@,
        ChannelKind::PrivateThread => "private_thread"@,
        ChannelKind::PublicThread => "public_thread"@,
        ChannelKind::NewsThread => "news_thread"@,
        ChannelKind::Forum => "forum"@,
        _ => "unknown"@,
    }
}

/// A Discord ID (non-zero), or the message naming the parameter and the
/// parse error.
pub open spec fn snowflake_result(raw: Seq<char>, key: Seq<char>) -> Result<u64, Seq<char>> {
    match parse_unsigned(raw, u64::MAX as nat) {
        Some(v) => if v == 0 {
            Err(invalid_message(key, int_error_message(IntParseError::Zero)))
        } else {
            Ok(v as u64)
        },
        None => Err(invalid_message(key, int_error_message(parse_error_kind(raw)))),
    }
}

/// What a call of the tool asks Discord for, with its arguments read.
#[allow(inconsistent_fields)]
pub enum DiscordToolRequest {
    AddReaction { channel_id: u64, channel_raw: String, message_id: u64, message_raw: String, reaction: String },
    RemoveReaction { channel_id: u64, channel_raw: String, message_id: u64, message_raw: String, reaction: String },
    CreateThread {
        channel_id: u64,
        channel_raw: String,
        name: String,
        message_raw: Option<String>,
        message_id: Option<u64>,
        thread_type: String,
        private: bool,
    },
    SendMessage { channel_id: u64, channel_raw: String, content: String, reply_to: Option<u64> },
    EditMessage { channel_id: u64, channel_raw: String, message_id: u64, message_raw: String, content: String },
    FetchMessage { channel_id: u64, channel_raw: String, message_id: u64, message_raw: String },
    SearchMessages { channel_id: u64, channel_raw: String, query: String, limit: u8 },
    ListChannels { guild_id: u64, channel_type: String, include_members: bool },
    ListVoiceChannels { guild_id: u64, include_members: bool },
    ListVoiceMembers { guild_id: u64, channel_id: Option<u64> },
}

/// A [`DiscordToolRequest`] with its strings as character sequences.
#[allow(inconsistent_fields)]
pub enum DiscordRequest {
    AddReaction { channel_id: u64, channel_raw: Seq<char>, message_id: u64, message_raw: Seq<char>, reaction: Seq<char> },
    RemoveReaction { channel_id: u64, channel_raw: Seq<char>, message_id: u64, message_raw: Seq<char>, reaction: Seq<char> },
    CreateThread {
        channel_id: u64,
        channel_raw: Seq<char>,
        name: Seq<char>,
        message_raw: Option<Seq<char>>,
        message_id: Option<u64>,
        thread_type: Seq<char>,
        private: bool,
    },
    SendMessage { channel_id: u64, channel_raw: Seq<char>, content: Seq<char>, reply_to: Option<u64> },
    EditMessage { channel_id: u64, channel_raw: Seq<char>, message_id: u64, message_raw: Seq<char>, content: Seq<char> },
    FetchMessage { channel_id: u64, channel_raw: Seq<char>, message_id: u64, message_raw: Seq<char> },
    SearchMessages { channel_id: u64, channel_raw: Seq<char>, query: Seq<char>, limit: u8 },
    ListChannels { guild_id: u64, channel_type: Seq<char>, include_members: bool },
    ListVoiceChannels { guild_id: u64, include_members: bool },
    ListVoiceMembers { guild_id: u64, channel_id: Option<u64> },
}

impl View for DiscordToolRequest {
    type V = DiscordRequest;

    open spec fn view(&self) -> DiscordRequest {
        match self {
            DiscordToolRequest::AddReaction { channel_id, channel_raw, message_id, message_raw, reaction } =>
                DiscordRequest::AddReaction {
                channel_id: *channel_id,
                channel_raw: channel_raw@,
                message_id: *message_id,
                message_raw: message_raw@,
                reaction: reaction@,
            },
            DiscordToolRequest::RemoveReaction { channel_id, channel_raw, message_id, message_raw, reaction } =>
                DiscordRequest::RemoveReaction {
                channel_id: *channel_id,
                channel_raw: channel_raw@,
                message_id: *message_id,
                message_raw: message_raw@,
                reaction: reaction@,
            },
            DiscordToolRequest::CreateThread { channel_id, channel_raw, name, message_raw, message_id, thread_type, private } =>
                DiscordRequest::CreateThread {
                channel_id: *channel_id,
                channel_raw: channel_raw@,
                name: name@,
                message_raw: opt_view(*message_raw),
                message_id: *message_id,
                thread_type: thread_type@,
                private: *private,
            },
            DiscordToolRequest::SendMessage { channel_id, channel_raw, content, reply_to } =>
                DiscordRequest::SendMessage {
                channel_id: *channel_id,
                channel_raw: channel_raw@,
                content: content@,
                reply_to: *reply_to,
            },
            DiscordToolRequest::EditMessage { channel_id, channel_raw, message_id, message_raw, content } =>
                DiscordRequest::EditMessage {
                channel_id: *channel_id,
                channel_raw: channel_raw@,
                message_id: *message_id,
                message_raw: message_raw@,
                content: content@,
            },
            DiscordToolRequest::FetchMessage { channel_id, channel_raw, message_id, message_raw } =>
                DiscordRequest::FetchMessage {
                channel_id: *channel_id,
                channel_raw: channel_raw@,
                message_id: *message_id,
                message_raw: message_raw@,
            },
            DiscordToolRequest::SearchMessages { channel_id, channel_raw, query, limit } =>
                DiscordRequest::SearchMessages {
                channel_id: *channel_id,
                channel_raw: channel_raw@,
                query: query@,
                limit: *limit,
            },
            DiscordToolRequest::ListChannels { guild_id, channel_type, include_members } =>
                DiscordRequest::ListChannels {
                guild_id: *guild_id,
                channel_type: channel_type@,
                include_members: *include_members,
            },
            DiscordToolRequest::ListVoiceChannels { guild_id, include_members } =>
                DiscordRequest::ListVoiceChannels {
                guild_id: *guild_id,
                include_members: *include_members,
            },
            DiscordToolRequest::ListVoiceMembers { guild_id, channel_id } =>
                DiscordRequest::ListVoiceMembers { guild_id: *guild_id, channel_id: *channel_id },
        }
    }
}

pub open spec fn discord_result_matches(r: Result<DiscordToolRequest, String>, spec: Result<DiscordRequest, Seq<char>>) -> bool {
    match r {
        Ok(p) => spec == Ok::<DiscordRequest, Seq<char>>(p@),
        Err(e) => spec == Err::<DiscordRequest, Seq<char>>(e@),
    }
}

/// The `channel_id` argument: required, as given and parsed.
pub open spec fn channel_arg(a: ToolArgs) -> Result<(u64, Seq<char>), Seq<char>> {
    match str_arg_result(a, "channel_id"@) {
        Err(e) => Err(e),
        Ok(raw) => match snowflake_result(raw, "channel_id"@) {
            Err(e) => Err(e),
            Ok(id) => Ok((id, raw)),
        },
    }
}

/// `add_reaction` (`add`) or `remove_reaction`.
pub open spec fn reaction_request(a: ToolArgs, add: bool) -> Result<DiscordRequest, Seq<char>> {
    match channel_arg(a) {
        Err(e) => Err(e),
        Ok((ch, craw)) => match str_arg_result(a, "message_id"@) {
            Err(e) => Err(e),
            Ok(mraw) => match str_arg_result(a, "reaction"@) {
                Err(e) => Err(e),
                Ok(reaction) => match snowflake_result(mraw, "message_id"@) {
                    Err(e) => Err(e),
                    Ok(mid) => Ok(
                        if add {
                            DiscordRequest::AddReaction {
                                channel_id: ch,
                                channel_raw: craw,
                                message_id: mid,
                                message_raw: mraw,
                                reaction,
                            }
                        } else {
                            DiscordRequest::RemoveReaction {
                                channel_id: ch,
                                channel_raw: craw,
                                message_id: mid,
                                message_raw: mraw,
                                reaction,
                            }
                        },
                    ),
                },
            },
        },
    }
}

pub open spec fn thread_request(a: ToolArgs) -> Result<DiscordRequest, Seq<char>> {
    match channel_arg(a) {
        Err(e) => Err(e),
        Ok((ch, craw)) => match str_arg_result(a, "name"@) {
            Err(e) => Err(e),
            Ok(name) => {
                let mraw = arg_str(a, "message_id"@);
                let tt = match arg_str(a, "thread_type"@) {
                    Some(t) => t,
                    None => "public"@,
                };
                if tt != "public"@ && tt != "private"@ {
                    Err(
                        "Unsupported 'thread_type': "@ + tt + ". Use 'public' or 'private'."@,
                    )
                } else {
                    let mid = match mraw {
                        Some(m) => match snowflake_result(m, "message_id"@) {
                            Ok(id) => Ok(Some(id)),
                            Err(e) => Err(e),
                        },
                        None => Ok(None),
                    };
                    match mid {
                        Err(e) => Err(e),
                        Ok(mid) => Ok(
                            DiscordRequest::CreateThread {
                                channel_id: ch,
                                channel_raw: craw,
                                name,
                                message_raw: mraw,
                                message_id: mid,
                                thread_type: tt,
                                private: tt == "private"@,
                            },
                        ),
                    }
                }
            },
        },
    }
}

pub open spec fn send_request(a: ToolArgs) -> Result<DiscordRequest, Seq<char>> {
    match channel_arg(a) {
        Err(e) => Err(e),
        Ok((ch, craw)) => match str_arg_result(a, "content"@) {
            Err(e) => Err(e),
            Ok(content) => {
                let reply = match arg_str(a, "reply_to"@) {
                    Some(r) => match parse_unsigned(r, u64::MAX as nat) {
                        Some(v) => if v == 0 {
                            Err("Invalid 'reply_to' message_id: "@ + int_error_message(IntParseError::Zero))
                        } else {
                            Ok(Some(v as u64))
                        },
                        None => Err(
                            "Invalid 'reply_to' message_id: "@ + int_error_message(parse_error_kind(r)),
                        ),
                    },
                    None => Ok(None),
                };
                match reply {
                    Err(e) => Err(e),
                    Ok(reply_to) => Ok(
                        DiscordRequest::SendMessage { channel_id: ch, channel_raw: craw, content, reply_to },
                    ),
                }
            },
        },
    }
}

pub open spec fn edit_request(a: ToolArgs) -> Result<DiscordRequest, Seq<char>> {
    match channel_arg(a) {
        Err(e) => Err(e),
        Ok((ch, craw)) => match str_arg_result(a, "message_id"@) {
            Err(e) => Err(e),
            Ok(mraw) => match str_arg_result(a, "content"@) {
                Err(e) => Err(e),
                Ok(content) => match snowflake_result(mraw, "message_id"@) {
                    Err(e) => Err(e),
                    Ok(mid) => Ok(
                        DiscordRequest::EditMessage {
                            channel_id: ch,
                            channel_raw: craw,
                            message_id: mid,
                            message_raw: mraw,
                            content,
                        },
                    ),
                },
            },
        },
    }
}

pub open spec fn fetch_request(a: ToolArgs) -> Result<DiscordRequest, Seq<char>> {
    match channel_arg(a) {
        Err(e) => Err(e),
        Ok((ch, craw)) => match str_arg_result(a, "message_id"@) {
            Err(e) => Err(e),
            Ok(mraw) => match snowflake_result(mraw, "message_id"@) {
                Err(e) => Err(e),
                Ok(mid) => Ok(
                    DiscordRequest::FetchMessage {
                        channel_id: ch,
                        channel_raw: craw,
                        message_id: mid,
                        message_raw: mraw,
                    },
                ),
            },
        },
    }
}

/// How many recent messages a search reads: the given number (default 50),
/// at most 100.
pub open spec fn search_limit(a: ToolArgs) -> u8 {
    let n = match arg_u64(a, "limit"@) {
        Some(n) => n,
        None => 50,
    };
    (if n < 100 {
        n
    } else {
        100
    }) as u8
}

pub open spec fn search_request(a: ToolArgs) -> Result<DiscordRequest, Seq<char>> {
    match channel_arg(a) {
        Err(e) => Err(e),
        Ok((ch, craw)) => match str_arg_result(a, "query"@) {
            Err(e) => Err(e),
            Ok(query) => Ok(
                DiscordRequest::SearchMessages {
                    channel_id: ch,
                    channel_raw: craw,
                    query,
                    limit: search_limit(a),
                },
            ),
        },
    }
}

/// The `guild_id` argument, required and parsed.
pub open spec fn guild_arg(a: ToolArgs) -> Result<u64, Seq<char>> {
    match str_arg_result(a, "guild_id"@) {
        Err(e) => Err(e),
        Ok(raw) => snowflake_result(raw, "guild_id"@),
    }
}

pub open spec fn guild_list_request(a: ToolArgs, op: Seq<char>) -> Result<DiscordRequest, Seq<char>> {
    match guild_arg(a) {
        Err(e) => Err(e),
        Ok(gid) => if op == "list_channels"@ {
            Ok(
                DiscordRequest::ListChannels {
                    guild_id: gid,
                    channel_type: match arg_str(a, "channel_type"@) {
                        Some(t) => t,
                        None => "all"@,
                    },
                    include_members: arg_bool(a, "include_members"@) == Some(true),
                },
            )
        } else if op == "list_voice_channels"@ {
            Ok(
                DiscordRequest::ListVoiceChannels {
                    guild_id: gid,
                    include_members: arg_bool(a, "include_members"@) != Some(false),
                },
            )
        } else {
            match arg_str(a, "channel_id"@) {
                Some(raw) => match snowflake_result(raw, "channel_id"@) {
                    Err(e) => Err(e),
                    Ok(ch) => Ok(DiscordRequest::ListVoiceMembers { guild_id: gid, channel_id: Some(ch) }),
                },
                None => Ok(DiscordRequest::ListVoiceMembers { guild_id: gid, channel_id: None }),
            }
        },
    }
}

pub open spec fn unsupported_discord_message(op: Seq<char>) -> Seq<char> {
    "Unsupported 'operation': "@ + op
        + ". Use one of: add_reaction, remove_reaction, create_thread, send_message, edit_message, fetch_message, search_messages, list_channels, list_voice_channels, list_voice_members."@
}

/// What a call of the tool asks Discord for, or the error it is answered
/// with before anything is done.
pub open spec fn discord_request(a: ToolArgs) -> Result<DiscordRequest, Seq<char>> {
    match arg_str(a, "operation"@) {
        None => Err("Missing or invalid 'operation' parameter"@),
        Some(op) => if op == "add_reaction"@ {
            reaction_request(a, true)
        } else if op == "remove_reaction"@ {
            reaction_request(a, false)
        } else if op == "create_thread"@ {
            thread_request(a)
        } else if op == "send_message"@ {
            send_request(a)
        } else if op == "edit_message"@ {
            edit_request(a)
        } else if op == "fetch_message"@ {
            fetch_request(a)
        } else if op == "search_messages"@ {
            search_request(a)
        } else if op == "list_channels"@ || op == "list_voice_channels"@ || op
            == "list_voice_members"@ {
            guild_list_request(a, op)
        } else {
            Err(unsupported_discord_message(op))
        },
    }
}

pub(crate) fn snowflake(raw: &str, key: &str) -> (r: Result<u64, String>)
    ensures
        res_view(r) == snowflake_result(raw@, key@),
{
    match parse_u64_str(raw) {
        Ok(v) => if v == 0 {
            let m = IntParseError::Zero.message();
            Err(invalid_param(key, m.as_str()))
        } else {
            Ok(v)
        },
        Err(e) => {
            let m = e.message();
            Err(invalid_param(key, m.as_str()))
        },
    }
}

impl DiscordTool {
    pub fn new() -> (r: DiscordTool) {
        DiscordTool {  }
    }

    /// A required string argument.
    pub fn get_str_arg(args: &ToolArgs, key: &str) -> (r: Result<String, String>)
        ensures
            match r {
                Ok(s) => str_arg_result(*args, key@) == Ok::<Seq<char>, Seq<char>>(s@),
                Err(e) => str_arg_result(*args, key@) == Err::<Seq<char>, Seq<char>>(e@),
            },
    {
        match args.get_str(key) {
            Some(s) => Ok(s),
            None => Err(missing_param(key)),
        }
    }

    /// An optional boolean argument.
    pub fn get_opt_bool_arg(args: &ToolArgs, key: &str) -> (r: Option<bool>)
        ensures
            r == arg_bool(*args, key@),
    {
        args.get_bool(key)
    }

    /// An optional string argument.
    pub fn get_opt_str_arg(args: &ToolArgs, key: &str) -> (r: Option<String>)
        ensures
            opt_view(r) == arg_str(*args, key@),
    {
        args.get_str(key)
    }

    /// The `guild_id` argument, parsed.
    pub fn parse_guild_id(args: &ToolArgs) -> (r: Result<u64, String>)
        ensures
            res_view(r) == guild_arg(*args),
    {
        match Self::get_str_arg(args, "guild_id") {
            Ok(raw) => snowflake(raw.as_str(), "guild_id"),
            Err(e) => Err(e),
        }
    }

    /// Whether a channel of this kind is listed under a `channel_type` filter.
    pub fn channel_matches_filter(channel_type: ChannelKind, channel_filter: &str) -> (r: bool)
        ensures
            r == kind_matches(channel_type, channel_filter@),
    {
        if str_eq(channel_filter, "all") {
            true
        } else if str_eq(channel_filter, "text") {
            channel_type == ChannelKind::Text || channel_type == ChannelKind::News
        } else if str_eq(channel_filter, "voice") {
            channel_type == ChannelKind::Voice
        } else if str_eq(channel_filter, "stage") {
            channel_type == ChannelKind::Stage
        } else if str_eq(channel_filter, "category") {
            channel_type == ChannelKind::Category
        } else {
            false
        }
    }

    /// The name reported for a channel kind.
    pub fn channel_type_name(channel_type: ChannelKind) -> (r: &'static str)
        ensures
            r@ == kind_name(channel_type),
    {
        match channel_type {
            ChannelKind::Text => "text",
            ChannelKind::Voice => "voice",
            ChannelKind::Category => "category",
            ChannelKind::News => "news",
            ChannelKind::Stage => "stage",
            ChannelKind::Private => "private",
            ChannelKind::PrivateThread => "private_thread",
            ChannelKind::PublicThread => "public_thread",
            ChannelKind::NewsThread => "news_thread",
            ChannelKind::Forum => "forum",
            _ => "unknown",
        }
    }

    fn channel(args: &ToolArgs) -> (r: Result<(u64, String), String>)
        ensures
            match r {
                Ok((id, raw)) => channel_arg(*args) == Ok::<(u64, Seq<char>), Seq<char>>((id, raw@)),
                Err(e) => channel_arg(*args) == Err::<(u64, Seq<char>), Seq<char>>(e@),
            },
    {
        let raw = match Self::get_str_arg(args, "channel_id") {
            Ok(s) => s,
            Err(e) => {
                return Err(e);
            },
        };
        match snowflake(raw.as_str(), "channel_id") {
            Ok(id) => Ok((id, raw)),
            Err(e) => Err(e),
        }
    }

    fn plan_reaction(args: &ToolArgs, add: bool) -> (r: Result<DiscordToolRequest, String>)
        ensures
            discord_result_matches(r, reaction_request(*args, add)),
    {
        let (channel_id, channel_raw) = match Self::channel(args) {
            Ok(c) => c,
            Err(e) => {
                return Err(e);
            },
        };
        let message_raw = match Self::get_str_arg(args, "message_id") {
            Ok(s) => s,
            Err(e) => {
                return Err(e);
            },
        };
        let reaction = match Self::get_str_arg(args, "reaction") {
            Ok(s) => s,
            Err(e) => {
                return Err(e);
            },
        };
        let message_id = match snowflake(message_raw.as_str(), "message_id") {
            Ok(id) => id,
            Err(e) => {
                return Err(e);
            },
        };
        if add {
            Ok(DiscordToolRequest::AddReaction { channel_id, channel_raw, message_id, message_raw, reaction })
        } else {
            Ok(DiscordToolRequest::RemoveReaction { channel_id, channel_raw, message_id, message_raw, reaction })
        }
    }

    fn plan_thread(args: &ToolArgs) -> (r: Result<DiscordToolRequest, String>)
        ensures
            discord_result_matches(r, thread_request(*args)),
    {
        let (channel_id, channel_raw) = match Self::channel(args) {
            Ok(c) => c,
            Err(e) => {
                return Err(e);
            },
        };
        let name = match Self::get_str_arg(args, "name") {
            Ok(s) => s,
            Err(e) => {
                return Err(e);
            },
        };
        let message_raw = args.get_str("message_id");
        let thread_type = match args.get_str("thread_type") {
            Some(t) => t,
            None => String::from_str("public"),
        };
        let private = str_eq(thread_type.as_str(), "private");
        if !str_eq(thread_type.as_str(), "public") && !private {
            let mut s = String::from_str("Unsupported 'thread_type': ");
            push_str(&mut s, thread_type.as_str());
            push_str(&mut s, ". Use 'public' or 'private'.");
            return Err(s);
        }
        let message_id = match &message_raw {
            Some(m) => match snowflake(m.as_str(), "message_id") {
                Ok(id) => Some(id),
                Err(e) => {
                    return Err(e);
                },
            },
            None => None,
        };
        Ok(
            DiscordToolRequest::CreateThread {
                channel_id,
                channel_raw,
                name,
                message_raw,
                message_id,
                thread_type,
                private,
            },
        )
    }

    fn plan_send(args: &ToolArgs) -> (r: Result<DiscordToolRequest, String>)
        ensures
            discord_result_matches(r, send_request(*args)),
    {
        let (channel_id, channel_raw) = match Self::channel(args) {
            Ok(c) => c,
            Err(e) => {
                return Err(e);
            },
        };
        let content = match Self::get_str_arg(args, "content") {
            Ok(s) => s,
            Err(e) => {
                return Err(e);
            },
        };
        let reply_to = match args.get_str("reply_to") {
            Some(r) => match parse_u64_str(r.as_str()) {
                Ok(v) => if v == 0 {
                    let mut s = String::from_str("Invalid 'reply_to' message_id: ");
                    let m = IntParseError::Zero.message();
                    push_str(&mut s, m.as_str());
                    return Err(s);
                } else {
                    Some(v)
                },
                Err(e) => {
                    let mut s = String::from_str("Invalid 'reply_to' message_id: ");
                    let m = e.message();
                    push_str(&mut s, m.as_str());
                    return Err(s);
                },
            },
            None => None,
        };
        Ok(DiscordToolRequest::SendMessage { channel_id, channel_raw, content, reply_to })
    }

    fn plan_edit(args: &ToolArgs) -> (r: Result<DiscordToolRequest, String>)
        ensures
            discord_result_matches(r, edit_request(*args)),
    {
        let (channel_id, channel_raw) = match Self::channel(args) {
            Ok(c) => c,
            Err(e) => {
                return Err(e);
            },
        };
        let message_raw = match Self::get_str_arg(args, "message_id") {
            Ok(s) => s,
            Err(e) => {
                return Err(e);
            },
        };
        let content = match Self::get_str_arg(args, "content") {
            Ok(s) => s,
            Err(e) => {
                return Err(e);
            },
        };
        match snowflake(message_raw.as_str(), "message_id") {
            Ok(message_id) => Ok(
                DiscordToolRequest::EditMessage { channel_id, channel_raw, message_id, message_raw, content },
            ),
            Err(e) => Err(e),
        }
    }

    fn plan_fetch(args: &ToolArgs) -> (r: Result<DiscordToolRequest, String>)
        ensures
            discord_result_matches(r, fetch_request(*args)),
    {
        let (channel_id, channel_raw) = match Self::channel(args) {
            Ok(c) => c,
            Err(e) => {
                return Err(e);
            },
        };
        let message_raw = match Self::get_str_arg(args, "message_id") {
            Ok(s) => s,
            Err(e) => {
                return Err(e);
            },
        };
        match snowflake(message_raw.as_str(), "message_id") {
            Ok(message_id) => Ok(
                DiscordToolRequest::FetchMessage { channel_id, channel_raw, message_id, message_raw },
            ),
            Err(e) => Err(e),
        }
    }

    fn plan_search(args: &ToolArgs) -> (r: Result<DiscordToolRequest, String>)
        ensures
            discord_result_matches(r, search_request(*args)),
    {
        let (channel_id, channel_raw) = match Self::channel(args) {
            Ok(c) => c,
            Err(e) => {
                return Err(e);
            },
        };
        let query = match Self::get_str_arg(args, "query") {
            Ok(s) => s,
            Err(e) => {
                return Err(e);
            },
        };
        let n = match args.get_u64("limit") {
            Some(n) => n,
            None => 50,
        };
        let limit: u8 = if n < 100 {
            n as u8
        } else {
            100
        };
        Ok(DiscordToolRequest::SearchMessages { channel_id, channel_raw, query, limit })
    }

    fn plan_guild_list(args: &ToolArgs, op: &str) -> (r: Result<DiscordToolRequest, String>)
        ensures
            discord_result_matches(r, guild_list_request(*args, op@)),
    {
        let guild_id = match Self::parse_guild_id(args) {
            Ok(g) => g,
            Err(e) => {
                return Err(e);
            },
        };
        if str_eq(op, "list_channels") {
            let channel_type = match Self::get_opt_str_arg(args, "channel_type") {
                Some(t) => t,
                None => String::from_str("all"),
            };
            let include_members = match Self::get_opt_bool_arg(args, "include_members") {
                Some(b) => b,
                None => false,
            };
            Ok(DiscordToolRequest::ListChannels { guild_id, channel_type, include_members })
        } else if str_eq(op, "list_voice_channels") {
            let include_members = match Self::get_opt_bool_arg(args, "include_members") {
                Some(b) => b,
                None => true,
            };
            Ok(DiscordToolRequest::ListVoiceChannels { guild_id, include_members })
        } else {
            match Self::get_opt_str_arg(args, "channel_id") {
                Some(raw) => match snowflake(raw.as_str(), "channel_id") {
                    Ok(ch) => Ok(DiscordToolRequest::ListVoiceMembers { guild_id, channel_id: Some(ch) }),
                    Err(e) => Err(e),
                },
                None => Ok(DiscordToolRequest::ListVoiceMembers { guild_id, channel_id: None }),
            }
        }
    }

    /// Reads a call's arguments into the request it makes of Discord, or the
    /// error that answers it before anything is done.
    pub fn plan(args: &ToolArgs) -> (r: Result<DiscordToolRequest, String>)
        ensures
            discord_result_matches(r, discord_request(*args)),
    {
        let op = match args.get_str("operation") {
            Some(op) => op,
            None => {
                return Err(String::from_str("Missing or invalid 'operation' parameter"));
            },
        };
        let op = op.as_str();
        if str_eq(op, "add_reaction") {
            Self::plan_reaction(args, true)
        } else if str_eq(op, "remove_reaction") {
            Self::plan_reaction(args, false)
        } else if str_eq(op, "create_thread") {
            Self::plan_thread(args)
        } else if str_eq(op, "send_message") {
            Self::plan_send(args)
        } else if str_eq(op, "edit_message") {
            Self::plan_edit(args)
        } else if str_eq(op, "fetch_message") {
            Self::plan_fetch(args)
        } else if str_eq(op, "search_messages") {
            Self::plan_search(args)
        } else if str_eq(op, "list_channels") || str_eq(op, "list_voice_channels") || str_eq(
            op,
            "list_voice_members",
        ) {
            Self::plan_guild_list(args, op)
        } else {
            let mut s = String::from_str("Unsupported 'operation': ");
            push_str(&mut s, op);
            push_str(
                &mut s,
                ". Use one of: add_reaction, remove_reaction, create_thread, send_message, edit_message, fetch_message, search_messages, list_channels, list_voice_channels, list_voice_members.",
            );
            Err(s)
        }
    }
}

/// `s` with `x` inserted before the first element that `lt` puts after it.
pub open spec fn insert_by<T>(s: Seq<T>, x: T, lt: spec_fn(T, T) -> bool) -> Seq<T>
    decreases s.len(),
{
    if s.len() == 0 {
        seq![x]
    } else if lt(x, s[0]) {
        seq![x] + s
    } else {
        seq![s[0]] + insert_by(s.drop_first(), x, lt)
    }
}

/// A stable insertion sort by `lt`.
pub open spec fn sort_by<T>(s: Seq<T>, lt: spec_fn(T, T) -> bool) -> Seq<T>
    decreases s.len(),
{
    if s.len() == 0 {
        s
    } else {
        insert_by(sort_by(s.drop_last(), lt), s.last(), lt)
    }
}

pub proof fn lemma_insert_by_at<T>(s: Seq<T>, x: T, lt: spec_fn(T, T) -> bool, p: int)
    requires
        0 <= p <= s.len(),
        forall|j: int| 0 <= j < p ==> !lt(x, #[trigger] s[j]),
        p < s.len() ==> lt(x, s[p]),
    ensures
        insert_by(s, x, lt) == s.insert(p, x),
    decreases p,
{
    if s.len() == 0 {
        assert(s.insert(p, x) =~= seq![x]);
    } else if p == 0 {
        assert(s.insert(p, x) =~= seq![x] + s);
    } else {
        assert(!lt(x, s[0]));
        lemma_insert_by_at(s.drop_first(), x, lt, p - 1);
        assert(s.insert(p, x) =~= seq![s[0]] + s.drop_first().insert(p - 1, x));
    }
}

/// A channel of a guild, as the listings report it.
pub struct ChannelRow {
    pub id: u64,
    pub name: String,
    pub kind: ChannelKind,
    pub position: u16,
    pub parent_id: Option<u64>,
}

pub struct ChannelRowView {
    pub id: u64,
    pub name: Seq<char>,
    pub kind: ChannelKind,
    pub position: u16,
    pub parent_id: Option<u64>,
}

impl View for ChannelRow {
    type V = ChannelRowView;

    open spec fn view(&self) -> ChannelRowView {
        ChannelRowView {
            id: self.id,
            name: self.name@,
            kind: self.kind,
            position: self.position,
            parent_id: self.parent_id,
        }
    }
}

pub open spec fn channel_rows_view(v: Seq<ChannelRow>) -> Seq<ChannelRowView> {
    v.map_values(|r: ChannelRow| r@)
}

/// Channels ordered by position, then by ID.
pub open spec fn channel_before(a: ChannelRowView, b: ChannelRowView) -> bool {
    a.position < b.position || (a.position == b.position && a.id < b.id)
}

pub open spec fn channel_order() -> spec_fn(ChannelRowView, ChannelRowView) -> bool {
    |a: ChannelRowView, b: ChannelRowView| channel_before(a, b)
}

/// The kinds a listing keeps: those under the `channel_type` filter, or
/// voice and stage channels when there is none.
pub open spec fn kind_keep(filter: Option<Seq<char>>) -> spec_fn(ChannelKind) -> bool {
    |k: ChannelKind|
        match filter {
            Some(f) => kind_matches(k, f),
            None => is_voice_like(k),
        }
}

/// The channels kept by `keep`, in their given order.
pub open spec fn keep_channels(rows: Seq<ChannelRowView>, keep: spec_fn(ChannelKind) -> bool) -> Seq<ChannelRowView>
    decreases rows.len(),
{
    if rows.len() == 0 {
        Seq::empty()
    } else {
        let rest = keep_channels(rows.drop_last(), keep);
        if keep(rows.last().kind) {
            rest.push(rows.last())
        } else {
            rest
        }
    }
}

pub open spec fn is_voice_like(kind: ChannelKind) -> bool {
    kind == ChannelKind::Voice || kind == ChannelKind::Stage
}

/// The channels of a kind that `voice_only` or the filter keeps, ordered by
/// position then ID.
pub open spec fn listed_channels(rows: Seq<ChannelRowView>, filter: Option<Seq<char>>) -> Seq<ChannelRowView> {
    sort_by(keep_channels(rows, kind_keep(filter)), channel_order())
}

fn insert_channel(out: &mut Vec<ChannelRow>, row: ChannelRow)
    ensures
        channel_rows_view(final(out)@) == insert_by(channel_rows_view(old(out)@), row@, channel_order()),
{
    let ghost lt = channel_order();
    let mut p: usize = 0;
    let mut found = false;
    while !found && p < out.len()
        invariant
            p <= out@.len(),
            lt == channel_order(),
            forall|j: int| 0 <= j < p ==> !lt(row@, #[trigger] channel_rows_view(out@)[j]),
            found ==> p < out@.len() && lt(row@, channel_rows_view(out@)[p as int]),
        decreases out@.len() - p + (if found { 0int } else { 1int }),
    {
        let y = &out[p];
        if row.position < y.position || (row.position == y.position && row.id < y.id) {
            found = true;
        } else {
            p = p + 1;
        }
    }
    proof {
        lemma_insert_by_at(channel_rows_view(out@), row@, lt, p as int);
    }
    let ghost before = out@;
    out.insert(p, row);
    assert(channel_rows_view(out@) =~= channel_rows_view(before).insert(p as int, row@));
}

impl ChannelRow {
    pub fn clone_row(&self) -> (r: ChannelRow)
        ensures
            r@ == self@,
    {
        ChannelRow {
            id: self.id,
            name: self.name.clone(),
            kind: self.kind,
            position: self.position,
            parent_id: self.parent_id,
        }
    }
}

/// The channels a listing shows: those of a kind under the `channel_type`
/// filter (`Some`), or the voice and stage channels (`None`), ordered by
/// position then ID.
pub fn select_channels(rows: &Vec<ChannelRow>, filter: Option<&str>) -> (r: Vec<ChannelRow>)
    ensures
        channel_rows_view(r@) == listed_channels(
            channel_rows_view(rows@),
            match filter {
                Some(f) => Some(f@),
                None => None,
            },
        ),
{
    let ghost fv = match filter {
        Some(f) => Some(f@),
        None => None::<Seq<char>>,
    };
    let ghost keep = kind_keep(fv);
    let ghost lt = channel_order();
    let ghost all = channel_rows_view(rows@);
    let mut out: Vec<ChannelRow> = Vec::new();
    let mut i: usize = 0;
    while i < rows.len()
        invariant
            i <= rows@.len(),
            all == channel_rows_view(rows@),
            fv == match filter {
                Some(f) => Some(f@),
                None => None::<Seq<char>>,
            },
            keep == kind_keep(fv),
            lt == channel_order(),
            channel_rows_view(out@) == sort_by(keep_channels(all.subrange(0, i as int), keep), lt),
        decreases rows@.len() - i,
    {
        let ghost pre = all.subrange(0, i as int);
        let ghost cur = all.subrange(0, i + 1);
        assert(cur.drop_last() =~= pre);
        assert(cur.last() == rows@[i as int]@);
        let keep_it = match filter {
            Some(f) => DiscordTool::channel_matches_filter(rows[i].kind, f),
            None => rows[i].kind == ChannelKind::Voice || rows[i].kind == ChannelKind::Stage,
        };
        assert(keep_it == keep(rows@[i as int]@.kind));
        if keep_it {
            let ghost kp = keep_channels(pre, keep);
            assert(keep_channels(cur, keep) == kp.push(rows@[i as int]@));
            assert(kp.push(rows@[i as int]@).drop_last() =~= kp);
            insert_channel(&mut out, rows[i].clone_row());
        } else {
            assert(keep_channels(cur, keep) == keep_channels(pre, keep));
        }
        i = i + 1;
    }
    assert(all.subrange(0, rows@.len() as int) =~= all);
    out
}

/// The positions of the messages whose lowercased content contains the
/// lowercased query, in order.
pub open spec fn matching_messages(contents: Seq<Seq<char>>, query: Seq<char>) -> Seq<usize>
    decreases contents.len(),
{
    if contents.len() == 0 {
        Seq::empty()
    } else {
        let rest = matching_messages(contents.drop_last(), query);
        if contains_seq(unicode_lowercase(contents.last()), unicode_lowercase(query)) {
            rest.push((contents.len() - 1) as usize)
        } else {
            rest
        }
    }
}

/// The positions of the matching messages are positions of messages.
pub proof fn lemma_matching_in_range(contents: Seq<Seq<char>>, query: Seq<char>)
    ensures
        forall|j: int|
            0 <= j < matching_messages(contents, query).len() ==> (#[trigger] matching_messages(
                contents,
                query,
            )[j]) < contents.len(),
    decreases contents.len(),
{
    if contents.len() > 0 {
        lemma_matching_in_range(contents.drop_last(), query);
        let rest = matching_messages(contents.drop_last(), query);
        assert forall|j: int| 0 <= j < matching_messages(contents, query).len() implies (#[trigger] matching_messages(contents, query)[j]) < contents.len() by {
            if j < rest.len() {
                assert(matching_messages(contents, query)[j] == rest[j]);
            }
        }
    }
}

proof fn lemma_insert_by_bounded(s: Seq<usize>, x: usize, lt: spec_fn(usize, usize) -> bool, n: nat)
    requires
        forall|j: int| 0 <= j < s.len() ==> (#[trigger] s[j]) < n,
        x < n,
    ensures
        forall|j: int| 0 <= j < insert_by(s, x, lt).len() ==> (#[trigger] insert_by(s, x, lt)[j]) < n,
    decreases s.len(),
{
    if s.len() > 0 && !lt(x, s[0]) {
        lemma_insert_by_bounded(s.drop_first(), x, lt, n);
        let t = insert_by(s.drop_first(), x, lt);
        assert forall|j: int| 0 <= j < insert_by(s, x, lt).len() implies (#[trigger] insert_by(s, x, lt)[j]) < n by {
            if j > 0 {
                assert(insert_by(s, x, lt)[j] == t[j - 1]);
            }
        }
    }
}

/// Sorting positions keeps them below any bound they were below.
proof fn lemma_sort_by_bounded(s: Seq<usize>, lt: spec_fn(usize, usize) -> bool, n: nat)
    requires
        forall|j: int| 0 <= j < s.len() ==> (#[trigger] s[j]) < n,
    ensures
        forall|j: int| 0 <= j < sort_by(s, lt).len() ==> (#[trigger] sort_by(s, lt)[j]) < n,
    decreases s.len(),
{
    if s.len() > 0 {
        lemma_sort_by_bounded(s.drop_last(), lt, n);
        lemma_insert_by_bounded(sort_by(s.drop_last(), lt), s.last(), lt, n);
    }
}

proof fn lemma_connected_in_range(ms: Seq<MemberRow>, filter: Option<u64>)
    ensures
        forall|j: int|
            0 <= j < members_connected(ms, filter).len() ==> (#[trigger] members_connected(ms, filter)[j]) < ms.len(),
    decreases ms.len(),
{
    if ms.len() > 0 {
        lemma_connected_in_range(ms.drop_last(), filter);
        let rest = members_connected(ms.drop_last(), filter);
        assert forall|j: int| 0 <= j < members_connected(ms, filter).len() implies (#[trigger] members_connected(ms, filter)[j]) < ms.len() by {
            if j < rest.len() {
                assert(members_connected(ms, filter)[j] == rest[j]);
            }
        }
    }
}

/// The positions `list_voice_members` lists are positions of members.
pub proof fn lemma_listed_members_in_range(ms: Seq<MemberRow>, filter: Option<u64>)
    ensures
        forall|j: int|
            0 <= j < sort_by(members_connected(ms, filter), member_order(ms)).len() ==> (#[trigger] sort_by(
                members_connected(ms, filter),
                member_order(ms),
            )[j]) < ms.len(),
{
    lemma_connected_in_range(ms, filter);
    lemma_sort_by_bounded(members_connected(ms, filter), member_order(ms), ms.len());
}

/// The positions of the members in a channel are positions of members.
pub proof fn lemma_members_in_range(ms: Seq<MemberRow>, channel: u64)
    ensures
        forall|j: int| 0 <= j < members_in(ms, channel).len() ==> (#[trigger] members_in(ms, channel)[j]) < ms.len(),
    decreases ms.len(),
{
    if ms.len() > 0 {
        lemma_members_in_range(ms.drop_last(), channel);
        let rest = members_in(ms.drop_last(), channel);
        assert forall|j: int| 0 <= j < members_in(ms, channel).len() implies (#[trigger] members_in(ms, channel)[j]) < ms.len() by {
            if j < rest.len() {
                assert(members_in(ms, channel)[j] == rest[j]);
            }
        }
    }
}

/// `search_messages`: which of the fetched messages match the query.
pub fn search_matches(contents: &Vec<String>, query: &str) -> (r: Vec<usize>)
    ensures
        r@ == matching_messages(contents@.map_values(|s: String| s@), query@),
{
    let ghost cs = contents@.map_values(|s: String| s@);
    let lower_query = lowercase_str(query);
    let q = str_to_chars(lower_query.as_str());
    let mut out: Vec<usize> = Vec::new();
    let mut i: usize = 0;
    while i < contents.len()
        invariant
            i <= contents@.len(),
            cs == contents@.map_values(|s: String| s@),
            q@ == unicode_lowercase(query@),
            out@ == matching_messages(cs.subrange(0, i as int), query@),
        decreases contents@.len() - i,
    {
        assert(cs.subrange(0, i + 1).drop_last() =~= cs.subrange(0, i as int));
        assert(cs.subrange(0, i + 1).last() == contents@[i as int]@);
        let lower = lowercase_str(contents[i].as_str());
        let l = str_to_chars(lower.as_str());
        if contains_chars(&l, &q) {
            out.push(i);
        }
        i = i + 1;
    }
    assert(cs.subrange(0, contents@.len() as int) =~= cs);
    out
}

/// A member in a voice channel: who, under which name, and where.
pub struct MemberRow {
    pub user_id: u64,
    pub display_name: String,
    pub channel_id: Option<u64>,
    pub self_mute: bool,
    pub self_deaf: bool,
    pub mute: bool,
    pub deaf: bool,
}

/// The key members are ordered by: the channel ID as a string (empty for
/// none), then the display name.
pub open spec fn member_key(m: MemberRow) -> (Seq<char>, Seq<char>) {
    (
        match m.channel_id {
            Some(c) => decimal(c as nat),
            None => Seq::empty(),
        },
        m.display_name@,
    )
}

pub open spec fn member_before(a: (Seq<char>, Seq<char>), b: (Seq<char>, Seq<char>)) -> bool {
    lex_lt(a.0, b.0) || (a.0 == b.0 && lex_lt(a.1, b.1))
}

pub open spec fn member_order(ms: Seq<MemberRow>) -> spec_fn(usize, usize) -> bool {
    |i: usize, j: usize| member_before(member_key(ms[i as int]), member_key(ms[j as int]))
}

/// The positions of the members in the given channel, in order.
pub open spec fn members_in(ms: Seq<MemberRow>, channel: u64) -> Seq<usize>
    decreases ms.len(),
{
    if ms.len() == 0 {
        Seq::empty()
    } else {
        let rest = members_in(ms.drop_last(), channel);
        if ms.last().channel_id == Some(channel) {
            rest.push((ms.len() - 1) as usize)
        } else {
            rest
        }
    }
}

/// The positions of the members in a voice channel (the given one, or any).
pub open spec fn members_connected(ms: Seq<MemberRow>, filter: Option<u64>) -> Seq<usize>
    decreases ms.len(),
{
    if ms.len() == 0 {
        Seq::empty()
    } else {
        let rest = members_connected(ms.drop_last(), filter);
        let keep = match filter {
            Some(c) => ms.last().channel_id == Some(c),
            None => ms.last().channel_id is Some,
        };
        if keep {
            rest.push((ms.len() - 1) as usize)
        } else {
            rest
        }
    }
}

/// The members shown under a voice channel of a listing, in the given order.
pub fn members_in_channel(members: &Vec<MemberRow>, channel: u64) -> (r: Vec<usize>)
    ensures
        r@ == members_in(members@, channel),
{
    let mut out: Vec<usize> = Vec::new();
    let mut i: usize = 0;
    while i < members.len()
        invariant
            i <= members@.len(),
            out@ == members_in(members@.subrange(0, i as int), channel),
        decreases members@.len() - i,
    {
        assert(members@.subrange(0, i + 1).drop_last() =~= members@.subrange(0, i as int));
        if members[i].channel_id == Some(channel) {
            out.push(i);
        }
        i = i + 1;
    }
    assert(members@.subrange(0, members@.len() as int) =~= members@);
    out
}

fn member_key_exec(m: &MemberRow) -> (r: (Vec<char>, Vec<char>))
    ensures
        (r.0@, r.1@) == member_key(*m),
{
    let c = match m.channel_id {
        Some(c) => u64_to_decimal(c),
        None => Vec::new(),
    };
    (c, str_to_chars(m.display_name.as_str()))
}

/// `list_voice_members`: the members in a voice channel (the given one, or
/// any), ordered by channel ID string, then display name.
pub fn list_voice_members(members: &Vec<MemberRow>, filter: Option<u64>) -> (r: Vec<usize>)
    ensures
        r@ == sort_by(members_connected(members@, filter), member_order(members@)),
{
    let ghost lt = member_order(members@);
    let mut keys: Vec<(Vec<char>, Vec<char>)> = Vec::new();
    let mut k: usize = 0;
    while k < members.len()
        invariant
            k <= members@.len(),
            keys@.len() == k,
            forall|j: int| 0 <= j < k ==> (#[trigger] keys@[j].0@, keys@[j].1@) == member_key(members@[j]),
        decreases members@.len() - k,
    {
        keys.push(member_key_exec(&members[k]));
        k = k + 1;
    }
    let mut out: Vec<usize> = Vec::new();
    let mut i: usize = 0;
    while i < members.len()
        invariant
            i <= members@.len(),
            keys@.len() == members@.len(),
            forall|j: int| 0 <= j < members@.len() ==> (#[trigger] keys@[j].0@, keys@[j].1@) == member_key(members@[j]),
            lt == member_order(members@),
            forall|j: int| 0 <= j < out@.len() ==> #[trigger] out@[j] < members@.len(),
            out@ == sort_by(members_connected(members@.subrange(0, i as int), filter), lt),
        decreases members@.len() - i,
    {
        let ghost pre = members@.subrange(0, i as int);
        let ghost cur = members@.subrange(0, i + 1);
        assert(cur.drop_last() =~= pre);
        let keep = match filter {
            Some(c) => members[i].channel_id == Some(c),
            None => members[i].channel_id.is_some(),
        };
        if keep {
            let ghost kp = members_connected(pre, filter);
            assert(members_connected(cur, filter) == kp.push(i));
            assert(kp.push(i).drop_last() =~= kp);
            let mut p: usize = 0;
            let mut found = false;
            while !found && p < out.len()
                invariant
                    p <= out@.len(),
                    i < members@.len(),
                    keys@.len() == members@.len(),
                    forall|j: int| 0 <= j < members@.len() ==> (#[trigger] keys@[j].0@, keys@[j].1@) == member_key(members@[j]),
                    forall|j: int| 0 <= j < out@.len() ==> #[trigger] out@[j] < members@.len(),
                    lt == member_order(members@),
                    forall|j: int| 0 <= j < p ==> !lt(i, #[trigger] out@[j]),
                    found ==> p < out@.len() && lt(i, out@[p as int]),
                decreases out@.len() - p + (if found { 0int } else { 1int }),
            {
                let o = out[p];
                let a = &keys[i];
                let b = &keys[o];
                let before = lex_less(&a.0, &b.0) || (chars_eq(&a.0, &b.0) && lex_less(&a.1, &b.1));
                if before {
                    found = true;
                } else {
                    p = p + 1;
                }
            }
            proof {
                lemma_insert_by_at(out@, i, lt, p as int);
            }
            out.insert(p, i);
        } else {
            assert(members_connected(cur, filter) == members_connected(pre, filter));
        }
        i = i + 1;
    }
    assert(members@.subrange(0, members@.len() as int) =~= members@);
    out
}

/// What the model is told the tool does.
pub const DISCORD_TOOL_DOC: &'static str = "Interact with Discord: add/remove reactions, create threads, send/edit/fetch/search messages, and inspect channels/voice presence. Important: when you use send_message, the text is already posted to Discord, so do not repeat the same body again in a normal assistant reply; only send a short confirmation if needed.";

/// What the tool says of `operation`.
pub const OPERATION_DOC: &'static str = "Discord operation to perform.";

/// What the tool says of `guild_id`.
pub const GUILD_ID_DOC: &'static str = "ID of the target guild. Required for: list_channels, list_voice_channels, list_voice_members.";

/// What the tool says of `channel_id`.
pub const CHANNEL_ID_DOC: &'static str = "ID of the target channel. Required for message/reaction/thread operations. Optional filter for list_voice_members.";

/// What the tool says of `message_id`.
pub const MESSAGE_ID_DOC: &'static str = "ID of the target message. Used by: add/remove_reaction, create_thread(from message), send_message(reply_to), edit_message, fetch_message.";

/// What the tool says of `reaction`.
pub const REACTION_DOC: &'static str = "Emoji for reactions. Unicode (e.g. 🫠,😱,👍,👈,🤔) or custom emoji ID. Used by: add_reaction, remove_reaction.";

/// What the tool says of `name`.
pub const NAME_DOC: &'static str = "Name of the thread. Used by: create_thread.";

/// What the tool says of `thread_type`.
pub const THREAD_TYPE_DOC: &'static str = "Type of the thread. 'public' or 'private'. Defaults to 'public'. Used by: create_thread.";

/// What the tool says of `content`.
pub const CONTENT_DOC: &'static str = "Message content. Used by: send_message, edit_message. For send_message, this body is already published to Discord immediately, so do not repeat it again in a separate assistant message.";

/// What the tool says of `reply_to`.
pub const REPLY_TO_DOC: &'static str = "Message ID to reply to. Optional. Used by: send_message.";

/// What the tool says of `query`.
pub const QUERY_DOC: &'static str = "Keyword to search in message content. Used by: search_messages.";

/// What the tool says of `limit`.
pub const LIMIT_DOC: &'static str = "Max number of recent messages to scan (1–100). Defaults to 50. Used by: search_messages.";

/// What the tool says of `channel_type`.
pub const CHANNEL_TYPE_DOC: &'static str = "Filter for list_channels. Defaults to 'all'.";

/// What the tool says of `include_members`.
pub const INCLUDE_MEMBERS_DOC: &'static str = "Include current member list for voice/stage channels. Used by: list_channels, list_voice_channels.";

/// The operations the tool offers, in the order its schema lists them.
pub open spec fn discord_operations() -> Seq<Seq<char>> {
    seq![
        "add_reaction"@,
        "remove_reaction"@,
        "create_thread"@,
        "send_message"@,
        "edit_message"@,
        "fetch_message"@,
        "search_messages"@,
        "list_channels"@,
        "list_voice_channels"@,
        "list_voice_members"@,
    ]
}

/// The kinds of thread the tool offers to create.
pub open spec fn thread_types() -> Seq<Seq<char>> {
    seq!["public"@, "private"@]
}

/// The channel filters the tool offers for `list_channels`.
pub open spec fn channel_type_filters() -> Seq<Seq<char>> {
    seq!["all"@, "text"@, "voice"@, "stage"@, "category"@]
}

/// Whether the tool carries out the operation `op` (any other is answered
/// with the list of those it does).
pub open spec fn discord_operation_understood(op: Seq<char>) -> bool {
    ||| op == "add_reaction"@
    ||| op == "remove_reaction"@
    ||| op == "create_thread"@
    ||| op == "send_message"@
    ||| op == "edit_message"@
    ||| op == "fetch_message"@
    ||| op == "search_messages"@
    ||| op == "list_channels"@
    ||| op == "list_voice_channels"@
    ||| op == "list_voice_members"@
}

/// The tool's properties, in the order its schema lists them.
pub open spec fn discord_properties() -> Seq<(Seq<char>, JsonV)> {
    seq![
        ("operation"@, enum_property_view(OPERATION_DOC@, discord_operations())),
        ("guild_id"@, property_view("string"@, GUILD_ID_DOC@)),
        ("channel_id"@, property_view("string"@, CHANNEL_ID_DOC@)),
        ("message_id"@, property_view("string"@, MESSAGE_ID_DOC@)),
        ("reaction"@, property_view("string"@, REACTION_DOC@)),
        ("name"@, property_view("string"@, NAME_DOC@)),
        ("thread_type"@, enum_property_view(THREAD_TYPE_DOC@, thread_types())),
        ("content"@, property_view("string"@, CONTENT_DOC@)),
        ("reply_to"@, property_view("string"@, REPLY_TO_DOC@)),
        ("query"@, property_view("string"@, QUERY_DOC@)),
        ("limit"@, property_view("integer"@, LIMIT_DOC@)),
        ("channel_type"@, enum_property_view(CHANNEL_TYPE_DOC@, channel_type_filters())),
        ("include_members"@, property_view("boolean"@, INCLUDE_MEMBERS_DOC@)),
    ]
}

/// The tool's parameters; only `operation` is required.
pub open spec fn discord_parameters() -> JsonV {
    object_schema_view(discord_properties(), seq!["operation"@])
}

impl DiscordTool {
    /// The name the model calls the tool by.
    pub fn name(&self) -> (r: String)
        ensures
            r@ == "discord-tool"@,
    {
        String::from_str("discord-tool")
    }

    /// What the model is told the tool does.
    pub fn description(&self) -> (r: String)
        ensures
            r@ == DISCORD_TOOL_DOC@,
    {
        String::from_str(DISCORD_TOOL_DOC)
    }

    /// The schema of the tool's parameters.
    pub fn json_schema(&self) -> (r: Json)
        ensures
            r@ == discord_parameters(),
    {
        let mut ops: Vec<&str> = Vec::new();
        ops.push("add_reaction");
        ops.push("remove_reaction");
        ops.push("create_thread");
        ops.push("send_message");
        ops.push("edit_message");
        ops.push("fetch_message");
        ops.push("search_messages");
        ops.push("list_channels");
        ops.push("list_voice_channels");
        ops.push("list_voice_members");
        assert(ops@.map_values(|s: &str| s@) =~= discord_operations());
        let mut threads: Vec<&str> = Vec::new();
        threads.push("public");
        threads.push("private");
        assert(threads@.map_values(|s: &str| s@) =~= thread_types());
        let mut channel_types: Vec<&str> = Vec::new();
        channel_types.push("all");
        channel_types.push("text");
        channel_types.push("voice");
        channel_types.push("stage");
        channel_types.push("category");
        assert(channel_types@.map_values(|s: &str| s@) =~= channel_type_filters());
        let mut props = new_members();
        push_member(&mut props, "operation", enum_property(OPERATION_DOC, &ops));
        push_member(&mut props, "guild_id", property("string", GUILD_ID_DOC));
        push_member(&mut props, "channel_id", property("string", CHANNEL_ID_DOC));
        push_member(&mut props, "message_id", property("string", MESSAGE_ID_DOC));
        push_member(&mut props, "reaction", property("string", REACTION_DOC));
        push_member(&mut props, "name", property("string", NAME_DOC));
        push_member(&mut props, "thread_type", enum_property(THREAD_TYPE_DOC, &threads));
        push_member(&mut props, "content", property("string", CONTENT_DOC));
        push_member(&mut props, "reply_to", property("string", REPLY_TO_DOC));
        push_member(&mut props, "query", property("string", QUERY_DOC));
        push_member(&mut props, "limit", property("integer", LIMIT_DOC));
        push_member(&mut props, "channel_type", enum_property(CHANNEL_TYPE_DOC, &channel_types));
        push_member(&mut props, "include_members", property("boolean", INCLUDE_MEMBERS_DOC));
        let mut required: Vec<&str> = Vec::new();
        required.push("operation");
        assert(required@.map_values(|s: &str| s@) =~= seq!["operation"@]);
        assert(members_view(props@) =~= discord_properties());
        object_schema(props, &required)
    }
}

/// The operations the tool's schema offers the model are exactly the
/// operations the tool carries out.
pub proof fn lemma_discord_operations_offered(op: Seq<char>)
    ensures
        enum_values(schema_property(discord_parameters(), "operation"@)).contains(JsonV::Str(op))
            <==> discord_operation_understood(op),
{
    lemma_object_schema_property(discord_properties(), seq!["operation"@], "operation"@);
    lemma_enum_property_values(OPERATION_DOC@, discord_operations());
    lemma_str_items_contains(discord_operations(), op);
    let ops = discord_operations();
    if discord_operation_understood(op) {
        if op == "add_reaction"@ {
            assert(ops[0] == op);
        } else if op == "remove_reaction"@ {
            assert(ops[1] == op);
        } else if op == "create_thread"@ {
            assert(ops[2] == op);
        } else if op == "send_message"@ {
            assert(ops[3] == op);
        } else if op == "edit_message"@ {
            assert(ops[4] == op);
        } else if op == "fetch_message"@ {
            assert(ops[5] == op);
        } else if op == "search_messages"@ {
            assert(ops[6] == op);
        } else if op == "list_channels"@ {
            assert(ops[7] == op);
        } else if op == "list_voice_channels"@ {
            assert(ops[8] == op);
        } else {
            assert(ops[9] == op);
        }
    }
}

/// The kinds of thread the schema offers are exactly those `create_thread`
/// accepts.
pub proof fn lemma_thread_types_offered(t: Seq<char>)
    ensures
        enum_values(schema_property(discord_parameters(), "thread_type"@)).contains(JsonV::Str(t))
            <==> (t == "public"@ || t == "private"@),
{
    reveal_strlit("operation");
    reveal_strlit("guild_id");
    reveal_strlit("channel_id");
    reveal_strlit("message_id");
    reveal_strlit("reaction");
    reveal_strlit("name");
    reveal_strlit("thread_type");
    let ps = discord_properties();
    lemma_object_schema_property(ps, seq!["operation"@], "thread_type"@);
    assert forall|i: int| 0 <= i < 6 implies ps[i].0 != "thread_type"@ by {
        assert(ps[i].0.len() != "thread_type"@.len());
    }
    lemma_member_of_skip(ps, "thread_type"@, 6);
    assert(ps.subrange(6, ps.len() as int)[0] == ps[6]);
    lemma_enum_property_values(THREAD_TYPE_DOC@, thread_types());
    lemma_str_items_contains(thread_types(), t);
    if t == "private"@ {
        assert(thread_types()[1] == t);
    }
}

} // verus!
