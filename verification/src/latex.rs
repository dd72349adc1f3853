//! The `latex-expr-render-tool`: reading where a formula is posted. The
//! rendering itself is done by the caller.
use vstd::prelude::*;
use crate::text::{push_str, parse_u64_str, parse_unsigned, parse_error_kind, int_error_message, IntParseError};
use crate::tool_args::{ToolArgs, arg_str, invalid_param};
use crate::discord_tool::snowflake_result;
use crate::schema::{Json, JsonV, members_view};
use crate::tool_schema::{object_schema_view, property_view, new_members, push_member, property, object_schema};

verus! {

/// A formula to render and post: to a channel, replying to a message or not.
pub struct LatexRequest {
    pub channel_id: u64,
    pub expression: String,
    pub reply_to: Option<u64>,
}

/// The reply-to message of a formula post, from its non-empty ID text.
pub open spec fn reply_id_result(raw: Seq<char>) -> Result<u64, Seq<char>> {
    match parse_unsigned(raw, u64::MAX as nat) {
        Some(v) => if v == 0 {
            Err("Invalid 'reply_to' message id: "@ + int_error_message(IntParseError::Zero))
        } else {
            Ok(v as u64)
        },
        None => Err("Invalid 'reply_to' message id: "@ + int_error_message(parse_error_kind(raw))),
    }
}

/// The post the arguments ask for: `(channel, expression, reply_to)`, or the
/// error that refuses them.
pub open spec fn latex_request(a: ToolArgs) -> Result<(u64, Seq<char>, Option<u64>), Seq<char>> {
    match arg_str(a, "channel_id"@) {
        None => Err("Missing or invalid 'channel_id'"@),
        Some(ch) => match arg_str(a, "expression"@) {
            None => Err("Missing or invalid 'expression'"@),
            Some(expr) => match snowflake_result(ch, "channel_id"@) {
                Err(e) => Err(e),
                Ok(cid) => {
                    let reply = match arg_str(a, "reply_to"@) {
                        Some(r) => if r.len() > 0 {
                            match reply_id_result(r) {
                                Ok(id) => Ok(Some(id)),
                                Err(e) => Err(e),
                            }
                        } else {
                            Ok(None)
                        },
                        None => Ok(None),
                    };
                    match reply {
                        Err(e) => Err(e),
                        Ok(reply_to) => Ok((cid, expr, reply_to)),
                    }
                },
            },
        },
    }
}

/// The `latex_expr_render` tool.
pub struct LatexExprRenderTool {}

/// What the tool says of `channel_id`.
pub const CHANNEL_ID_DOC: &'static str = "ID of the target channel on Discord.";

/// What the tool says of `reply_to`.
pub const REPLY_TO_DOC: &'static str = "Optional message ID to reply to.";

/// What the tool says of `expression`.
pub const EXPRESSION_DOC: &'static str = "The LaTeX expression to render.";

/// The tool's parameters: `channel_id` and `expression`, required, and
/// `reply_to`.
pub open spec fn latex_parameters() -> JsonV {
    object_schema_view(
        seq![
            ("channel_id"@, property_view("string"@, CHANNEL_ID_DOC@)),
            ("reply_to"@, property_view("string"@, REPLY_TO_DOC@)),
            ("expression"@, property_view("string"@, EXPRESSION_DOC@)),
        ],
        seq!["expression"@, "channel_id"@],
    )
}

impl LatexExprRenderTool {
    pub fn new() -> (r: LatexExprRenderTool) {
        LatexExprRenderTool {  }
    }

    /// The name the model calls the tool by.
    pub fn name(&self) -> (r: String)
        ensures
            r@ == "latex_expr_render"@,
    {
        String::from_str("latex_expr_render")
    }

    /// What the model is told the tool does.
    pub fn description(&self) -> (r: String)
        ensures
            r@ == "Render LaTeX expressions to images and send to Discord."@,
    {
        String::from_str("Render LaTeX expressions to images and send to Discord.")
    }

    /// The schema of the tool's parameters.
    pub fn json_schema(&self) -> (r: Json)
        ensures
            r@ == latex_parameters(),
    {
        let mut props = new_members();
        push_member(&mut props, "channel_id", property("string", CHANNEL_ID_DOC));
        push_member(&mut props, "reply_to", property("string", REPLY_TO_DOC));
        push_member(&mut props, "expression", property("string", EXPRESSION_DOC));
        let mut required: Vec<&str> = Vec::new();
        required.push("expression");
        required.push("channel_id");
        assert(required@.map_values(|s: &str| s@) =~= seq!["expression"@, "channel_id"@]);
        assert(members_view(props@) =~= seq![
            ("channel_id"@, property_view("string"@, CHANNEL_ID_DOC@)),
            ("reply_to"@, property_view("string"@, REPLY_TO_DOC@)),
            ("expression"@, property_view("string"@, EXPRESSION_DOC@)),
        ]);
        object_schema(props, &required)
    }

    /// Reads the post that a tool call asks for.
    pub fn plan(args: &ToolArgs) -> (r: Result<LatexRequest, String>)
        ensures
            match r {
                Ok(p) => latex_request(*args) == Ok::<(u64, Seq<char>, Option<u64>), Seq<char>>(
                    (p.channel_id, p.expression@, p.reply_to),
                ),
                Err(e) => latex_request(*args) == Err::<(u64, Seq<char>, Option<u64>), Seq<char>>(e@),
            },
    {
        let channel = match args.get_str("channel_id") {
            Some(c) => c,
            None => {
                return Err(String::from_str("Missing or invalid 'channel_id'"));
            },
        };
        let expression = match args.get_str("expression") {
            Some(e) => e,
            None => {
                return Err(String::from_str("Missing or invalid 'expression'"));
            },
        };
        let channel_id = match parse_u64_str(channel.as_str()) {
            Ok(v) => if v == 0 {
                let m = IntParseError::Zero.message();
                return Err(invalid_param("channel_id", m.as_str()));
            } else {
                v
            },
            Err(e) => {
                let m = e.message();
                return Err(invalid_param("channel_id", m.as_str()));
            },
        };
        let reply_to = match args.get_str("reply_to") {
            Some(r) => if r.unicode_len() > 0 {
                match parse_u64_str(r.as_str()) {
                    Ok(v) => if v == 0 {
                        let mut s = String::from_str("Invalid 'reply_to' message id: ");
                        let m = IntParseError::Zero.message();
                        push_str(&mut s, m.as_str());
                        return Err(s);
                    } else {
                        Some(v)
                    },
                    Err(e) => {
                        let mut s = String::from_str("Invalid 'reply_to' message id: ");
                        let m = e.message();
                        push_str(&mut s, m.as_str());
                        return Err(s);
                    },
                }
            } else {
                None
            },
            None => None,
        };
        Ok(LatexRequest { channel_id, expression, reply_to })
    }
}

} // verus!
