//! The `modal-builder-tool`: reading a Discord modal definition from the
//! tool's arguments, and the custom IDs of the trigger button and the modal.
use vstd::prelude::*;
use crate::text::{push_str, str_eq, u64_string, decimal};
use crate::tool_args::{
    ToolArgs, ArgValue, arg_str, arg_bool, arg_u64, arg_list, missing_message, missing_param,
};
use crate::voicevox_tool::{opt_view, str_arg_result};
use crate::discord_tool::{snowflake_result, snowflake};
use crate::schema::{Json, JsonV, members_view, items_view, put_member, put_member_exec};
use crate::tool_schema::{
    object_schema_view, property_view, enum_property_view, array_property_view, schema_property,
    enum_values, lemma_str_items_contains, lemma_object_schema_property,
    lemma_enum_property_values, lemma_member_of_skip, new_members, push_member, property,
    enum_property, array_property, object_schema, object, array, json_str, push_item, array_items,
    lemma_array_property_items,
};

verus! {

/// Prefix of the custom ID of a trigger button.
pub const MODAL_TRIGGER_PREFIX: &'static str = "modal_builder:open:";

/// Prefix of the custom ID of a submitted modal.
pub const MODAL_SUBMIT_PREFIX: &'static str = "modal_builder:submit:";

/// A text input of a modal.
pub struct ModalInputSpec {
    pub label: String,
    pub custom_id: String,
    /// Paragraph style; short otherwise.
    pub paragraph: bool,
    pub placeholder: Option<String>,
    pub value: Option<String>,
    pub required: bool,
    pub min_length: Option<u16>,
    pub max_length: Option<u16>,
}

pub struct ModalInputView {
    pub label: Seq<char>,
    pub custom_id: Seq<char>,
    pub paragraph: bool,
    pub placeholder: Option<Seq<char>>,
    pub value: Option<Seq<char>>,
    pub required: bool,
    pub min_length: Option<u16>,
    pub max_length: Option<u16>,
}

impl View for ModalInputSpec {
    type V = ModalInputView;

    open spec fn view(&self) -> ModalInputView {
        ModalInputView {
            label: self.label@,
            custom_id: self.custom_id@,
            paragraph: self.paragraph,
            placeholder: opt_view(self.placeholder),
            value: opt_view(self.value),
            required: self.required,
            min_length: self.min_length,
            max_length: self.max_length,
        }
    }
}

/// A modal: its title, the custom ID it was given, and its text inputs.
pub struct ModalSpec {
    pub title: String,
    pub logical_custom_id: String,
    pub inputs: Vec<ModalInputSpec>,
}

pub struct ModalView {
    pub title: Seq<char>,
    pub logical_custom_id: Seq<char>,
    pub inputs: Seq<ModalInputView>,
}

impl View for ModalSpec {
    type V = ModalView;

    open spec fn view(&self) -> ModalView {
        ModalView {
            title: self.title@,
            logical_custom_id: self.logical_custom_id@,
            inputs: self.inputs@.map_values(|i: ModalInputSpec| i@),
        }
    }
}

/// "inputs[{idx}]" followed by a text.
pub open spec fn input_message(idx: nat, rest: Seq<char>) -> Seq<char> {
    "inputs["@ + decimal(idx) + "]"@ + rest
}

/// An optional length of an input: absent, or an unsigned number that must
/// fit in `u16`.
pub open spec fn length_result(a: ToolArgs, key: Seq<char>, idx: nat) -> Result<Option<u16>, Seq<char>> {
    match arg_u64(a, key) {
        None => Ok(None),
        Some(n) => if n <= 65535 {
            Ok(Some(n as u16))
        } else {
            Err(input_message(idx, "."@ + key + " must be <= 65535"@))
        },
    }
}

/// The text input that the `idx`-th element of `inputs` defines.
pub open spec fn input_result(a: ToolArgs, idx: nat) -> Result<ModalInputView, Seq<char>> {
    match arg_str(a, "label"@) {
        None => Err(input_message(idx, ".label is required"@)),
        Some(label) => match arg_str(a, "custom_id"@) {
            None => Err(input_message(idx, ".custom_id is required"@)),
            Some(cid) => {
                let style = match arg_str(a, "style"@) {
                    Some(s) => s,
                    None => "short"@,
                };
                if style != "short"@ && style != "paragraph"@ {
                    Err(
                        input_message(
                            idx,
                            ".style must be 'short' or 'paragraph', got '"@ + style + "'"@,
                        ),
                    )
                } else {
                    match length_result(a, "min_length"@, idx) {
                        Err(e) => Err(e),
                        Ok(min) => match length_result(a, "max_length"@, idx) {
                            Err(e) => Err(e),
                            Ok(max) => Ok(
                                ModalInputView {
                                    label,
                                    custom_id: cid,
                                    paragraph: style == "paragraph"@,
                                    placeholder: arg_str(a, "placeholder"@),
                                    value: arg_str(a, "value"@),
                                    required: arg_bool(a, "required"@) != Some(false),
                                    min_length: min,
                                    max_length: max,
                                },
                            ),
                        },
                    }
                }
            },
        },
    }
}

/// The inputs that a list of definitions gives, or the error of the first
/// one that is refused.
pub open spec fn inputs_result(items: Seq<ToolArgs>) -> Result<Seq<ModalInputView>, Seq<char>>
    decreases items.len(),
{
    if items.len() == 0 {
        Ok(Seq::empty())
    } else {
        match inputs_result(items.drop_last()) {
            Err(e) => Err(e),
            Ok(prev) => match input_result(items.last(), (items.len() - 1) as nat) {
                Err(e) => Err(e),
                Ok(i) => Ok(prev.push(i)),
            },
        }
    }
}

/// The modal that the arguments define, or the error that refuses them.
pub open spec fn modal_result(a: ToolArgs) -> Result<ModalView, Seq<char>> {
    match str_arg_result(a, "title"@) {
        Err(e) => Err(e),
        Ok(title) => match str_arg_result(a, "custom_id"@) {
            Err(e) => Err(e),
            Ok(cid) => match arg_list(a, "inputs"@) {
                None => Err(missing_message("inputs"@)),
                Some(items) => if items.len() == 0 {
                    Err("'inputs' must contain at least one field"@)
                } else {
                    match inputs_result(items) {
                        Err(e) => Err(e),
                        Ok(inputs) => Ok(ModalView { title, logical_custom_id: cid, inputs }),
                    }
                },
            },
        },
    }
}

fn input_error(idx: usize, rest: &str) -> (r: String)
    ensures
        r@ == input_message(idx as nat, rest@),
{
    let mut s = String::from_str("inputs[");
    let n = u64_string(idx as u64);
    push_str(&mut s, n.as_str());
    push_str(&mut s, "]");
    push_str(&mut s, rest);
    s
}

fn parse_length(a: &ToolArgs, key: &str, idx: usize) -> (r: Result<Option<u16>, String>)
    ensures
        match r {
            Ok(v) => length_result(*a, key@, idx as nat) == Ok::<Option<u16>, Seq<char>>(v),
            Err(e) => length_result(*a, key@, idx as nat) == Err::<Option<u16>, Seq<char>>(e@),
        },
{
    match a.get_u64(key) {
        None => Ok(None),
        Some(n) => if n <= 65535 {
            Ok(Some(n as u16))
        } else {
            let mut rest = String::from_str(".");
            push_str(&mut rest, key);
            push_str(&mut rest, " must be <= 65535");
            Err(input_error(idx, rest.as_str()))
        },
    }
}

fn parse_input(a: &ToolArgs, idx: usize) -> (r: Result<ModalInputSpec, String>)
    ensures
        match r {
            Ok(v) => input_result(*a, idx as nat) == Ok::<ModalInputView, Seq<char>>(v@),
            Err(e) => input_result(*a, idx as nat) == Err::<ModalInputView, Seq<char>>(e@),
        },
{
    let label = match a.get_str("label") {
        Some(l) => l,
        None => {
            return Err(input_error(idx, ".label is required"));
        },
    };
    let custom_id = match a.get_str("custom_id") {
        Some(c) => c,
        None => {
            return Err(input_error(idx, ".custom_id is required"));
        },
    };
    let style = match a.get_str("style") {
        Some(s) => s,
        None => String::from_str("short"),
    };
    let paragraph = str_eq(style.as_str(), "paragraph");
    if !str_eq(style.as_str(), "short") && !paragraph {
        let mut rest = String::from_str(".style must be 'short' or 'paragraph', got '");
        push_str(&mut rest, style.as_str());
        push_str(&mut rest, "'");
        return Err(input_error(idx, rest.as_str()));
    }
    let min_length = match parse_length(a, "min_length", idx) {
        Ok(v) => v,
        Err(e) => {
            return Err(e);
        },
    };
    let max_length = match parse_length(a, "max_length", idx) {
        Ok(v) => v,
        Err(e) => {
            return Err(e);
        },
    };
    let required = match a.get_bool("required") {
        Some(b) => b,
        None => true,
    };
    Ok(
        ModalInputSpec {
            label,
            custom_id,
            paragraph,
            placeholder: a.get_str("placeholder"),
            value: a.get_str("value"),
            required,
            min_length,
            max_length,
        },
    )
}

/// The `modal-builder-tool`.
pub struct ModalBuilderTool {}

impl ModalBuilderTool {
    pub fn new() -> (r: ModalBuilderTool) {
        ModalBuilderTool {  }
    }

    /// A required string argument.
    pub fn get_str_arg(args: &ToolArgs, key: &str) -> (r: Result<String, String>)
        ensures
            match r {
                Ok(s) => str_arg_result(*args, key@) == Ok::<Seq<char>, Seq<char>>(s@),
                Err(e) => str_arg_result(*args, key@) == Err::<Seq<char>, Seq<char>>(e@),
            },
    {
        match args.get_str(key) {
            Some(s) => Ok(s),
            None => Err(missing_param(key)),
        }
    }

    /// Reads the modal the arguments define.
    pub fn parse_modal_spec(args: &ToolArgs) -> (r: Result<ModalSpec, String>)
        ensures
            match r {
                Ok(m) => modal_result(*args) == Ok::<ModalView, Seq<char>>(m@),
                Err(e) => modal_result(*args) == Err::<ModalView, Seq<char>>(e@),
            },
    {
        let title = match Self::get_str_arg(args, "title") {
            Ok(t) => t,
            Err(e) => {
                return Err(e);
            },
        };
        let logical_custom_id = match Self::get_str_arg(args, "custom_id") {
            Ok(t) => t,
            Err(e) => {
                return Err(e);
            },
        };
        let items = match args.get("inputs") {
            Some(ArgValue::List(items)) => items,
            _ => {
                return Err(missing_param("inputs"));
            },
        };
        if items.len() == 0 {
            return Err(String::from_str("'inputs' must contain at least one field"));
        }
        let mut inputs: Vec<ModalInputSpec> = Vec::new();
        let mut i: usize = 0;
        assert(items@.subrange(0, 0) =~= Seq::<ToolArgs>::empty());
        assert(inputs@.map_values(|x: ModalInputSpec| x@) =~= Seq::<ModalInputView>::empty());
        while i < items.len()
            invariant
                i <= items@.len(),
                items@.len() > 0,
                arg_list(*args, "inputs"@) == Some(items@),
                str_arg_result(*args, "title"@) == Ok::<Seq<char>, Seq<char>>(title@),
                str_arg_result(*args, "custom_id"@) == Ok::<Seq<char>, Seq<char>>(logical_custom_id@),
                inputs_result(items@.subrange(0, i as int)) == Ok::<Seq<ModalInputView>, Seq<char>>(
                    inputs@.map_values(|x: ModalInputSpec| x@),
                ),
            decreases items@.len() - i,
        {
            let ghost pre = items@.subrange(0, i as int);
            let ghost cur = items@.subrange(0, i + 1);
            assert(cur.drop_last() =~= pre);
            match parse_input(&items[i], i) {
                Ok(input) => {
                    let ghost before = inputs@.map_values(|x: ModalInputSpec| x@);
                    let ghost iv = input@;
                    inputs.push(input);
                    assert(inputs@.map_values(|x: ModalInputSpec| x@) =~= before.push(iv));
                },
                Err(e) => {
                    proof {
                        assert(inputs_result(cur) == Err::<Seq<ModalInputView>, Seq<char>>(e@));
                        lemma_inputs_error_stays(items@, i as int);
                    }
                    return Err(e);
                },
            }
            i = i + 1;
        }
        assert(items@.subrange(0, items@.len() as int) =~= items@);
        Ok(ModalSpec { title, logical_custom_id, inputs })
    }
}

/// Once an input is refused, the list is refused with its error.
proof fn lemma_inputs_error_stays(items: Seq<ToolArgs>, i: int)
    requires
        0 <= i < items.len(),
        inputs_result(items.subrange(0, i + 1)) is Err,
    ensures
        inputs_result(items) == inputs_result(items.subrange(0, i + 1)),
    decreases items.len() - i,
{
    if i + 1 == items.len() {
        assert(items.subrange(0, i + 1) =~= items);
    } else {
        assert(items.drop_last().subrange(0, i + 1) =~= items.subrange(0, i + 1));
        lemma_inputs_error_stays(items.drop_last(), i);
    }
}

/// The custom IDs of a trigger button and of its modal, from a sequence number.
pub fn modal_custom_ids(seq: u64) -> (r: (String, String))
    ensures
        r.0@ == MODAL_TRIGGER_PREFIX@ + decimal(seq as nat),
        r.1@ == MODAL_SUBMIT_PREFIX@ + decimal(seq as nat),
{
    let n = u64_string(seq);
    let mut t = String::from_str(MODAL_TRIGGER_PREFIX);
    push_str(&mut t, n.as_str());
    let mut s = String::from_str(MODAL_SUBMIT_PREFIX);
    push_str(&mut s, n.as_str());
    (t, s)
}

/// Whether a modal submission comes from a modal of this tool.
pub fn is_modal_submission(custom_id: &str) -> (r: bool)
    ensures
        r == crate::text::starts_with_seq(custom_id@, MODAL_SUBMIT_PREFIX@),
{
    let c = crate::text::str_to_chars(custom_id);
    let p = crate::text::str_to_chars(MODAL_SUBMIT_PREFIX);
    crate::text::starts_with_chars(&c, &p)
}

/// What the model is told the tool does.
pub const MODAL_TOOL_DOC: &'static str = "Build Discord modal definitions. Use build_modal to only generate payload JSON, or build_and_send_trigger to post a button in Discord that opens the modal when clicked. If the user expects a visible action in Discord, prefer build_and_send_trigger.";

/// What the tool says of `operation`.
pub const OPERATION_DOC: &'static str = "Operation to run. Use build_and_send_trigger for actual Discord-side modal opening flow.";

/// What the tool says of `channel_id`.
pub const CHANNEL_ID_DOC: &'static str = "Target channel ID. Required for build_and_send_trigger.";

/// What the tool says of `title`.
pub const TITLE_DOC: &'static str = "Modal title. Required for build_modal.";

/// What the tool says of `custom_id`.
pub const CUSTOM_ID_DOC: &'static str = "Modal custom ID. Required for build_modal.";

/// What the tool says of `inputs`.
pub const INPUTS_DOC: &'static str = "List of text input definitions.";

/// What the tool says of `trigger_label`.
pub const TRIGGER_LABEL_DOC: &'static str = "Button label used by build_and_send_trigger. Defaults to 'Open modal'.";

/// What the tool says of `trigger_message`.
pub const TRIGGER_MESSAGE_DOC: &'static str = "Message body posted with the trigger button. Defaults to a short guide text.";

/// What the tool says of `label`.
pub const INPUT_LABEL_DOC: &'static str = "Input label.";

/// What the tool says of `custom_id`.
pub const INPUT_CUSTOM_ID_DOC: &'static str = "Input custom ID.";

/// What the tool says of `style`.
pub const INPUT_STYLE_DOC: &'static str = "Input style. 'short' or 'paragraph'. Defaults to 'short'.";

/// What the tool says of `placeholder`.
pub const INPUT_PLACEHOLDER_DOC: &'static str = "Optional placeholder text.";

/// What the tool says of `value`.
pub const INPUT_VALUE_DOC: &'static str = "Optional prefilled value.";

/// What the tool says of `required`.
pub const INPUT_REQUIRED_DOC: &'static str = "Whether this input is required. Defaults to true.";

/// What the tool says of `min_length`.
pub const INPUT_MIN_LENGTH_DOC: &'static str = "Optional minimum length.";

/// What the tool says of `max_length`.
pub const INPUT_MAX_LENGTH_DOC: &'static str = "Optional maximum length.";

/// The operations the tool offers, in the order its schema lists them.
pub open spec fn modal_operations() -> Seq<Seq<char>> {
    seq!["build_modal"@, "build_and_send_trigger"@]
}

/// The styles a text input may have.
pub open spec fn input_styles() -> Seq<Seq<char>> {
    seq!["short"@, "paragraph"@]
}

/// The properties of one text input definition.
pub open spec fn modal_input_properties() -> Seq<(Seq<char>, JsonV)> {
    seq![
        ("label"@, property_view("string"@, INPUT_LABEL_DOC@)),
        ("custom_id"@, property_view("string"@, INPUT_CUSTOM_ID_DOC@)),
        ("style"@, enum_property_view(INPUT_STYLE_DOC@, input_styles())),
        ("placeholder"@, property_view("string"@, INPUT_PLACEHOLDER_DOC@)),
        ("value"@, property_view("string"@, INPUT_VALUE_DOC@)),
        ("required"@, property_view("boolean"@, INPUT_REQUIRED_DOC@)),
        ("min_length"@, property_view("integer"@, INPUT_MIN_LENGTH_DOC@)),
        ("max_length"@, property_view("integer"@, INPUT_MAX_LENGTH_DOC@)),
    ]
}

/// The schema of one text input definition; `label` and `custom_id` are
/// required.
pub open spec fn modal_input_schema() -> JsonV {
    object_schema_view(modal_input_properties(), seq!["label"@, "custom_id"@])
}

/// The tool's properties, in the order its schema lists them.
pub open spec fn modal_properties() -> Seq<(Seq<char>, JsonV)> {
    seq![
        ("operation"@, enum_property_view(OPERATION_DOC@, modal_operations())),
        ("channel_id"@, property_view("string"@, CHANNEL_ID_DOC@)),
        ("title"@, property_view("string"@, TITLE_DOC@)),
        ("custom_id"@, property_view("string"@, CUSTOM_ID_DOC@)),
        ("inputs"@, array_property_view(INPUTS_DOC@, modal_input_schema())),
        ("trigger_label"@, property_view("string"@, TRIGGER_LABEL_DOC@)),
        ("trigger_message"@, property_view("string"@, TRIGGER_MESSAGE_DOC@)),
    ]
}

/// The tool's parameters; `operation`, `title`, `custom_id` and `inputs` are
/// required.
pub open spec fn modal_parameters() -> JsonV {
    object_schema_view(modal_properties(), seq!["operation"@, "title"@, "custom_id"@, "inputs"@])
}

impl ModalBuilderTool {
    /// The name the model calls the tool by.
    pub fn name(&self) -> (r: String)
        ensures
            r@ == "modal-builder-tool"@,
    {
        String::from_str("modal-builder-tool")
    }

    /// What the model is told the tool does.
    pub fn description(&self) -> (r: String)
        ensures
            r@ == MODAL_TOOL_DOC@,
    {
        String::from_str(MODAL_TOOL_DOC)
    }

    /// The schema of the tool's parameters.
    pub fn json_schema(&self) -> (r: Json)
        ensures
            r@ == modal_parameters(),
    {
        let mut styles: Vec<&str> = Vec::new();
        styles.push("short");
        styles.push("paragraph");
        assert(styles@.map_values(|s: &str| s@) =~= input_styles());
        let mut input_props = new_members();
        push_member(&mut input_props, "label", property("string", INPUT_LABEL_DOC));
        push_member(&mut input_props, "custom_id", property("string", INPUT_CUSTOM_ID_DOC));
        push_member(&mut input_props, "style", enum_property(INPUT_STYLE_DOC, &styles));
        push_member(&mut input_props, "placeholder", property("string", INPUT_PLACEHOLDER_DOC));
        push_member(&mut input_props, "value", property("string", INPUT_VALUE_DOC));
        push_member(&mut input_props, "required", property("boolean", INPUT_REQUIRED_DOC));
        push_member(&mut input_props, "min_length", property("integer", INPUT_MIN_LENGTH_DOC));
        push_member(&mut input_props, "max_length", property("integer", INPUT_MAX_LENGTH_DOC));
        let mut input_required: Vec<&str> = Vec::new();
        input_required.push("label");
        input_required.push("custom_id");
        assert(input_required@.map_values(|s: &str| s@) =~= seq!["label"@, "custom_id"@]);
        assert(members_view(input_props@) =~= modal_input_properties());
        let input_schema = object_schema(input_props, &input_required);
        let mut ops: Vec<&str> = Vec::new();
        ops.push("build_modal");
        ops.push("build_and_send_trigger");
        assert(ops@.map_values(|s: &str| s@) =~= modal_operations());
        let mut props = new_members();
        push_member(&mut props, "operation", enum_property(OPERATION_DOC, &ops));
        push_member(&mut props, "channel_id", property("string", CHANNEL_ID_DOC));
        push_member(&mut props, "title", property("string", TITLE_DOC));
        push_member(&mut props, "custom_id", property("string", CUSTOM_ID_DOC));
        push_member(&mut props, "inputs", array_property(INPUTS_DOC, input_schema));
        push_member(&mut props, "trigger_label", property("string", TRIGGER_LABEL_DOC));
        push_member(&mut props, "trigger_message", property("string", TRIGGER_MESSAGE_DOC));
        let mut required: Vec<&str> = Vec::new();
        required.push("operation");
        required.push("title");
        required.push("custom_id");
        required.push("inputs");
        assert(required@.map_values(|s: &str| s@) =~= seq!["operation"@, "title"@, "custom_id"@, "inputs"@]);
        assert(members_view(props@) =~= modal_properties());
        object_schema(props, &required)
    }
}

/// The message posted with a trigger button when the call gives none.
pub const DEFAULT_TRIGGER_MESSAGE: &'static str = "モーダルを開くには下のボタンを押してね。";

/// The label of a trigger button when the call gives none.
pub const DEFAULT_TRIGGER_LABEL: &'static str = "Open modal";

/// What the answer to `build_modal` notes.
pub const BUILD_ONLY_NOTE: &'static str = "Payload generated only. To open it in Discord, use build_and_send_trigger.";

/// What the answer to `build_and_send_trigger` notes.
pub const TRIGGER_NOTE: &'static str = "When a user clicks the button, the modal is opened via interaction response.";

/// What a call of the tool asks for, with its arguments read.
pub enum ModalToolRequest {
    /// Only the payload of the modal.
    BuildModal { modal: ModalSpec },
    /// A button posted in `channel_id` that opens the modal.
    SendTrigger { modal: ModalSpec, channel_id: u64, trigger_label: String, trigger_message: String },
}

pub enum ModalToolRequestView {
    BuildModal { modal: ModalView },
    SendTrigger {
        modal: ModalView,
        channel_id: u64,
        trigger_label: Seq<char>,
        trigger_message: Seq<char>,
    },
}

impl View for ModalToolRequest {
    type V = ModalToolRequestView;

    open spec fn view(&self) -> ModalToolRequestView {
        match self {
            ModalToolRequest::BuildModal { modal } => ModalToolRequestView::BuildModal { modal: modal@ },
            ModalToolRequest::SendTrigger { modal, channel_id, trigger_label, trigger_message } =>
                ModalToolRequestView::SendTrigger {
                modal: modal@,
                channel_id: *channel_id,
                trigger_label: trigger_label@,
                trigger_message: trigger_message@,
            },
        }
    }
}

/// The answer to an operation the tool does not have.
pub open spec fn unsupported_modal_message(op: Seq<char>) -> Seq<char> {
    "Unsupported 'operation': "@ + op + ". Use: build_modal or build_and_send_trigger."@
}

/// A text argument, or `default` when it is absent.
pub open spec fn str_or(a: ToolArgs, key: Seq<char>, default: Seq<char>) -> Seq<char> {
    match arg_str(a, key) {
        Some(s) => s,
        None => default,
    }
}

/// What a call of the tool asks for, or the error it is answered with
/// before anything is done.
pub open spec fn modal_tool_request(a: ToolArgs) -> Result<ModalToolRequestView, Seq<char>> {
    match arg_str(a, "operation"@) {
        None => Err(missing_message("operation"@)),
        Some(op) => if op == "build_modal"@ {
            match modal_result(a) {
                Err(e) => Err(e),
                Ok(m) => Ok(ModalToolRequestView::BuildModal { modal: m }),
            }
        } else if op == "build_and_send_trigger"@ {
            match modal_result(a) {
                Err(e) => Err(e),
                Ok(m) => match str_arg_result(a, "channel_id"@) {
                    Err(e) => Err(e),
                    Ok(raw) => match snowflake_result(raw, "channel_id"@) {
                        Err(e) => Err(e),
                        Ok(cid) => Ok(
                            ModalToolRequestView::SendTrigger {
                                modal: m,
                                channel_id: cid,
                                trigger_label: str_or(a, "trigger_label"@, DEFAULT_TRIGGER_LABEL@),
                                trigger_message: str_or(a, "trigger_message"@, DEFAULT_TRIGGER_MESSAGE@),
                            },
                        ),
                    },
                },
            }
        } else {
            Err(unsupported_modal_message(op))
        },
    }
}

/// Whether the tool carries out the operation `op`.
pub open spec fn modal_operation_understood(op: Seq<char>) -> bool {
    op == "build_modal"@ || op == "build_and_send_trigger"@
}

/// An optional text: the string, or `null`.
pub open spec fn opt_text_view(v: Option<Seq<char>>) -> JsonV {
    match v {
        Some(s) => JsonV::Str(s),
        None => JsonV::Null,
    }
}

/// An optional length: the number, or `null`.
pub open spec fn opt_length_view(v: Option<u16>) -> JsonV {
    match v {
        Some(n) => JsonV::Number(decimal(n as nat)),
        None => JsonV::Null,
    }
}

/// The action row that holds one text input (component type 4; style 2 for
/// a paragraph, 1 for a short input).
pub open spec fn input_row_view(i: ModalInputView) -> JsonV {
    JsonV::Object(
        seq![
            ("type"@, JsonV::Number("1"@)),
            (
                "components"@,
                JsonV::Array(
                    seq![
                        JsonV::Object(
                            seq![
                                ("type"@, JsonV::Number("4"@)),
                                ("custom_id"@, JsonV::Str(i.custom_id)),
                                ("label"@, JsonV::Str(i.label)),
                                ("style"@, JsonV::Number(if i.paragraph { "2"@ } else { "1"@ })),
                                ("required"@, JsonV::Bool(i.required)),
                                ("placeholder"@, opt_text_view(i.placeholder)),
                                ("value"@, opt_text_view(i.value)),
                                ("min_length"@, opt_length_view(i.min_length)),
                                ("max_length"@, opt_length_view(i.max_length)),
                            ],
                        ),
                    ],
                ),
            ),
        ],
    )
}

/// The payload of a modal opened under `custom_id`: its title, that ID, the
/// ID it was defined with, and one action row per input, in order.
pub open spec fn modal_payload_view(m: ModalView, custom_id: Seq<char>) -> JsonV {
    JsonV::Object(
        seq![
            ("title"@, JsonV::Str(m.title)),
            ("custom_id"@, JsonV::Str(custom_id)),
            ("logical_custom_id"@, JsonV::Str(m.logical_custom_id)),
            ("components"@, JsonV::Array(m.inputs.map_values(|i: ModalInputView| input_row_view(i)))),
        ],
    )
}

/// The answer to `build_modal`.
pub open spec fn build_modal_result_view(payload: JsonV) -> JsonV {
    JsonV::Object(
        seq![
            ("status"@, JsonV::Str("ok"@)),
            ("operation"@, JsonV::Str("build_modal"@)),
            ("modal"@, payload),
            ("note"@, JsonV::Str(BUILD_ONLY_NOTE@)),
        ],
    )
}

/// The answer to `build_and_send_trigger` once the button is posted.
pub open spec fn trigger_result_view(
    channel_id: u64,
    message_id: u64,
    trigger_custom_id: Seq<char>,
    payload: JsonV,
) -> JsonV {
    JsonV::Object(
        seq![
            ("status"@, JsonV::Str("ok"@)),
            ("operation"@, JsonV::Str("build_and_send_trigger"@)),
            ("channel_id"@, JsonV::Str(decimal(channel_id as nat))),
            ("trigger_message_id"@, JsonV::Str(decimal(message_id as nat))),
            ("trigger_custom_id"@, JsonV::Str(trigger_custom_id)),
            ("modal"@, payload),
            ("note"@, JsonV::Str(TRIGGER_NOTE@)),
        ],
    )
}

fn opt_text(v: &Option<String>) -> (r: Json)
    ensures
        r@ == opt_text_view(opt_view(*v)),
{
    match v {
        Some(s) => json_str(s.as_str()),
        None => Json::Null,
    }
}

fn opt_length(v: Option<u16>) -> (r: Json)
    ensures
        r@ == opt_length_view(v),
{
    match v {
        Some(n) => Json::Number(u64_string(n as u64)),
        None => Json::Null,
    }
}

fn input_row(input: &ModalInputSpec) -> (r: Json)
    ensures
        r@ == input_row_view(input@),
{
    let mut c = new_members();
    push_member(&mut c, "type", Json::Number(String::from_str("4")));
    push_member(&mut c, "custom_id", json_str(input.custom_id.as_str()));
    push_member(&mut c, "label", json_str(input.label.as_str()));
    let style = if input.paragraph { "2" } else { "1" };
    push_member(&mut c, "style", Json::Number(String::from_str(style)));
    push_member(&mut c, "required", Json::Bool(input.required));
    push_member(&mut c, "placeholder", opt_text(&input.placeholder));
    push_member(&mut c, "value", opt_text(&input.value));
    push_member(&mut c, "min_length", opt_length(input.min_length));
    push_member(&mut c, "max_length", opt_length(input.max_length));
    let ghost cv = members_view(c@);
    let mut comps: Vec<Json> = Vec::new();
    assert(items_view(comps@) =~= Seq::<JsonV>::empty());
    push_item(&mut comps, object(c));
    assert(items_view(comps@) =~= seq![JsonV::Object(cv)]);
    let mut row = new_members();
    push_member(&mut row, "type", Json::Number(String::from_str("1")));
    push_member(&mut row, "components", array(comps));
    assert(members_view(row@) =~= seq![
        ("type"@, JsonV::Number("1"@)),
        ("components"@, JsonV::Array(seq![JsonV::Object(cv)])),
    ]);
    assert(cv =~= seq![
        ("type"@, JsonV::Number("4"@)),
        ("custom_id"@, JsonV::Str(input@.custom_id)),
        ("label"@, JsonV::Str(input@.label)),
        ("style"@, JsonV::Number(if input@.paragraph { "2"@ } else { "1"@ })),
        ("required"@, JsonV::Bool(input@.required)),
        ("placeholder"@, opt_text_view(input@.placeholder)),
        ("value"@, opt_text_view(input@.value)),
        ("min_length"@, opt_length_view(input@.min_length)),
        ("max_length"@, opt_length_view(input@.max_length)),
    ]);
    object(row)
}

impl ModalBuilderTool {
    /// Reads what a call of the tool asks for.
    pub fn plan(args: &ToolArgs) -> (r: Result<ModalToolRequest, String>)
        ensures
            match r {
                Ok(q) => modal_tool_request(*args) == Ok::<ModalToolRequestView, Seq<char>>(q@),
                Err(e) => modal_tool_request(*args) == Err::<ModalToolRequestView, Seq<char>>(e@),
            },
    {
        let op = match args.get_str("operation") {
            Some(op) => op,
            None => {
                return Err(missing_param("operation"));
            },
        };
        if str_eq(op.as_str(), "build_modal") {
            match Self::parse_modal_spec(args) {
                Ok(modal) => Ok(ModalToolRequest::BuildModal { modal }),
                Err(e) => Err(e),
            }
        } else if str_eq(op.as_str(), "build_and_send_trigger") {
            let modal = match Self::parse_modal_spec(args) {
                Ok(m) => m,
                Err(e) => {
                    return Err(e);
                },
            };
            let raw = match Self::get_str_arg(args, "channel_id") {
                Ok(raw) => raw,
                Err(e) => {
                    return Err(e);
                },
            };
            let channel_id = match snowflake(raw.as_str(), "channel_id") {
                Ok(c) => c,
                Err(e) => {
                    return Err(e);
                },
            };
            let trigger_label = match args.get_str("trigger_label") {
                Some(s) => s,
                None => String::from_str(DEFAULT_TRIGGER_LABEL),
            };
            let trigger_message = match args.get_str("trigger_message") {
                Some(s) => s,
                None => String::from_str(DEFAULT_TRIGGER_MESSAGE),
            };
            Ok(ModalToolRequest::SendTrigger { modal, channel_id, trigger_label, trigger_message })
        } else {
            let mut s = String::from_str("Unsupported 'operation': ");
            push_str(&mut s, op.as_str());
            push_str(&mut s, ". Use: build_modal or build_and_send_trigger.");
            Err(s)
        }
    }

    /// The payload of the modal, opened under `effective_custom_id`.
    pub fn build_modal_payload(spec: &ModalSpec, effective_custom_id: &str) -> (r: Json)
        ensures
            r@ == modal_payload_view(spec@, effective_custom_id@),
    {
        let mut rows: Vec<Json> = Vec::new();
        assert(items_view(rows@) =~= Seq::<JsonV>::empty());
        let mut i: usize = 0;
        while i < spec.inputs.len()
            invariant
                i <= spec.inputs.len(),
                items_view(rows@) == spec@.inputs.subrange(0, i as int).map_values(
                    |x: ModalInputView| input_row_view(x),
                ),
            decreases spec.inputs.len() - i,
        {
            let row = input_row(&spec.inputs[i]);
            push_item(&mut rows, row);
            proof {
                assert(spec@.inputs.subrange(0, i + 1).map_values(|x: ModalInputView| input_row_view(x))
                    =~= spec@.inputs.subrange(0, i as int).map_values(|x: ModalInputView| input_row_view(x)).push(
                    input_row_view(spec@.inputs[i as int]),
                ));
            }
            i = i + 1;
        }
        assert(spec@.inputs.subrange(0, spec.inputs.len() as int) =~= spec@.inputs);
        let mut ms = new_members();
        push_member(&mut ms, "title", json_str(spec.title.as_str()));
        push_member(&mut ms, "custom_id", json_str(effective_custom_id));
        push_member(&mut ms, "logical_custom_id", json_str(spec.logical_custom_id.as_str()));
        push_member(&mut ms, "components", array(rows));
        assert(members_view(ms@) =~= seq![
            ("title"@, JsonV::Str(spec@.title)),
            ("custom_id"@, JsonV::Str(effective_custom_id@)),
            ("logical_custom_id"@, JsonV::Str(spec@.logical_custom_id)),
            ("components"@, JsonV::Array(spec@.inputs.map_values(|x: ModalInputView| input_row_view(x)))),
        ]);
        object(ms)
    }

    /// The answer to `build_modal`, around the modal's payload.
    pub fn build_modal_result(payload: Json) -> (r: Json)
        ensures
            r@ == build_modal_result_view(payload@),
    {
        let ghost pv = payload@;
        let mut ms = new_members();
        push_member(&mut ms, "status", json_str("ok"));
        push_member(&mut ms, "operation", json_str("build_modal"));
        push_member(&mut ms, "modal", payload);
        push_member(&mut ms, "note", json_str(BUILD_ONLY_NOTE));
        assert(members_view(ms@) =~= seq![
            ("status"@, JsonV::Str("ok"@)),
            ("operation"@, JsonV::Str("build_modal"@)),
            ("modal"@, pv),
            ("note"@, JsonV::Str(BUILD_ONLY_NOTE@)),
        ]);
        object(ms)
    }

    /// The answer to `build_and_send_trigger` once the button is posted as
    /// the message `message_id`.
    pub fn trigger_result(channel_id: u64, message_id: u64, trigger_custom_id: &str, payload: Json) -> (r: Json)
        ensures
            r@ == trigger_result_view(channel_id, message_id, trigger_custom_id@, payload@),
    {
        let ghost pv = payload@;
        let mut ms = new_members();
        push_member(&mut ms, "status", json_str("ok"));
        push_member(&mut ms, "operation", json_str("build_and_send_trigger"));
        push_member(&mut ms, "channel_id", Json::Str(u64_string(channel_id)));
        push_member(&mut ms, "trigger_message_id", Json::Str(u64_string(message_id)));
        push_member(&mut ms, "trigger_custom_id", json_str(trigger_custom_id));
        push_member(&mut ms, "modal", payload);
        push_member(&mut ms, "note", json_str(TRIGGER_NOTE));
        assert(members_view(ms@) =~= seq![
            ("status"@, JsonV::Str("ok"@)),
            ("operation"@, JsonV::Str("build_and_send_trigger"@)),
            ("channel_id"@, JsonV::Str(decimal(channel_id as nat))),
            ("trigger_message_id"@, JsonV::Str(decimal(message_id as nat))),
            ("trigger_custom_id"@, JsonV::Str(trigger_custom_id@)),
            ("modal"@, pv),
            ("note"@, JsonV::Str(TRIGGER_NOTE@)),
        ]);
        object(ms)
    }
}

/// The operations the tool's schema offers the model are exactly the
/// operations the tool carries out.
pub proof fn lemma_modal_operations_offered(op: Seq<char>)
    ensures
        enum_values(schema_property(modal_parameters(), "operation"@)).contains(JsonV::Str(op))
            <==> modal_operation_understood(op),
{
    lemma_object_schema_property(
        modal_properties(),
        seq!["operation"@, "title"@, "custom_id"@, "inputs"@],
        "operation"@,
    );
    lemma_enum_property_values(OPERATION_DOC@, modal_operations());
    lemma_str_items_contains(modal_operations(), op);
    if op == "build_and_send_trigger"@ {
        assert(modal_operations()[1] == op);
    }
}

/// The styles the schema offers for a text input are exactly those an input
/// definition may have.
pub proof fn lemma_input_styles_offered(style: Seq<char>)
    ensures
        match array_items(schema_property(modal_parameters(), "inputs"@)) {
            Some(item) => enum_values(schema_property(item, "style"@)).contains(JsonV::Str(style))
                <==> (style == "short"@ || style == "paragraph"@),
            None => false,
        },
{
    reveal_strlit("operation");
    reveal_strlit("channel_id");
    reveal_strlit("title");
    reveal_strlit("custom_id");
    reveal_strlit("inputs");
    reveal_strlit("label");
    reveal_strlit("style");
    let ps = modal_properties();
    lemma_object_schema_property(ps, seq!["operation"@, "title"@, "custom_id"@, "inputs"@], "inputs"@);
    assert forall|i: int| 0 <= i < 4 implies ps[i].0 != "inputs"@ by {
        assert(ps[i].0.len() != "inputs"@.len());
    }
    lemma_member_of_skip(ps, "inputs"@, 4);
    assert(ps.subrange(4, ps.len() as int)[0] == ps[4]);
    lemma_array_property_items(INPUTS_DOC@, modal_input_schema());
    let ips = modal_input_properties();
    lemma_object_schema_property(ips, seq!["label"@, "custom_id"@], "style"@);
    assert(ips[0].0[0] != "style"@[0]);
    assert(ips[1].0.len() != "style"@.len());
    lemma_member_of_skip(ips, "style"@, 2);
    assert(ips.subrange(2, ips.len() as int)[0] == ips[2]);
    lemma_enum_property_values(INPUT_STYLE_DOC@, input_styles());
    lemma_str_items_contains(input_styles(), style);
    if style == "paragraph"@ {
        assert(input_styles()[1] == style);
    }
}


/// What the bot answers the user who submitted a modal.
pub const MODAL_RECEIVED_REPLY: &'static str = "モーダル送信を受け付けたよ。";

/// The submitted fields as a JSON object: each input's custom ID with its
/// value, a later input replacing an earlier one of the same ID.
pub open spec fn submitted_fields(fields: Seq<(Seq<char>, Seq<char>)>) -> Seq<(Seq<char>, JsonV)>
    decreases fields.len(),
{
    if fields.len() == 0 {
        Seq::empty()
    } else {
        put_member(submitted_fields(fields.drop_last()), fields.last().0, JsonV::Str(fields.last().1))
    }
}

/// The user message a modal submission is added to the channel's
/// conversation as.
pub open spec fn modal_submission_view(
    user: Seq<char>,
    display_name: Seq<char>,
    modal_custom_id: Seq<char>,
    channel_id: u64,
    fields: Seq<(Seq<char>, Seq<char>)>,
) -> JsonV {
    JsonV::Object(
        seq![
            ("user"@, JsonV::Str(user)),
            ("display_name"@, JsonV::Str(display_name)),
            ("type"@, JsonV::Str("modal_submit"@)),
            ("modal_custom_id"@, JsonV::Str(modal_custom_id)),
            ("channel_id"@, JsonV::Str(decimal(channel_id as nat))),
            ("fields"@, JsonV::Object(submitted_fields(fields))),
        ],
    )
}

pub fn modal_submission_message(
    user: &str,
    display_name: &str,
    modal_custom_id: &str,
    channel_id: u64,
    fields: &Vec<(String, String)>,
) -> (r: Json)
    ensures
        r@ == modal_submission_view(
            user@,
            display_name@,
            modal_custom_id@,
            channel_id,
            fields@.map_values(|f: (String, String)| (f.0@, f.1@)),
        ),
{
    let ghost fv = fields@.map_values(|f: (String, String)| (f.0@, f.1@));
    let mut fs = new_members();
    let mut i: usize = 0;
    while i < fields.len()
        invariant
            i <= fields@.len(),
            fv == fields@.map_values(|f: (String, String)| (f.0@, f.1@)),
            members_view(fs@) == submitted_fields(fv.subrange(0, i as int)),
        decreases fields@.len() - i,
    {
        put_member_exec(&mut fs, fields[i].0.as_str(), json_str(fields[i].1.as_str()));
        assert(fv.subrange(0, i + 1).drop_last() =~= fv.subrange(0, i as int));
        i = i + 1;
    }
    assert(fv.subrange(0, fv.len() as int) =~= fv);
    let ghost fsv = members_view(fs@);
    let mut ms = new_members();
    push_member(&mut ms, "user", json_str(user));
    push_member(&mut ms, "display_name", json_str(display_name));
    push_member(&mut ms, "type", json_str("modal_submit"));
    push_member(&mut ms, "modal_custom_id", json_str(modal_custom_id));
    push_member(&mut ms, "channel_id", Json::Str(u64_string(channel_id)));
    push_member(&mut ms, "fields", object(fs));
    assert(members_view(ms@) =~= seq![
        ("user"@, JsonV::Str(user@)),
        ("display_name"@, JsonV::Str(display_name@)),
        ("type"@, JsonV::Str("modal_submit"@)),
        ("modal_custom_id"@, JsonV::Str(modal_custom_id@)),
        ("channel_id"@, JsonV::Str(decimal(channel_id as nat))),
        ("fields"@, JsonV::Object(fsv)),
    ]);
    object(ms)
}

} // verus!
