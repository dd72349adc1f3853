//! One answer of the model over the streamed Responses API: the requests are
//! made in rounds; between rounds the tool calls the model made are run and
//! their outputs added, until a round leaves no call unanswered. This module
//! decides: what each streamed event does to the answer and what it reports,
//! when another round is due, whether the model may still call tools, and
//! the output each tool call is answered with.
use vstd::prelude::*;
use async_openai::types::responses::Item;
use crate::text::{push_str, u64_string, decimal};
use crate::tool_args::{ToolArgs, ArgView, json_object_members};
use crate::lm_context::{
    LMContext, ContextItem, ContextEntry, Role, entries_of, member, lemma_member_lookup,
};

verus! {

/// The most requests made for one answer.
pub const MAX_RESPONSE_ROUNDS: u32 = 10;

/// The last round in which the model may call tools; the round after it is
/// asked for an answer without them.
pub const LAST_TOOL_ROUND: u32 = 8;

/// Whether the model may call tools in a request.
#[derive(Debug, Clone, Copy, PartialEq, Eq, Structural)]
pub enum ToolChoice {
    /// The model decides.
    Auto,
    /// No tool calls.
    NoTools,
}

/// The tool choice of the round `round` (counted from 0).
pub open spec fn choice_in_round(round: nat) -> ToolChoice {
    if round <= LAST_TOOL_ROUND {
        ToolChoice::Auto
    } else {
        ToolChoice::NoTools
    }
}

/// Where the rounds of one answer stand: the round about to be requested
/// (or, when it is the tenth, that none is left) and the tool choice it is
/// requested with.
#[derive(Debug, Clone, Copy, PartialEq, Eq, Structural)]
pub struct ResponseRounds {
    pub round: u32,
    pub tool_choice: ToolChoice,
}

/// The next round: one more, and without tools after the last round with
/// them.
pub open spec fn advanced(s: ResponseRounds) -> ResponseRounds {
    ResponseRounds {
        round: (s.round + 1) as u32,
        tool_choice: if s.round == LAST_TOOL_ROUND {
            ToolChoice::NoTools
        } else {
            s.tool_choice
        },
    }
}

impl ResponseRounds {
    /// Rounds that the loop can reach from its start.
    pub open spec fn well_formed(self) -> bool {
        &&& self.round <= MAX_RESPONSE_ROUNDS
        &&& self.tool_choice == choice_in_round(self.round as nat)
    }

    /// The first round, in which the model decides on tools.
    pub fn start() -> (r: Self)
        ensures
            r.round == 0,
            r.tool_choice == ToolChoice::Auto,
            r.well_formed(),
    {
        ResponseRounds { round: 0, tool_choice: ToolChoice::Auto }
    }

    /// Whether another request is due.
    pub fn request_due(&self) -> (r: bool)
        ensures
            r == (self.round < MAX_RESPONSE_ROUNDS),
    {
        self.round < MAX_RESPONSE_ROUNDS
    }

    /// Moves on once the outputs of a round's tool calls are in: after the
    /// last round with tools, the model is asked to answer without them.
    pub fn next_round(&mut self)
        requires
            old(self).round < MAX_RESPONSE_ROUNDS,
        ensures
            *final(self) == advanced(*old(self)),
    {
        if self.round == LAST_TOOL_ROUND {
            self.tool_choice = ToolChoice::NoTools;
        }
        self.round = self.round + 1;
    }
}

/// What follows a round that left `pending` tool calls unanswered.
#[derive(Debug, Clone, Copy, PartialEq, Eq, Structural)]
pub enum RoundOutcome {
    /// The answer is complete.
    Finished,
    /// The calls are run, their outputs added, and the next round is due
    /// if any is left.
    RunTools,
}

/// Whether the answer is complete after a round.
pub fn round_outcome(pending: usize) -> (r: RoundOutcome)
    ensures
        r == (if pending == 0 { RoundOutcome::Finished } else { RoundOutcome::RunTools }),
{
    if pending == 0 {
        RoundOutcome::Finished
    } else {
        RoundOutcome::RunTools
    }
}

/// An event of the stream of one request, with what the answer reads of it.
pub enum StreamEvent {
    Created(u64),
    Queued(u64),
    InProgress(u64),
    Completed,
    Failed,
    Incomplete,
    /// An output message is done; its output texts, joined.
    MessageDone(String),
    /// A function call is done.
    FunctionCallDone { call_id: String, name: String, arguments: String, item: Item },
    /// A web search call is done.
    WebSearchDone(Item),
    /// Another item the answer keeps: a file search, a computer call or
    /// reasoning.
    ItemDone(Item),
    /// An output item the answer does not keep.
    UnhandledItem,
    /// A piece of the output text.
    TextDelta(String),
    /// The model refused; its refusal text.
    RefusalDone(String),
    /// A part of the reasoning summary is done; its text.
    ReasoningSummaryDone(String),
    /// An error event; its message.
    Error(String),
    /// Any other event.
    Other,
}

/// How the stream of a request goes on after an event.
pub enum StreamOutcome {
    Continue,
    /// The response is complete: the round's stream ends.
    RoundDone,
    /// The answer fails with this message.
    Failed(String),
}

/// What an event makes known: a status line, a piece of output text, and
/// how the stream goes on.
pub struct StreamStep {
    pub status: Option<String>,
    pub delta: Option<String>,
    pub outcome: StreamOutcome,
}

/// The plain values of a stream event.
pub enum EventView {
    Created(u64),
    Queued(u64),
    InProgress(u64),
    Completed,
    Failed,
    Incomplete,
    MessageDone(Seq<char>),
    FunctionCallDone { call_id: Seq<char>, name: Seq<char>, arguments: Seq<char> },
    WebSearchDone,
    ItemDone,
    UnhandledItem,
    TextDelta(Seq<char>),
    RefusalDone(Seq<char>),
    ReasoningSummaryDone(Seq<char>),
    Error(Seq<char>),
    Other,
}

impl View for StreamEvent {
    type V = EventView;

    open spec fn view(&self) -> EventView {
        match self {
            StreamEvent::Created(n) => EventView::Created(*n),
            StreamEvent::Queued(n) => EventView::Queued(*n),
            StreamEvent::InProgress(n) => EventView::InProgress(*n),
            StreamEvent::Completed => EventView::Completed,
            StreamEvent::Failed => EventView::Failed,
            StreamEvent::Incomplete => EventView::Incomplete,
            StreamEvent::MessageDone(t) => EventView::MessageDone(t@),
            StreamEvent::FunctionCallDone { call_id, name, arguments, .. } => EventView::FunctionCallDone {
                call_id: call_id@,
                name: name@,
                arguments: arguments@,
            },
            StreamEvent::WebSearchDone(_) => EventView::WebSearchDone,
            StreamEvent::ItemDone(_) => EventView::ItemDone,
            StreamEvent::UnhandledItem => EventView::UnhandledItem,
            StreamEvent::TextDelta(d) => EventView::TextDelta(d@),
            StreamEvent::RefusalDone(t) => EventView::RefusalDone(t@),
            StreamEvent::ReasoningSummaryDone(t) => EventView::ReasoningSummaryDone(t@),
            StreamEvent::Error(m) => EventView::Error(m@),
            StreamEvent::Other => EventView::Other,
        }
    }
}

/// The plain values of a step: the status line, the output text, and the
/// outcome (`None` to go on, `Some(None)` at the end of the round,
/// `Some(Some(m))` when the answer fails with `m`).
pub open spec fn step_view(s: StreamStep) -> (Option<Seq<char>>, Option<Seq<char>>, Option<Option<Seq<char>>>) {
    (
        match s.status {
            Some(t) => Some(t@),
            None => None,
        },
        match s.delta {
            Some(t) => Some(t@),
            None => None,
        },
        match s.outcome {
            StreamOutcome::Continue => None,
            StreamOutcome::RoundDone => Some(None),
            StreamOutcome::Failed(m) => Some(Some(m@)),
        },
    )
}

/// "{text} (seq {n})".
pub open spec fn with_seq(text: Seq<char>, n: u64) -> Seq<char> {
    text + " (seq "@ + decimal(n as nat) + ")"@
}

/// "Generating... ({n} tokens)".
pub open spec fn generating_status(n: nat) -> Seq<char> {
    "Generating... ("@ + decimal(n) + " tokens)"@
}

/// The status an event reports, given the output pieces counted so far
/// (that event included).
pub open spec fn event_status(e: EventView, tokens: nat) -> Option<Seq<char>> {
    match e {
        EventView::Created(n) => Some(with_seq("Response created"@, n)),
        EventView::Queued(n) => Some(with_seq("Response queued..."@, n)),
        EventView::InProgress(n) => Some(with_seq("Response in progress..."@, n)),
        EventView::FunctionCallDone { name, .. } => Some("Function tool call: "@ + name),
        EventView::WebSearchDone => Some("OpenAI browser(web search) in progress..."@),
        EventView::TextDelta(_) => Some(generating_status(tokens)),
        EventView::RefusalDone(t) => Some(t),
        EventView::ReasoningSummaryDone(t) => Some(t),
        _ => None,
    }
}

/// How the stream goes on after an event.
pub open spec fn event_outcome(e: EventView) -> Option<Option<Seq<char>>> {
    match e {
        EventView::Completed => Some(None),
        EventView::Failed => Some(Some("Response failed"@)),
        EventView::Incomplete => Some(Some("Response incomplete"@)),
        EventView::Error(m) => Some(Some(m)),
        _ => None,
    }
}

/// The entry an event adds to the answer's context, if any: a non-empty
/// message as the assistant's text, a function call, or another kept item.
pub open spec fn event_entry(e: EventView) -> Option<ContextEntry> {
    match e {
        EventView::MessageDone(t) => if t.len() > 0 {
            Some(ContextEntry::Text { role: Role::Assistant, text: t })
        } else {
            None
        },
        EventView::FunctionCallDone { call_id, name, arguments } => Some(
            ContextEntry::FunctionCall { call_id, name, arguments },
        ),
        EventView::WebSearchDone => Some(ContextEntry::Other),
        EventView::ItemDone => Some(ContextEntry::Other),
        _ => None,
    }
}

/// The context after an event.
pub open spec fn after_event(s: Seq<ContextEntry>, e: EventView) -> Seq<ContextEntry> {
    match event_entry(e) {
        Some(x) => s.push(x),
        None => s,
    }
}

/// The item an event adds to the answer's context, if any, carrying what the
/// event brought as it is: a non-empty message as the assistant's text, a
/// function call with its item, or another kept item.
pub open spec fn event_item(e: StreamEvent) -> Option<ContextItem> {
    match e {
        StreamEvent::MessageDone(t) => if t@.len() > 0 {
            Some(ContextItem::Text { role: Role::Assistant, text: t })
        } else {
            None
        },
        StreamEvent::FunctionCallDone { call_id, name, arguments, item } => Some(
            ContextItem::FunctionCall { call_id, name, arguments, item },
        ),
        StreamEvent::WebSearchDone(item) => Some(ContextItem::Other(item)),
        StreamEvent::ItemDone(item) => Some(ContextItem::Other(item)),
        _ => None,
    }
}

fn seq_status(text: &str, n: u64) -> (r: String)
    ensures
        r@ == with_seq(text@, n),
{
    let mut s = String::from_str(text);
    push_str(&mut s, " (seq ");
    let d = u64_string(n);
    push_str(&mut s, d.as_str());
    push_str(&mut s, ")");
    s
}

fn generating(n: usize) -> (r: String)
    ensures
        r@ == generating_status(n as nat),
{
    let mut s = String::from_str("Generating... (");
    let d = u64_string(n as u64);
    push_str(&mut s, d.as_str());
    push_str(&mut s, " tokens)");
    s
}

/// Takes one streamed event into the answer: adds what it keeps to
/// `delta_context`, counts output pieces in `tokens`, and says what it
/// reports and how the stream goes on.
pub fn stream_step(tokens: &mut usize, delta_context: &mut LMContext, event: StreamEvent) -> (r: StreamStep)
    requires
        *old(tokens) < usize::MAX,
    ensures
        *final(tokens) == (if event@ is TextDelta { *old(tokens) + 1 } else { *old(tokens) as int }),
        entries_of(final(delta_context).buf@) == after_event(entries_of(old(delta_context).buf@), event@),
        final(delta_context).buf@ == (match event_item(event) {
            Some(x) => old(delta_context).buf@.push(x),
            None => old(delta_context).buf@,
        }),
        final(delta_context).max_len == old(delta_context).max_len,
        step_view(r) == (
            event_status(event@, *final(tokens) as nat),
            match event@ {
                EventView::TextDelta(d) => Some(d),
                _ => None::<Seq<char>>,
            },
            event_outcome(event@),
        ),
{
    let ghost ev = event@;
    match event {
        StreamEvent::Created(n) => StreamStep {
            status: Some(seq_status("Response created", n)),
            delta: None,
            outcome: StreamOutcome::Continue,
        },
        StreamEvent::Queued(n) => StreamStep {
            status: Some(seq_status("Response queued...", n)),
            delta: None,
            outcome: StreamOutcome::Continue,
        },
        StreamEvent::InProgress(n) => StreamStep {
            status: Some(seq_status("Response in progress...", n)),
            delta: None,
            outcome: StreamOutcome::Continue,
        },
        StreamEvent::Completed => StreamStep { status: None, delta: None, outcome: StreamOutcome::RoundDone },
        StreamEvent::Failed => StreamStep {
            status: None,
            delta: None,
            outcome: StreamOutcome::Failed(String::from_str("Response failed")),
        },
        StreamEvent::Incomplete => StreamStep {
            status: None,
            delta: None,
            outcome: StreamOutcome::Failed(String::from_str("Response incomplete")),
        },
        StreamEvent::MessageDone(text) => {
            if text.unicode_len() > 0 {
                delta_context.add_text(text, Role::Assistant);
            }
            StreamStep { status: None, delta: None, outcome: StreamOutcome::Continue }
        },
        StreamEvent::FunctionCallDone { call_id, name, arguments, item } => {
            let mut status = String::from_str("Function tool call: ");
            push_str(&mut status, name.as_str());
            delta_context.add_input_item(ContextItem::FunctionCall { call_id, name, arguments, item });
            StreamStep { status: Some(status), delta: None, outcome: StreamOutcome::Continue }
        },
        StreamEvent::WebSearchDone(item) => {
            delta_context.add_input_item(ContextItem::Other(item));
            StreamStep {
                status: Some(String::from_str("OpenAI browser(web search) in progress...")),
                delta: None,
                outcome: StreamOutcome::Continue,
            }
        },
        StreamEvent::ItemDone(item) => {
            delta_context.add_input_item(ContextItem::Other(item));
            StreamStep { status: None, delta: None, outcome: StreamOutcome::Continue }
        },
        StreamEvent::UnhandledItem => StreamStep { status: None, delta: None, outcome: StreamOutcome::Continue },
        StreamEvent::TextDelta(d) => {
            *tokens = *tokens + 1;
            StreamStep { status: Some(generating(*tokens)), delta: Some(d), outcome: StreamOutcome::Continue }
        },
        StreamEvent::RefusalDone(t) => StreamStep { status: Some(t), delta: None, outcome: StreamOutcome::Continue },
        StreamEvent::ReasoningSummaryDone(t) => StreamStep {
            status: Some(t),
            delta: None,
            outcome: StreamOutcome::Continue,
        },
        StreamEvent::Error(m) => StreamStep { status: None, delta: None, outcome: StreamOutcome::Failed(m) },
        StreamEvent::Other => StreamStep { status: None, delta: None, outcome: StreamOutcome::Continue },
    }
}

/// The text a tool call is answered with: the tool's text, or "Error: " and
/// the tool's error.
pub open spec fn output_text(r: Result<Seq<char>, Seq<char>>) -> Seq<char> {
    match r {
        Ok(s) => s,
        Err(e) => "Error: "@ + e,
    }
}

/// The texts of a tool's result.
pub open spec fn text_result(r: Result<String, String>) -> Result<Seq<char>, Seq<char>> {
    match r {
        Ok(s) => Ok(s@),
        Err(e) => Err(e@),
    }
}

/// The output item answering the call `call_id` with what its tool gave.
pub fn tool_output(call_id: String, result: Result<String, String>) -> (r: ContextItem)
    ensures
        r@ == (ContextEntry::FunctionCallOutput { call_id: call_id@, output: output_text(text_result(result)) }),
{
    let output = match result {
        Ok(s) => s,
        Err(e) => {
            let mut s = String::from_str("Error: ");
            push_str(&mut s, e.as_str());
            s
        },
    };
    ContextItem::FunctionCallOutput { call_id, output }
}

/// The `$explain` text of a call's JSON arguments, when they give one.
pub open spec fn explain_of(arguments: Seq<char>) -> Option<Seq<char>> {
    match member(json_object_members(arguments), "$explain"@) {
        Some(ArgView::Text(t)) => Some(t),
        _ => None,
    }
}

/// "Executing tool: {name}", with " - {explain}" when the call explains
/// itself.
pub open spec fn executing_status(name: Seq<char>, explain: Option<Seq<char>>) -> Seq<char> {
    match explain {
        Some(x) => "Executing tool: "@ + name + " - "@ + x,
        None => "Executing tool: "@ + name,
    }
}

/// The status shown while the tool `name` runs a call with these arguments.
pub fn tool_status(name: &str, arguments: &str) -> (r: String)
    ensures
        r@ == executing_status(name@, explain_of(arguments@)),
{
    let args = ToolArgs::from_json(arguments);
    proof {
        lemma_member_lookup(args.entries@, "$explain"@);
    }
    let mut s = String::from_str("Executing tool: ");
    push_str(&mut s, name);
    match args.get_str("$explain") {
        Some(x) => {
            push_str(&mut s, " - ");
            push_str(&mut s, x.as_str());
        },
        None => {},
    }
    s
}

/// The rounds after `k` moves from the start.
pub open spec fn rounds_after(k: nat) -> ResponseRounds
    decreases k,
{
    if k == 0 {
        ResponseRounds { round: 0, tool_choice: ToolChoice::Auto }
    } else {
        advanced(rounds_after((k - 1) as nat))
    }
}

/// The model may call tools in the first nine requests of an answer and
/// not in the tenth, and no request follows the tenth: after `k` rounds
/// (at most ten) the loop stands at round `k`, and a request is due exactly
/// when `k` is under ten.
pub proof fn lemma_rounds_after(k: nat)
    requires
        k <= MAX_RESPONSE_ROUNDS,
    ensures
        rounds_after(k).round == k,
        rounds_after(k).tool_choice == choice_in_round(k),
        rounds_after(k).well_formed(),
        (rounds_after(k).round < MAX_RESPONSE_ROUNDS) <==> k < MAX_RESPONSE_ROUNDS,
    decreases k,
{
    if k > 0 {
        lemma_rounds_after((k - 1) as nat);
    }
}

} // verus!
