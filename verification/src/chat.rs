//! The conversation as other model services take it: chat-completion
//! messages for NIM, contents and parts for Gemini, and the helpers they need
//! (endpoint text, image MIME type, Base64 of image bytes).
use vstd::prelude::*;
use base64::Engine;
use crate::text::{push_str, push_char, str_eq, str_to_chars, chars_to_string, ends_with_seq, ends_with_chars, seq_ascii_lower, to_ascii_lower, strs_view};
use crate::lm_context::{LMContext, ContextItem, ContextEntry, Role, entries_of};
use crate::schema::{Json, JsonV, json_get, json_get_ref, clone_json};

verus! {

/// A chat-completion message.
pub struct ChatMessage {
    pub role: String,
    pub content: String,
}

pub open spec fn chat_view(v: Seq<ChatMessage>) -> Seq<(Seq<char>, Seq<char>)> {
    v.map_values(|m: ChatMessage| (m.role@, m.content@))
}

/// The messages after one more: merged into the last one (after a line
/// break) when it has the same role.
pub open spec fn push_chat(v: Seq<(Seq<char>, Seq<char>)>, role: Seq<char>, content: Seq<char>) -> Seq<(Seq<char>, Seq<char>)> {
    if v.len() > 0 && v.last().0 == role {
        v.update(v.len() - 1, (role, v.last().1 + seq!['\n'] + content))
    } else {
        v.push((role, content))
    }
}

/// No two neighbouring messages share a role.
pub open spec fn roles_alternate(v: Seq<(Seq<char>, Seq<char>)>) -> bool {
    forall|i: int| 0 <= i < v.len() - 1 ==> #[trigger] v[i].0 != v[i + 1].0
}

/// Adds a message, merging it into the last one of the same role.
pub fn push_chat_message(messages: &mut Vec<ChatMessage>, role: &str, content: String)
    ensures
        chat_view(final(messages)@) == push_chat(chat_view(old(messages)@), role@, content@),
{
    let n = messages.len();
    if n > 0 && str_eq(messages[n - 1].role.as_str(), role) {
        let ghost before = chat_view(messages@);
        let ghost old_msgs = messages@;
        let mut last = messages.remove(n - 1);
        assert(last.role@ == role@);
        let ghost old_content = last.content@;
        assert(old_content == before.last().1);
        push_char(&mut last.content, '\n');
        push_str(&mut last.content, content.as_str());
        assert(last.content@ =~= old_content + seq!['\n'] + content@);
        messages.push(last);
        assert(messages@ == old_msgs.remove(n - 1).push(last));
        assert(chat_view(messages@) =~= push_chat(before, role@, content@));
        return;
    }
    let ghost before = chat_view(messages@);
    messages.push(ChatMessage { role: String::from_str(role), content });
    assert(chat_view(messages@) =~= push_chat(before, role@, content@));
}

/// Merging keeps the roles alternating.
pub proof fn lemma_push_chat_alternates(v: Seq<(Seq<char>, Seq<char>)>, role: Seq<char>, content: Seq<char>)
    requires
        roles_alternate(v),
    ensures
        roles_alternate(push_chat(v, role, content)),
{
    let r = push_chat(v, role, content);
    assert forall|i: int| 0 <= i < r.len() - 1 implies #[trigger] r[i].0 != r[i + 1].0 by {
        if v.len() > 0 && v.last().0 == role {
            assert(r[i].0 == v[i].0);
            assert(r[i + 1].0 == v[i + 1].0);
        } else {
            if i + 1 == v.len() {
                assert(r[i] == v.last());
            } else {
                assert(r[i] == v[i]);
                assert(r[i + 1] == v[i + 1]);
            }
        }
    }
}

/// The chat role of a message role.
pub open spec fn chat_role(role: Role) -> Seq<char> {
    match role {
        Role::System | Role::Developer => "system"@,
        Role::Assistant => "assistant"@,
        Role::User => "user"@,
    }
}

/// The chat messages of a context: each message with text, in order,
/// merged with its neighbour of the same role.
pub open spec fn chat_messages(s: Seq<ContextEntry>) -> Seq<(Seq<char>, Seq<char>)>
    decreases s.len(),
{
    if s.len() == 0 {
        Seq::empty()
    } else {
        let rest = chat_messages(s.drop_last());
        match s.last() {
            ContextEntry::Text { role, text } => if text.len() == 0 {
                rest
            } else {
                push_chat(rest, chat_role(role), text)
            },
            ContextEntry::UserWithImages { text, .. } => if text.len() == 0 {
                rest
            } else {
                push_chat(rest, "user"@, text)
            },
            _ => rest,
        }
    }
}

pub fn lm_context_to_chat_messages(ctx: &LMContext) -> (r: Vec<ChatMessage>)
    ensures
        chat_view(r@) == chat_messages(entries_of(ctx.buf@)),
        roles_alternate(chat_view(r@)),
{
    let ghost s = entries_of(ctx.buf@);
    let n = ctx.buf.len();
    let mut messages: Vec<ChatMessage> = Vec::new();
    let mut i: usize = 0;
    while i < n
        invariant
            n == ctx.buf@.len(),
            i <= n,
            s == entries_of(ctx.buf@),
            chat_view(messages@) == chat_messages(s.subrange(0, i as int)),
            roles_alternate(chat_view(messages@)),
        decreases n - i,
    {
        let ghost before = chat_view(messages@);
        assert(s.subrange(0, i + 1).drop_last() =~= s.subrange(0, i as int));
        match &ctx.buf[i] {
            ContextItem::Text { role, text } => {
                if text.unicode_len() > 0 {
                    let r = match role {
                        Role::System | Role::Developer => "system",
                        Role::Assistant => "assistant",
                        Role::User => "user",
                    };
                    proof {
                        lemma_push_chat_alternates(before, chat_role(*role), text@);
                    }
                    push_chat_message(&mut messages, r, text.clone());
                }
            },
            ContextItem::UserWithImages { text, .. } => {
                if text.unicode_len() > 0 {
                    proof {
                        lemma_push_chat_alternates(before, "user"@, text@);
                    }
                    push_chat_message(&mut messages, "user", text.clone());
                }
            },
            _ => {},
        }
        i = i + 1;
    }
    assert(s.subrange(0, n as int) =~= s);
    messages
}

/// `base_url` without trailing slashes, then "/chat/completions".
pub open spec fn trim_end_slashes(s: Seq<char>) -> Seq<char>
    decreases s.len(),
{
    if s.len() > 0 && s.last() == '/' {
        trim_end_slashes(s.drop_last())
    } else {
        s
    }
}

/// A base URL without its trailing slashes.
fn without_trailing_slashes(base_url: &str) -> (r: String)
    ensures
        r@ == trim_end_slashes(base_url@),
{
    let v = str_to_chars(base_url);
    let mut end = v.len();
    assert(v@.subrange(0, v@.len() as int) =~= v@);
    while end > 0 && v[end - 1] == '/'
        invariant
            end <= v@.len(),
            trim_end_slashes(v@) == trim_end_slashes(v@.subrange(0, end as int)),
        decreases end,
    {
        assert(v@.subrange(0, end as int).drop_last() =~= v@.subrange(0, end - 1));
        end = end - 1;
    }
    let mut out: Vec<char> = Vec::new();
    let mut i: usize = 0;
    while i < end
        invariant
            i <= end <= v@.len(),
            out@ == v@.subrange(0, i as int),
        decreases end - i,
    {
        out.push(v[i]);
        i = i + 1;
        assert(out@ =~= v@.subrange(0, i as int));
    }
    chars_to_string(&out)
}

pub fn chat_completions_url_text(base_url: &str) -> (r: String)
    ensures
        r@ == trim_end_slashes(base_url@) + "/chat/completions"@,
{
    let mut s = without_trailing_slashes(base_url);
    push_str(&mut s, "/chat/completions");
    s
}

/// The `generateContent` endpoint of a Gemini model.
pub fn gemini_generate_url_text(base_url: &str, model: &str) -> (r: String)
    ensures
        r@ == trim_end_slashes(base_url@) + "/models/"@ + model@ + ":generateContent"@,
{
    let mut s = without_trailing_slashes(base_url);
    push_str(&mut s, "/models/");
    push_str(&mut s, model);
    push_str(&mut s, ":generateContent");
    s
}

/// What a tool call during a Gemini reply adds to the conversation: the
/// tool's output, or an error for a tool that is not defined.
pub fn gemini_tool_result_text(name: &str, output: Option<&str>) -> (r: String)
    ensures
        r@ == "Tool '"@ + name@ + "' result: "@ + match output {
            Some(o) => o@,
            None => "Error: tool '"@ + name@ + "' is not defined"@,
        },
{
    let mut s = String::from_str("Tool '");
    push_str(&mut s, name);
    push_str(&mut s, "' result: ");
    match output {
        Some(o) => push_str(&mut s, o),
        None => {
            push_str(&mut s, "Error: tool '");
            push_str(&mut s, name);
            push_str(&mut s, "' is not defined");
        },
    }
    s
}

/// The error of a Gemini reply when every model of the automatic choice
/// failed: each model with its error, in order, separated by " | ".
pub fn gemini_fallback_error(failures: &Vec<(String, String)>) -> (r: String)
    ensures
        r@ == "all gemini-auto models failed: "@ + joined_failures(failures@.map_values(
            |f: (String, String)| (f.0@, f.1@),
        )),
{
    let ghost fv = failures@.map_values(|f: (String, String)| (f.0@, f.1@));
    let mut s = String::from_str("all gemini-auto models failed: ");
    let ghost head = s@;
    let mut i: usize = 0;
    while i < failures.len()
        invariant
            i <= failures.len(),
            fv == failures@.map_values(|f: (String, String)| (f.0@, f.1@)),
            s@ == head + joined_failures(fv.subrange(0, i as int)),
        decreases failures.len() - i,
    {
        assert(fv.subrange(0, i + 1).drop_last() =~= fv.subrange(0, i as int));
        if i > 0 {
            push_str(&mut s, " | ");
        }
        push_str(&mut s, failures[i].0.as_str());
        push_str(&mut s, ": ");
        push_str(&mut s, failures[i].1.as_str());
        i = i + 1;
    }
    assert(fv.subrange(0, fv.len() as int) =~= fv);
    s
}

/// "model: error" for each failure, separated by " | ".
pub open spec fn joined_failures(f: Seq<(Seq<char>, Seq<char>)>) -> Seq<char>
    decreases f.len(),
{
    if f.len() == 0 {
        Seq::empty()
    } else {
        let item = f.last().0 + ": "@ + f.last().1;
        if f.len() == 1 {
            item
        } else {
            joined_failures(f.drop_last()) + " | "@ + item
        }
    }
}

/// The MIME type guessed from an image URL's extension (ASCII case ignored).
pub open spec fn image_mime_for(url: Seq<char>) -> Seq<char> {
    let lower = seq_ascii_lower(url);
    if ends_with_seq(lower, ".png"@) {
        "image/png"@
    } else if ends_with_seq(lower, ".gif"@) {
        "image/gif"@
    } else if ends_with_seq(lower, ".webp"@) {
        "image/webp"@
    } else {
        "image/jpeg"@
    }
}

pub fn infer_image_mime(image_url: &str) -> (r: String)
    ensures
        r@ == image_mime_for(image_url@),
{
    let v = str_to_chars(image_url);
    let mut lower: Vec<char> = Vec::new();
    let mut i: usize = 0;
    while i < v.len()
        invariant
            i <= v@.len(),
            lower@ == seq_ascii_lower(v@.subrange(0, i as int)),
        decreases v@.len() - i,
    {
        lower.push(to_ascii_lower(v[i]));
        i = i + 1;
        assert(lower@ =~= seq_ascii_lower(v@.subrange(0, i as int)));
    }
    assert(v@.subrange(0, v@.len() as int) =~= v@);
    if ends_with_chars(&lower, &str_to_chars(".png")) {
        String::from_str("image/png")
    } else if ends_with_chars(&lower, &str_to_chars(".gif")) {
        String::from_str("image/gif")
    } else if ends_with_chars(&lower, &str_to_chars(".webp")) {
        String::from_str("image/webp")
    } else {
        String::from_str("image/jpeg")
    }
}

pub fn content_type_mime(value: &str) -> (r: String)
    ensures
        (exists|i: int| 0 <= i < value@.len() && value@[i] == ';' && (forall|j: int| 0 <= j < i ==> value@[j] != ';') && r@ == value@.subrange(0, i))
            || (!value@.contains(';') && r@ == value@),
{
    let v = str_to_chars(value);
    let mut i: usize = 0;
    while i < v.len() && v[i] != ';'
        invariant
            i <= v@.len(),
            v@ == value@,
            forall|j: int| 0 <= j < i ==> v@[j] != ';',
        decreases v@.len() - i,
    {
        i = i + 1;
    }
    let mut out: Vec<char> = Vec::new();
    let mut k: usize = 0;
    while k < i
        invariant
            k <= i <= v@.len(),
            out@ == v@.subrange(0, k as int),
        decreases i - k,
    {
        out.push(v[k]);
        k = k + 1;
        assert(out@ =~= v@.subrange(0, k as int));
    }
    if i == v.len() {
        assert(out@ =~= value@);
        assert forall|j: int| 0 <= j < value@.len() implies value@[j] != ';' by {}
    }
    chars_to_string(&out)
}

/// The role of a Gemini content.
pub open spec fn gemini_role(role: Role) -> Seq<char> {
    if role == Role::Assistant {
        "model"@
    } else {
        "user"@
    }
}

/// A part of a Gemini content before images are fetched: a text, or the URL
/// of an image to fetch.
pub enum PartPlan {
    Text(String),
    ImageUrl(String),
}

pub struct ContentPlan {
    pub role: String,
    pub parts: Vec<PartPlan>,
}

pub open spec fn part_view(p: PartPlan) -> (bool, Seq<char>) {
    match p {
        PartPlan::Text(t) => (true, t@),
        PartPlan::ImageUrl(u) => (false, u@),
    }
}

pub open spec fn content_view(c: ContentPlan) -> (Seq<char>, Seq<(bool, Seq<char>)>) {
    (c.role@, c.parts@.map_values(|p: PartPlan| part_view(p)))
}

/// The parts of a user message with images: its text if not empty, then
/// one image part per URL.
pub open spec fn image_message_parts(text: Seq<char>, urls: Seq<Seq<char>>) -> Seq<(bool, Seq<char>)> {
    (if text.len() > 0 {
        seq![(true, text)]
    } else {
        Seq::empty()
    }) + urls.map_values(|u: Seq<char>| (false, u))
}

/// The Gemini contents of a context, before images are fetched: each message
/// with text (role "model" for the assistant, else "user"), and each user
/// message with images; tool items are left out.
pub open spec fn gemini_contents(s: Seq<ContextEntry>) -> Seq<(Seq<char>, Seq<(bool, Seq<char>)>)>
    decreases s.len(),
{
    if s.len() == 0 {
        Seq::empty()
    } else {
        let rest = gemini_contents(s.drop_last());
        match s.last() {
            ContextEntry::Text { role, text } => if text.len() == 0 {
                rest
            } else {
                rest.push((gemini_role(role), seq![(true, text)]))
            },
            ContextEntry::UserWithImages { text, image_urls } => {
                let parts = image_message_parts(text, image_urls);
                if parts.len() == 0 {
                    rest
                } else {
                    rest.push(("user"@, parts))
                }
            },
            _ => rest,
        }
    }
}

pub fn lm_context_to_content_plans(ctx: &LMContext) -> (r: Vec<ContentPlan>)
    ensures
        r@.map_values(|c: ContentPlan| content_view(c)) == gemini_contents(entries_of(ctx.buf@)),
{
    let ghost s = entries_of(ctx.buf@);
    let n = ctx.buf.len();
    let mut out: Vec<ContentPlan> = Vec::new();
    let mut i: usize = 0;
    while i < n
        invariant
            n == ctx.buf@.len(),
            i <= n,
            s == entries_of(ctx.buf@),
            out@.map_values(|c: ContentPlan| content_view(c)) == gemini_contents(s.subrange(0, i as int)),
        decreases n - i,
    {
        assert(s.subrange(0, i + 1).drop_last() =~= s.subrange(0, i as int));
        let ghost before = out@.map_values(|c: ContentPlan| content_view(c));
        match &ctx.buf[i] {
            ContextItem::Text { role, text } => {
                if text.unicode_len() > 0 {
                    let r = if *role == Role::Assistant {
                        String::from_str("model")
                    } else {
                        String::from_str("user")
                    };
                    let mut parts: Vec<PartPlan> = Vec::new();
                    parts.push(PartPlan::Text(text.clone()));
                    let c = ContentPlan { role: r, parts };
                    assert(content_view(c) == (gemini_role(*role), seq![(true, text@)])) by {
                        assert(c.parts@.map_values(|p: PartPlan| part_view(p)) =~= seq![(true, text@)]);
                    }
                    out.push(c);
                    assert(out@.map_values(|c: ContentPlan| content_view(c)) =~= before.push(
                        (gemini_role(*role), seq![(true, text@)]),
                    ));
                }
            },
            ContextItem::UserWithImages { text, image_urls } => {
                let mut parts: Vec<PartPlan> = Vec::new();
                if text.unicode_len() > 0 {
                    parts.push(PartPlan::Text(text.clone()));
                }
                let ghost head = parts@.map_values(|p: PartPlan| part_view(p));
                assert(head =~= (if text@.len() > 0 {
                    seq![(true, text@)]
                } else {
                    Seq::empty()
                }));
                let mut k: usize = 0;
                while k < image_urls.len()
                    invariant
                        k <= image_urls@.len(),
                        parts@.map_values(|p: PartPlan| part_view(p)) == head + strs_view(image_urls@).subrange(0, k as int).map_values(|u: Seq<char>| (false, u)),
                    decreases image_urls@.len() - k,
                {
                    let ghost pb = parts@.map_values(|p: PartPlan| part_view(p));
                    let ghost us = strs_view(image_urls@);
                    let u = image_urls[k].clone();
                    parts.push(PartPlan::ImageUrl(u));
                    assert(parts@.map_values(|p: PartPlan| part_view(p)) =~= pb.push((false, us[k as int])));
                    assert(us.subrange(0, k + 1).map_values(|u: Seq<char>| (false, u)) =~= us.subrange(0, k as int).map_values(|u: Seq<char>| (false, u)).push((false, us[k as int])));
                    k = k + 1;
                    assert(parts@.map_values(|p: PartPlan| part_view(p)) =~= head + strs_view(image_urls@).subrange(0, k as int).map_values(|u: Seq<char>| (false, u)));
                }
                assert(strs_view(image_urls@).subrange(0, k as int) =~= strs_view(image_urls@));
                if parts.len() > 0 {
                    let c = ContentPlan { role: String::from_str("user"), parts };
                    out.push(c);
                    assert(out@.map_values(|c: ContentPlan| content_view(c)) =~= before.push(content_view(c)));
                }
            },
            _ => {},
        }
        i = i + 1;
    }
    assert(s.subrange(0, n as int) =~= s);
    out
}

/// The character of a 6-bit value in the standard Base64 alphabet.
pub open spec fn b64_char(v: int) -> char {
    if v < 26 {
        (65 + v) as char
    } else if v < 52 {
        (97 + (v - 26)) as char
    } else if v < 62 {
        (48 + (v - 52)) as char
    } else if v == 62 {
        '+'
    } else {
        '/'
    }
}

/// Standard Base64 (RFC 4648 alphabet, '=' padding) of bytes.
pub open spec fn base64_standard(b: Seq<u8>) -> Seq<char>
    decreases b.len(),
{
    if b.len() == 0 {
        Seq::empty()
    } else if b.len() == 1 {
        let n = b[0] * 65536;
        seq![b64_char(n / 262144), b64_char((n / 4096) % 64), '=', '=']
    } else if b.len() == 2 {
        let n = b[0] * 65536 + b[1] * 256;
        seq![b64_char(n / 262144), b64_char((n / 4096) % 64), b64_char((n / 64) % 64), '=']
    } else {
        let n = b[0] * 65536 + b[1] * 256 + b[2];
        seq![b64_char(n / 262144), b64_char((n / 4096) % 64), b64_char((n / 64) % 64), b64_char(n % 64)]
            + base64_standard(b.subrange(3, b.len() as int))
    }
}

/// `base64::engine::general_purpose::STANDARD.encode`: standard Base64 with
/// padding, as the crate documents it.
#[verifier::external_body]
fn encode_base64(bytes: &Vec<u8>) -> (r: String)
    ensures
        r@ == base64_standard(bytes@),
{
    base64::engine::general_purpose::STANDARD.encode(bytes)
}

/// The inline data of a fetched image: its MIME type (from the
/// `Content-Type` header, else guessed from the URL) and its Base64 text.
pub fn inline_image_data(content_type: Option<&str>, image_url: &str, bytes: &Vec<u8>) -> (r: (String, String))
    ensures
        match content_type {
            Some(ct) => (exists|i: int| 0 <= i < ct@.len() && ct@[i] == ';' && (forall|j: int| 0 <= j < i ==> ct@[j] != ';') && r.0@ == ct@.subrange(0, i))
                || (!ct@.contains(';') && r.0@ == ct@),
            None => r.0@ == image_mime_for(image_url@),
        },
        r.1@ == base64_standard(bytes@),
{
    let mime = match content_type {
        Some(ct) => content_type_mime(ct),
        None => infer_image_mime(image_url),
    };
    (mime, encode_base64(bytes))
}


/// One thing a Gemini reply holds, in part order: a text the model wrote,
/// or a function it asks to call with its arguments.
pub enum GeminiStep {
    Text(String),
    Call { name: String, args: Json },
}

pub enum GeminiStepView {
    Text(Seq<char>),
    Call { name: Seq<char>, args: JsonV },
}

impl View for GeminiStep {
    type V = GeminiStepView;

    open spec fn view(&self) -> GeminiStepView {
        match self {
            GeminiStep::Text(t) => GeminiStepView::Text(t@),
            GeminiStep::Call { name, args } => GeminiStepView::Call { name: name@, args: args@ },
        }
    }
}

/// The steps of a Gemini reply; the tool loop is done when none is a call.
pub struct GeminiTurn {
    pub steps: Vec<GeminiStep>,
}

pub open spec fn steps_view(v: Seq<GeminiStep>) -> Seq<GeminiStepView> {
    v.map_values(|st: GeminiStep| st@)
}

/// "Gemini returned no candidates: {reason}", the reason being the prompt
/// feedback's block reason, or "unknown".
pub open spec fn no_candidates_message(resp: JsonV) -> Seq<char> {
    "Gemini returned no candidates: "@ + match json_get(resp, "promptFeedback"@) {
        Some(f) => match json_get(f, "blockReason"@) {
            Some(JsonV::Str(r)) => r,
            _ => "unknown"@,
        },
        None => "unknown"@,
    }
}

/// The steps of one part: its text when it is a non-empty string, then its
/// function call when it has one (the name, empty when missing, and the
/// arguments, `null` when missing).
pub open spec fn part_steps(part: JsonV) -> Seq<GeminiStepView> {
    let text = match json_get(part, "text"@) {
        Some(JsonV::Str(t)) => if t.len() > 0 {
            seq![GeminiStepView::Text(t)]
        } else {
            Seq::empty()
        },
        _ => Seq::empty(),
    };
    let call = match json_get(part, "functionCall"@) {
        None => Seq::empty(),
        Some(JsonV::Null) => Seq::empty(),
        Some(c) => seq![
            GeminiStepView::Call {
                name: match json_get(c, "name"@) {
                    Some(JsonV::Str(n)) => n,
                    _ => Seq::empty(),
                },
                args: match json_get(c, "args"@) {
                    Some(a) => a,
                    None => JsonV::Null,
                },
            },
        ],
    };
    text + call
}

/// The steps of a list of parts, in order.
pub open spec fn parts_steps(parts: Seq<JsonV>) -> Seq<GeminiStepView>
    decreases parts.len(),
{
    if parts.len() == 0 {
        Seq::empty()
    } else {
        parts_steps(parts.drop_last()) + part_steps(parts.last())
    }
}

/// What a `generateContent` answer gives: the steps of its first candidate,
/// or the error when it has no candidate or the candidate has no content.
pub open spec fn gemini_turn(resp: JsonV) -> Result<Seq<GeminiStepView>, Seq<char>> {
    match json_get(resp, "candidates"@) {
        Some(JsonV::Array(cs)) => if cs.len() > 0 {
            match json_get(cs[0], "content"@) {
                None => Err("Gemini candidate had no content"@),
                Some(JsonV::Null) => Err("Gemini candidate had no content"@),
                Some(content) => Ok(
                    parts_steps(
                        match json_get(content, "parts"@) {
                            Some(JsonV::Array(ps)) => ps,
                            _ => Seq::empty(),
                        },
                    ),
                ),
            }
        } else {
            Err(no_candidates_message(resp))
        },
        _ => Err(no_candidates_message(resp)),
    }
}

/// Whether a step list asks for no call, so that the tool loop ends.
pub open spec fn turn_done(steps: Seq<GeminiStepView>) -> bool {
    forall|i: int| 0 <= i < steps.len() ==> !(#[trigger] steps[i] is Call)
}

fn no_candidates(resp: &Json) -> (r: String)
    ensures
        r@ == no_candidates_message(resp@),
{
    let mut s = String::from_str("Gemini returned no candidates: ");
    let reason = match json_get_ref(resp, "promptFeedback") {
        Some(f) => match json_get_ref(f, "blockReason") {
            Some(Json::Str(r)) => r.as_str(),
            _ => "unknown",
        },
        None => "unknown",
    };
    push_str(&mut s, reason);
    s
}

fn push_part_steps(steps: &mut Vec<GeminiStep>, part: &Json)
    ensures
        steps_view(final(steps)@) == steps_view(old(steps)@) + part_steps(part@),
{
    let ghost start = steps_view(steps@);
    match json_get_ref(part, "text") {
        Some(Json::Str(t)) => {
            if t.unicode_len() > 0 {
                steps.push(GeminiStep::Text(t.clone()));
            }
        },
        _ => {},
    }
    let ghost mid = steps_view(steps@);
    match json_get_ref(part, "functionCall") {
        None => {},
        Some(Json::Null) => {},
        Some(c) => {
            let name = match json_get_ref(c, "name") {
                Some(Json::Str(n)) => n.clone(),
                _ => String::new(),
            };
            let args = match json_get_ref(c, "args") {
                Some(a) => clone_json(a),
                None => Json::Null,
            };
            steps.push(GeminiStep::Call { name, args });
        },
    }
    proof {
        let text = match json_get(part@, "text"@) {
            Some(JsonV::Str(t)) => if t.len() > 0 {
                seq![GeminiStepView::Text(t)]
            } else {
                Seq::<GeminiStepView>::empty()
            },
            _ => Seq::<GeminiStepView>::empty(),
        };
        assert(mid =~= start + text);
        assert(steps_view(steps@) =~= start + part_steps(part@));
    }
}

/// Reads a `generateContent` answer into the steps of its first candidate.
pub fn read_gemini_reply(response: &Json) -> (r: Result<GeminiTurn, String>)
    ensures
        match r {
            Ok(t) => gemini_turn(response@) == Ok::<Seq<GeminiStepView>, Seq<char>>(steps_view(t.steps@)),
            Err(e) => gemini_turn(response@) == Err::<Seq<GeminiStepView>, Seq<char>>(e@),
        },
{
    let cands = match json_get_ref(response, "candidates") {
        Some(Json::Array(cs)) => cs,
        _ => {
            return Err(no_candidates(response));
        },
    };
    if cands.len() == 0 {
        return Err(no_candidates(response));
    }
    proof {
        crate::schema::lemma_items_view(cands@);
    }
    let content = match json_get_ref(&cands[0], "content") {
        None => {
            return Err(String::from_str("Gemini candidate had no content"));
        },
        Some(Json::Null) => {
            return Err(String::from_str("Gemini candidate had no content"));
        },
        Some(c) => c,
    };
    let mut steps: Vec<GeminiStep> = Vec::new();
    assert(steps_view(steps@) =~= Seq::<GeminiStepView>::empty());
    match json_get_ref(content, "parts") {
        Some(Json::Array(ps)) => {
            let ghost pv = crate::schema::items_view(ps@);
            proof {
                crate::schema::lemma_items_view(ps@);
            }
            let mut i: usize = 0;
            while i < ps.len()
                invariant
                    i <= ps@.len(),
                    pv == crate::schema::items_view(ps@),
                    pv.len() == ps@.len(),
                    forall|k: int| 0 <= k < ps@.len() ==> #[trigger] pv[k] == ps@[k]@,
                    steps_view(steps@) == parts_steps(pv.subrange(0, i as int)),
                decreases ps@.len() - i,
            {
                push_part_steps(&mut steps, &ps[i]);
                assert(pv.subrange(0, i + 1).drop_last() =~= pv.subrange(0, i as int));
                i = i + 1;
            }
            assert(pv.subrange(0, pv.len() as int) =~= pv);
        },
        _ => {},
    }
    Ok(GeminiTurn { steps })
}

impl GeminiTurn {
    /// Whether the reply asks for no function call, so that the loop ends.
    pub fn is_done(&self) -> (r: bool)
        ensures
            r == turn_done(steps_view(self.steps@)),
    {
        let mut i: usize = 0;
        while i < self.steps.len()
            invariant
                i <= self.steps@.len(),
                forall|k: int| 0 <= k < i ==> !(#[trigger] steps_view(self.steps@)[k] is Call),
            decreases self.steps@.len() - i,
        {
            match &self.steps[i] {
                GeminiStep::Call { .. } => {
                    assert(steps_view(self.steps@)[i as int] is Call);
                    return false;
                },
                GeminiStep::Text(_) => {},
            }
            i = i + 1;
        }
        true
    }
}

/// The next model of the automatic choice to try after `failures`: the one
/// at that position, or, when every model has failed, the error listing each
/// model with its error.
pub fn gemini_fallback_next(models: &Vec<String>, failures: &Vec<(String, String)>) -> (r: Result<usize, String>)
    requires
        failures.len() <= models.len(),
    ensures
        failures.len() < models.len() ==> r == Ok::<usize, String>(failures.len()),
        failures.len() == models.len() ==> (r matches Err(e) && e@ == "all gemini-auto models failed: "@
            + joined_failures(failures@.map_values(|f: (String, String)| (f.0@, f.1@)))),
{
    if failures.len() < models.len() {
        Ok(failures.len())
    } else {
        Err(gemini_fallback_error(failures))
    }
}

} // verus!
