//! The conversation context sent to the language model: a bounded buffer of
//! messages, tool calls and their outputs, and what is read back from it.
use vstd::prelude::*;
use std::collections::VecDeque;
use async_openai::types::responses::Item;
use crate::text::{str_eq, strs_view, str_to_chars, contains_chars, contains_seq};
use crate::tool_args::{ToolArgs, members_view, json_object_members};

verus! {

#[verifier::external_type_specification]
#[verifier::external_body]
pub struct ExResponseItem(Item);

/// Who a message is from.
#[derive(Debug, Clone, Copy, PartialEq, Eq, Structural)]
pub enum Role {
    User,
    Assistant,
    System,
    Developer,
}

/// An entry of the context.
pub enum ContextItem {
    /// A message with text only.
    Text { role: Role, text: String },
    /// A user message with images.
    UserWithImages { text: String, image_urls: Vec<String> },
    /// A function call of the model, with the item it came in.
    FunctionCall { call_id: String, name: String, arguments: String, item: Item },
    /// The output of a function call.
    FunctionCallOutput { call_id: String, output: String },
    /// Any other item of the model (reasoning, web search, ...), carried as it is.
    Other(Item),
}

/// The values of a [`ContextItem`] that the context reads.
pub enum ContextEntry {
    Text { role: Role, text: Seq<char> },
    UserWithImages { text: Seq<char>, image_urls: Seq<Seq<char>> },
    FunctionCall { call_id: Seq<char>, name: Seq<char>, arguments: Seq<char> },
    FunctionCallOutput { call_id: Seq<char>, output: Seq<char> },
    Other,
}

impl View for ContextItem {
    type V = ContextEntry;

    open spec fn view(&self) -> ContextEntry {
        match self {
            ContextItem::Text { role, text } => ContextEntry::Text { role: *role, text: text@ },
            ContextItem::UserWithImages { text, image_urls } => ContextEntry::UserWithImages {
                text: text@,
                image_urls: strs_view(image_urls@),
            },
            ContextItem::FunctionCall { call_id, name, arguments, .. } => ContextEntry::FunctionCall {
                call_id: call_id@,
                name: name@,
                arguments: arguments@,
            },
            ContextItem::FunctionCallOutput { call_id, output } => ContextEntry::FunctionCallOutput {
                call_id: call_id@,
                output: output@,
            },
            ContextItem::Other(_) => ContextEntry::Other,
        }
    }
}

pub open spec fn entries_of(v: Seq<ContextItem>) -> Seq<ContextEntry> {
    v.map_values(|i: ContextItem| i@)
}

/// The context: its entries, oldest first, and how many of them it keeps.
pub struct LMContext {
    pub buf: VecDeque<ContextItem>,
    pub max_len: usize,
}

/// The last `max` entries.
pub open spec fn keep_last<A>(s: Seq<A>, max: nat) -> Seq<A> {
    if s.len() > max {
        s.subrange(s.len() - max, s.len() as int)
    } else {
        s
    }
}

/// Whether an entry is part of the conversation history (a message).
pub open spec fn is_history(e: ContextEntry) -> bool {
    e is Text || e is UserWithImages
}

/// The history entries, in order.
pub open spec fn history_of(s: Seq<ContextEntry>) -> Seq<ContextEntry>
    decreases s.len(),
{
    if s.len() == 0 {
        s
    } else {
        let rest = history_of(s.drop_last());
        if is_history(s.last()) {
            rest.push(s.last())
        } else {
            rest
        }
    }
}

/// The message items of a context (its history), in order.
pub open spec fn history_items(s: Seq<ContextItem>) -> Seq<ContextItem>
    decreases s.len(),
{
    if s.len() == 0 {
        s
    } else {
        let rest = history_items(s.drop_last());
        if is_history(s.last()@) {
            rest.push(s.last())
        } else {
            rest
        }
    }
}

/// Whether `a` is `b` or a copy of it: a copied message with images has the
/// same text and the same image URLs, in a list of its own; every other item
/// is `b` itself.
pub open spec fn copy_of(a: ContextItem, b: ContextItem) -> bool {
    match (a, b) {
        (
            ContextItem::UserWithImages { text: t1, image_urls: u1 },
            ContextItem::UserWithImages { text: t2, image_urls: u2 },
        ) => t1 == t2 && u1@ == u2@,
        _ => a == b,
    }
}

/// Whether each item of `a` is a copy of the item of `b` at its position.
pub open spec fn copies_of(a: Seq<ContextItem>, b: Seq<ContextItem>) -> bool {
    &&& a.len() == b.len()
    &&& forall|i: int| 0 <= i < a.len() ==> copy_of(#[trigger] a[i], b[i])
}

proof fn lemma_copies_keep_last(a: Seq<ContextItem>, b: Seq<ContextItem>, max: nat)
    requires
        copies_of(a, b),
    ensures
        copies_of(keep_last(a, max), keep_last(b, max)),
{
    if a.len() > max {
        let ka = keep_last(a, max);
        let kb = keep_last(b, max);
        assert forall|i: int| 0 <= i < ka.len() implies copy_of(#[trigger] ka[i], kb[i]) by {
            assert(ka[i] == a[i + (a.len() - max)]);
            assert(kb[i] == b[i + (b.len() - max)]);
        }
    }
}

/// The text of a message entry.
pub open spec fn entry_text(e: ContextEntry) -> Option<Seq<char>> {
    match e {
        ContextEntry::Text { text, .. } => Some(text),
        ContextEntry::UserWithImages { text, .. } => Some(text),
        _ => None,
    }
}

/// The text of the latest message with text, or the empty text.
pub open spec fn result_text(s: Seq<ContextEntry>) -> Seq<char>
    decreases s.len(),
{
    if s.len() == 0 {
        Seq::empty()
    } else {
        match entry_text(s.last()) {
            Some(t) => if t.len() > 0 {
                t
            } else {
                result_text(s.drop_last())
            },
            None => result_text(s.drop_last()),
        }
    }
}

/// A function call of the context: its ID, name and argument text.
pub struct ToolCall {
    pub call_id: String,
    pub name: String,
    pub arguments: String,
}

pub open spec fn tool_call_view(c: ToolCall) -> (Seq<char>, Seq<char>, Seq<char>) {
    (c.call_id@, c.name@, c.arguments@)
}

/// The output IDs of the function outputs, in order.
pub open spec fn output_ids(s: Seq<ContextEntry>) -> Seq<Seq<char>>
    decreases s.len(),
{
    if s.len() == 0 {
        Seq::empty()
    } else {
        let rest = output_ids(s.drop_last());
        match s.last() {
            ContextEntry::FunctionCallOutput { call_id, .. } => rest.push(call_id),
            _ => rest,
        }
    }
}

/// The function calls no output answers, in order.
pub open spec fn uncompleted_calls(s: Seq<ContextEntry>, done: Seq<Seq<char>>) -> Seq<(Seq<char>, Seq<char>, Seq<char>)>
    decreases s.len(),
{
    if s.len() == 0 {
        Seq::empty()
    } else {
        let rest = uncompleted_calls(s.drop_last(), done);
        match s.last() {
            ContextEntry::FunctionCall { call_id, name, arguments } => if done.contains(call_id) {
                rest
            } else {
                rest.push((call_id, name, arguments))
            },
            _ => rest,
        }
    }
}

/// The text a `discord-tool` call posted with `send_message`, if this entry
/// is such a call with a text content.
pub open spec fn discord_send_content(e: ContextEntry) -> Option<Seq<char>> {
    match e {
        ContextEntry::FunctionCall { name, arguments, .. } => if name == "discord-tool"@ {
            discord_send_of(json_object_members(arguments))
        } else {
            None
        },
        _ => None,
    }
}

/// The first member named `key` of a member list.
pub open spec fn member(m: Seq<(Seq<char>, crate::tool_args::ArgView)>, key: Seq<char>) -> Option<crate::tool_args::ArgView>
    decreases m.len(),
{
    if m.len() == 0 {
        None
    } else if m[0].0 == key {
        Some(m[0].1)
    } else {
        member(m.drop_first(), key)
    }
}

/// The `content` of arguments whose `operation` is `send_message`.
pub open spec fn discord_send_of(m: Seq<(Seq<char>, crate::tool_args::ArgView)>) -> Option<Seq<char>> {
    if member(m, "operation"@) == Some(crate::tool_args::ArgView::Text("send_message"@)) {
        match member(m, "content"@) {
            Some(crate::tool_args::ArgView::Text(c)) => Some(c),
            _ => None,
        }
    } else {
        None
    }
}

/// The latest text posted through the `discord-tool`.
pub open spec fn latest_discord_send(s: Seq<ContextEntry>) -> Option<Seq<char>>
    decreases s.len(),
{
    if s.len() == 0 {
        None
    } else {
        match discord_send_content(s.last()) {
            Some(c) => Some(c),
            None => latest_discord_send(s.drop_last()),
        }
    }
}

fn clone_strings(v: &Vec<String>) -> (r: Vec<String>)
    ensures
        r@ == v@,
        strs_view(r@) == strs_view(v@),
{
    let mut out: Vec<String> = Vec::new();
    let mut i: usize = 0;
    while i < v.len()
        invariant
            i <= v@.len(),
            strs_view(out@) == strs_view(v@).subrange(0, i as int),
            out@ == v@.subrange(0, i as int),
        decreases v@.len() - i,
    {
        let ghost before = out@;
        let x = v[i].clone();
        out.push(x);
        assert(strs_view(out@) =~= strs_view(before).push(v@[i as int]@));
        i = i + 1;
        assert(strs_view(out@) =~= strs_view(v@).subrange(0, i as int));
        assert(out@ =~= v@.subrange(0, i as int));
    }
    assert(strs_view(v@).subrange(0, v@.len() as int) =~= strs_view(v@));
    assert(v@.subrange(0, v@.len() as int) =~= v@);
    out
}

/// The `discord-tool` send text of an entry.
fn item_send_content(item: &ContextItem) -> (r: Option<String>)
    ensures
        match r {
            Some(c) => discord_send_content(item@) == Some(c@),
            None => discord_send_content(item@) is None,
        },
{
    match item {
        ContextItem::FunctionCall { name, arguments, .. } => {
            if !str_eq(name.as_str(), "discord-tool") {
                return None;
            }
            let args = ToolArgs::from_json(arguments.as_str());
            proof {
                lemma_member_lookup(args.entries@, "operation"@);
                lemma_member_lookup(args.entries@, "content"@);
            }
            let op = args.get_str("operation");
            match op {
                Some(o) => if !str_eq(o.as_str(), "send_message") {
                    return None;
                },
                None => {
                    return None;
                },
            }
            args.get_str("content")
        },
        _ => None,
    }
}

pub(crate) proof fn lemma_member_lookup(e: Seq<(String, crate::tool_args::ArgValue)>, key: Seq<char>)
    ensures
        member(members_view(e), key) == match crate::tool_args::lookup(e, key) {
            Some(v) => Some(crate::tool_args::arg_view(v)),
            None => None,
        },
    decreases e.len(),
{
    if e.len() > 0 {
        lemma_member_lookup(e.drop_first(), key);
        assert(members_view(e).drop_first() =~= members_view(e.drop_first()));
    }
}

impl LMContext {
    /// An empty context keeping 64 entries.
    pub fn new() -> (r: Self)
        ensures
            entries_of(r.buf@) == Seq::<ContextEntry>::empty(),
            r.max_len == 64,
    {
        LMContext { buf: VecDeque::new(), max_len: 64 }
    }

    pub fn clear(&mut self)
        ensures
            entries_of(final(self).buf@) == Seq::<ContextEntry>::empty(),
            final(self).buf@ == Seq::<ContextItem>::empty(),
            final(self).max_len == old(self).max_len,
    {
        self.buf.clear();
    }

    pub fn set_max_len(&mut self, max_len: usize)
        ensures
            entries_of(final(self).buf@) == entries_of(old(self).buf@),
            final(self).buf@ == old(self).buf@,
            final(self).max_len == max_len,
    {
        self.max_len = max_len;
    }

    /// Drops the oldest entries beyond the limit.
    pub fn trim_len(&mut self)
        ensures
            entries_of(final(self).buf@) == keep_last(entries_of(old(self).buf@), old(self).max_len as nat),
            final(self).buf@ == keep_last(old(self).buf@, old(self).max_len as nat),
            final(self).max_len == old(self).max_len,
    {
        let ghost start = entries_of(self.buf@);
        let ghost items = self.buf@;
        while self.buf.len() > self.max_len
            invariant
                self.max_len == old(self).max_len,
                start == entries_of(old(self).buf@),
                self.buf@.len() >= self.max_len ==> entries_of(self.buf@) == start.subrange(
                    start.len() - self.buf@.len(),
                    start.len() as int,
                ),
                self.buf@.len() < self.max_len ==> entries_of(self.buf@) == start,
                self.buf@.len() <= start.len(),
                self.buf@.len() < start.len() ==> self.buf@.len() >= self.max_len,
                items == old(self).buf@,
                start.len() == items.len(),
                self.buf@ == items.subrange(items.len() - self.buf@.len(), items.len() as int),
            decreases self.buf@.len(),
        {
            let ghost before = self.buf@;
            let _ = self.buf.pop_front();
            assert(entries_of(self.buf@) =~= entries_of(before).drop_first());
            assert(self.buf@ =~= items.subrange(items.len() - self.buf@.len(), items.len() as int));
        }
        proof {
            if start.len() <= self.max_len {
                assert(entries_of(self.buf@) =~= start);
                assert(self.buf@ =~= items);
            } else {
                assert(self.buf@.len() == self.max_len);
            }
        }
    }

    /// Adds a message with text.
    pub fn add_text(&mut self, text: String, role: Role)
        ensures
            entries_of(final(self).buf@) == entries_of(old(self).buf@).push(ContextEntry::Text { role, text: text@ }),
            final(self).buf@ == old(self).buf@.push(ContextItem::Text { role, text }),
            final(self).max_len == old(self).max_len,
    {
        self.buf.push_back(ContextItem::Text { role, text });
        assert(entries_of(self.buf@) =~= entries_of(old(self).buf@).push(ContextEntry::Text { role, text: text@ }));
    }

    /// Adds a user message with images.
    pub fn add_user_text_with_images(&mut self, text: String, image_urls: Vec<String>)
        ensures
            entries_of(final(self).buf@) == entries_of(old(self).buf@).push(
                ContextEntry::UserWithImages { text: text@, image_urls: strs_view(image_urls@) },
            ),
            final(self).buf@ == old(self).buf@.push(ContextItem::UserWithImages { text, image_urls }),
            final(self).max_len == old(self).max_len,
    {
        let ghost e = ContextEntry::UserWithImages { text: text@, image_urls: strs_view(image_urls@) };
        self.buf.push_back(ContextItem::UserWithImages { text, image_urls });
        assert(entries_of(self.buf@) =~= entries_of(old(self).buf@).push(e));
    }

    /// Adds an item of the model.
    pub fn add_input_item(&mut self, item: ContextItem)
        ensures
            entries_of(final(self).buf@) == entries_of(old(self).buf@).push(item@),
            final(self).buf@ == old(self).buf@.push(item),
            final(self).max_len == old(self).max_len,
    {
        let ghost e = item@;
        self.buf.push_back(item);
        assert(entries_of(self.buf@) =~= entries_of(old(self).buf@).push(e));
    }

    /// Appends the messages of another context (not its tool items), then
    /// drops the oldest entries beyond the limit.
    pub fn extend(&mut self, other: &LMContext)
        ensures
            entries_of(final(self).buf@) == keep_last(
                entries_of(old(self).buf@) + history_of(entries_of(other.buf@)),
                old(self).max_len as nat,
            ),
            copies_of(final(self).buf@, keep_last(old(self).buf@ + history_items(other.buf@), old(self).max_len as nat)),
            final(self).max_len == old(self).max_len,
    {
        let ghost start = entries_of(self.buf@);
        let ghost start_items = self.buf@;
        let ghost src = entries_of(other.buf@);
        let n = other.buf.len();
        let mut i: usize = 0;
        while i < n
            invariant
                n == other.buf@.len(),
                i <= n,
                src == entries_of(other.buf@),
                self.max_len == old(self).max_len,
                entries_of(self.buf@) == start + history_of(src.subrange(0, i as int)),
                start_items == old(self).buf@,
                copies_of(self.buf@, start_items + history_items(other.buf@.subrange(0, i as int))),
            decreases n - i,
        {
            let ghost before_items = self.buf@;
            let ghost target = start_items + history_items(other.buf@.subrange(0, i as int));
            assert(other.buf@.subrange(0, i + 1).drop_last() =~= other.buf@.subrange(0, i as int));
            assert(other.buf@.subrange(0, i + 1).last() == other.buf@[i as int]);
            let ghost cur = src.subrange(0, i + 1);
            assert(cur.drop_last() =~= src.subrange(0, i as int));
            let ghost before = entries_of(self.buf@);
            match &other.buf[i] {
                ContextItem::Text { role, text } => {
                    self.buf.push_back(ContextItem::Text { role: *role, text: text.clone() });
                    assert(entries_of(self.buf@) =~= before.push(src[i as int]));
                    proof {
                        let nt = start_items + history_items(other.buf@.subrange(0, i + 1));
                        assert(nt =~= target.push(other.buf@[i as int]));
                        assert forall|k: int| 0 <= k < self.buf@.len() implies copy_of(#[trigger] self.buf@[k], nt[k]) by {
                            if k < before_items.len() {
                                assert(self.buf@[k] == before_items[k]);
                            }
                        }
                    }
                },
                ContextItem::UserWithImages { text, image_urls } => {
                    let urls = clone_strings(image_urls);
                    self.buf.push_back(ContextItem::UserWithImages { text: text.clone(), image_urls: urls });
                    assert(entries_of(self.buf@) =~= before.push(src[i as int]));
                    proof {
                        let nt = start_items + history_items(other.buf@.subrange(0, i + 1));
                        assert(nt =~= target.push(other.buf@[i as int]));
                        assert forall|k: int| 0 <= k < self.buf@.len() implies copy_of(#[trigger] self.buf@[k], nt[k]) by {
                            if k < before_items.len() {
                                assert(self.buf@[k] == before_items[k]);
                            }
                        }
                    }
                },
                _ => {
                    assert(start_items + history_items(other.buf@.subrange(0, i + 1)) =~= target);
                },
            }
            i = i + 1;
        }
        assert(src.subrange(0, n as int) =~= src);
        assert(other.buf@.subrange(0, n as int) =~= other.buf@);
        let ghost pre_trim = self.buf@;
        self.trim_len();
        proof {
            lemma_copies_keep_last(pre_trim, start_items + history_items(other.buf@), self.max_len as nat);
        }
    }

    /// The text of the latest message that has text, or the empty text.
    pub fn get_result(&self) -> (r: String)
        ensures
            r@ == result_text(entries_of(self.buf@)),
    {
        let ghost s = entries_of(self.buf@);
        let mut i: usize = self.buf.len();
        assert(s.subrange(0, i as int) =~= s);
        while i > 0
            invariant
                i <= self.buf@.len(),
                s == entries_of(self.buf@),
                result_text(s) == result_text(s.subrange(0, i as int)),
            decreases i,
        {
            let ghost cur = s.subrange(0, i as int);
            assert(cur.drop_last() =~= s.subrange(0, i - 1));
            match &self.buf[i - 1] {
                ContextItem::Text { text, .. } => {
                    if text.unicode_len() > 0 {
                        return text.clone();
                    }
                },
                ContextItem::UserWithImages { text, .. } => {
                    if text.unicode_len() > 0 {
                        return text.clone();
                    }
                },
                _ => {},
            }
            i = i - 1;
        }
        String::new()
    }

    /// The function calls that no output answers yet, in order.
    pub fn get_uncompleted_tool_calls(&self) -> (r: Vec<ToolCall>)
        ensures
            r@.map_values(|c: ToolCall| tool_call_view(c)) == uncompleted_calls(
                entries_of(self.buf@),
                output_ids(entries_of(self.buf@)),
            ),
    {
        let ghost s = entries_of(self.buf@);
        let n = self.buf.len();
        let mut done: Vec<String> = Vec::new();
        let mut i: usize = 0;
        while i < n
            invariant
                n == self.buf@.len(),
                i <= n,
                s == entries_of(self.buf@),
                strs_view(done@) == output_ids(s.subrange(0, i as int)),
            decreases n - i,
        {
            assert(s.subrange(0, i + 1).drop_last() =~= s.subrange(0, i as int));
            match &self.buf[i] {
                ContextItem::FunctionCallOutput { call_id, .. } => {
                    let ghost before = done@;
                    done.push(call_id.clone());
                    assert(strs_view(done@) =~= strs_view(before).push(call_id@));
                },
                _ => {},
            }
            i = i + 1;
        }
        assert(s.subrange(0, n as int) =~= s);
        let ghost ids = output_ids(s);
        let mut out: Vec<ToolCall> = Vec::new();
        let mut j: usize = 0;
        while j < n
            invariant
                n == self.buf@.len(),
                j <= n,
                s == entries_of(self.buf@),
                strs_view(done@) == ids,
                out@.map_values(|c: ToolCall| tool_call_view(c)) == uncompleted_calls(s.subrange(0, j as int), ids),
            decreases n - j,
        {
            assert(s.subrange(0, j + 1).drop_last() =~= s.subrange(0, j as int));
            match &self.buf[j] {
                ContextItem::FunctionCall { call_id, name, arguments, .. } => {
                    if !crate::text::contains_string(&done, call_id) {
                        let ghost before = out@;
                        out.push(ToolCall { call_id: call_id.clone(), name: name.clone(), arguments: arguments.clone() });
                        assert(out@.map_values(|c: ToolCall| tool_call_view(c)) =~= before.map_values(|c: ToolCall| tool_call_view(c)).push((call_id@, name@, arguments@)));
                    }
                },
                _ => {},
            }
            j = j + 1;
        }
        assert(s.subrange(0, n as int) =~= s);
        out
    }

    /// The latest text posted with the `discord-tool`'s `send_message`.
    pub fn get_latest_discord_send_content(&self) -> (r: Option<String>)
        ensures
            match r {
                Some(c) => latest_discord_send(entries_of(self.buf@)) == Some(c@),
                None => latest_discord_send(entries_of(self.buf@)) is None,
            },
    {
        let ghost s = entries_of(self.buf@);
        let mut i: usize = self.buf.len();
        assert(s.subrange(0, i as int) =~= s);
        while i > 0
            invariant
                i <= self.buf@.len(),
                s == entries_of(self.buf@),
                latest_discord_send(s) == latest_discord_send(s.subrange(0, i as int)),
            decreases i,
        {
            let ghost cur = s.subrange(0, i as int);
            assert(cur.drop_last() =~= s.subrange(0, i - 1));
            match item_send_content(&self.buf[i - 1]) {
                Some(c) => {
                    return Some(c);
                },
                None => {},
            }
            i = i - 1;
        }
        None
    }
}

/// After trimming, the context holds its limit of entries, or all of them
/// when they are fewer.
pub proof fn lemma_keep_last_bound<A>(s: Seq<A>, max: nat)
    ensures
        keep_last(s, max).len() == if s.len() > max {
            max
        } else {
            s.len()
        },
{
}

/// The result read back after a message with text is added is that text.
pub proof fn lemma_result_after_text(s: Seq<ContextEntry>, role: Role, text: Seq<char>)
    requires
        text.len() > 0,
    ensures
        result_text(s.push(ContextEntry::Text { role, text })) == text,
{
    assert(s.push(ContextEntry::Text { role, text }).drop_last() =~= s);
}

/// A call whose output has been added is no longer pending.
pub proof fn lemma_output_completes_call(s: Seq<ContextEntry>, call_id: Seq<char>, output: Seq<char>)
    ensures
        !uncompleted_calls(
            s.push(ContextEntry::FunctionCallOutput { call_id, output }),
            output_ids(s.push(ContextEntry::FunctionCallOutput { call_id, output })),
        ).map_values(|c: (Seq<char>, Seq<char>, Seq<char>)| c.0).contains(call_id),
{
    let t = s.push(ContextEntry::FunctionCallOutput { call_id, output });
    assert(t.drop_last() =~= s);
    let ids = output_ids(t);
    assert(ids == output_ids(s).push(call_id));
    assert(ids.contains(call_id)) by {
        assert(ids[ids.len() - 1] == call_id);
    }
    lemma_uncompleted_excludes(t, ids, call_id);
}

proof fn lemma_uncompleted_excludes(s: Seq<ContextEntry>, done: Seq<Seq<char>>, id: Seq<char>)
    requires
        done.contains(id),
    ensures
        !uncompleted_calls(s, done).map_values(|c: (Seq<char>, Seq<char>, Seq<char>)| c.0).contains(id),
    decreases s.len(),
{
    if s.len() > 0 {
        lemma_uncompleted_excludes(s.drop_last(), done, id);
        let rest = uncompleted_calls(s.drop_last(), done);
        let r = uncompleted_calls(s, done);
        if r != rest {
            let e = r.last();
            assert(r =~= rest.push(e));
            assert(r.map_values(|c: (Seq<char>, Seq<char>, Seq<char>)| c.0) =~= rest.map_values(
                |c: (Seq<char>, Seq<char>, Seq<char>)| c.0,
            ).push(e.0));
        }
    }
}

/// Whether a failure to read a streamed event is the known one to skip: the
/// parser missed the field `action` in the event that announces a web search
/// call. Takes the parse error's message and the event's body.
pub fn should_ignore_stream_deserialize_error(parse_error: &str, body: &str) -> (r: bool)
    ensures
        r == (contains_seq(parse_error@, "missing field `action`"@)
            && contains_seq(body@, "\"type\":\"response.output_item.added\""@)
            && contains_seq(body@, "\"web_search_call\""@)),
{
    let e = str_to_chars(parse_error);
    if !contains_chars(&e, &str_to_chars("missing field `action`")) {
        return false;
    }
    let b = str_to_chars(body);
    contains_chars(&b, &str_to_chars("\"type\":\"response.output_item.added\""))
        && contains_chars(&b, &str_to_chars("\"web_search_call\""))
}

} // verus!
