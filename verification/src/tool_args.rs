//! The arguments a language-model tool is called with: the top-level members
//! of a JSON object, each reduced to what the tools read of it.
use vstd::prelude::*;
use crate::text::{
    push_str, str_eq, parse_u64_str, parse_unsigned, parse_error_kind, int_error_message,
};

verus! {

/// A member value, as the tools read it: JSON `null`, a boolean, a number
/// that fits in `u64`, any other number, a string, an array (its elements
/// as argument objects; one that is not an object has no members) where a
/// tool reads a list, or any other array or object.
pub enum ArgValue {
    Null,
    Bool(bool),
    Unsigned(u64),
    OtherNumber,
    Text(String),
    List(Vec<ToolArgs>),
    Composite,
}

/// The value of a member, with its text as characters.
pub enum ArgView {
    Null,
    Bool(bool),
    Unsigned(u64),
    OtherNumber,
    Text(Seq<char>),
    List(Seq<ToolArgs>),
    Composite,
}

pub open spec fn arg_view(v: ArgValue) -> ArgView {
    match v {
        ArgValue::Null => ArgView::Null,
        ArgValue::Bool(b) => ArgView::Bool(b),
        ArgValue::Unsigned(n) => ArgView::Unsigned(n),
        ArgValue::OtherNumber => ArgView::OtherNumber,
        ArgValue::Text(s) => ArgView::Text(s@),
        ArgValue::List(items) => ArgView::List(items@),
        ArgValue::Composite => ArgView::Composite,
    }
}

pub open spec fn members_view(e: Seq<(String, ArgValue)>) -> Seq<(Seq<char>, ArgView)> {
    e.map_values(|m: (String, ArgValue)| (m.0@, arg_view(m.1)))
}

/// The members of the JSON object a text holds, as `serde_json` reads it
/// (none when the text is not a JSON object); arrays and objects inside it
/// are `Composite`.
pub uninterp spec fn json_object_members(text: Seq<char>) -> Seq<(Seq<char>, ArgView)>;

/// `serde_json::from_str::<Value>`, keeping the members of an object, each
/// by its kind (`as_u64` for numbers).
#[verifier::external_body]
fn parse_json_members(text: &str) -> (r: Vec<(String, ArgValue)>)
    ensures
        members_view(r@) == json_object_members(text@),
{
    let mut out = Vec::new();
    if let Ok(serde_json::Value::Object(map)) = serde_json::from_str::<serde_json::Value>(text) {
        for (k, v) in map {
            out.push((k, match v {
                serde_json::Value::Null => ArgValue::Null,
                serde_json::Value::Bool(b) => ArgValue::Bool(b),
                serde_json::Value::Number(n) => n.as_u64().map_or(ArgValue::OtherNumber, ArgValue::Unsigned),
                serde_json::Value::String(s) => ArgValue::Text(s),
                _ => ArgValue::Composite,
            }));
        }
    }
    out
}

/// The members of the argument object, in order. A call whose arguments are
/// not an object has no members.
pub struct ToolArgs {
    pub entries: Vec<(String, ArgValue)>,
}

/// `args.get(key).and_then(as_array)`, read as argument objects.
pub open spec fn arg_list(a: ToolArgs, key: Seq<char>) -> Option<Seq<ToolArgs>> {
    match arg(a, key) {
        Some(ArgValue::List(items)) => Some(items@),
        _ => None,
    }
}

/// The value of the first member named `key`.
pub open spec fn lookup(e: Seq<(String, ArgValue)>, key: Seq<char>) -> Option<ArgValue>
    decreases e.len(),
{
    if e.len() == 0 {
        None
    } else if e[0].0@ == key {
        Some(e[0].1)
    } else {
        lookup(e.drop_first(), key)
    }
}

/// `args.get(key)`.
pub open spec fn arg(a: ToolArgs, key: Seq<char>) -> Option<ArgValue> {
    lookup(a.entries@, key)
}

/// `args.get(key).and_then(as_str)`.
pub open spec fn arg_str(a: ToolArgs, key: Seq<char>) -> Option<Seq<char>> {
    match arg(a, key) {
        Some(ArgValue::Text(s)) => Some(s@),
        _ => None,
    }
}

/// `args.get(key).and_then(as_bool)`.
pub open spec fn arg_bool(a: ToolArgs, key: Seq<char>) -> Option<bool> {
    match arg(a, key) {
        Some(ArgValue::Bool(b)) => Some(b),
        _ => None,
    }
}

/// `args.get(key).and_then(as_u64)`.
pub open spec fn arg_u64(a: ToolArgs, key: Seq<char>) -> Option<u64> {
    match arg(a, key) {
        Some(ArgValue::Unsigned(n)) => Some(n),
        _ => None,
    }
}

/// "Missing or invalid '{key}' parameter".
pub open spec fn missing_message(key: Seq<char>) -> Seq<char> {
    "Missing or invalid '"@ + key + "' parameter"@
}

/// "Invalid '{key}': {error}".
pub open spec fn invalid_message(key: Seq<char>, err: Seq<char>) -> Seq<char> {
    "Invalid '"@ + key + "': "@ + err
}

pub(crate) proof fn lemma_lookup_skip(e: Seq<(String, ArgValue)>, key: Seq<char>, i: int)
    requires
        0 <= i < e.len(),
        forall|j: int| 0 <= j < i ==> e[j].0@ != key,
    ensures
        lookup(e, key) == lookup(e.subrange(i, e.len() as int), key),
    decreases i,
{
    if i > 0 {
        lemma_lookup_skip(e.drop_first(), key, i - 1);
        assert(e.drop_first().subrange(i - 1, e.drop_first().len() as int) =~= e.subrange(
            i,
            e.len() as int,
        ));
    } else {
        assert(e.subrange(0, e.len() as int) =~= e);
    }
}

pub(crate) proof fn lemma_lookup_none(e: Seq<(String, ArgValue)>, key: Seq<char>)
    requires
        forall|j: int| 0 <= j < e.len() ==> e[j].0@ != key,
    ensures
        lookup(e, key) is None,
    decreases e.len(),
{
    if e.len() > 0 {
        lemma_lookup_none(e.drop_first(), key);
    }
}

impl ToolArgs {
    /// The arguments a tool call's JSON text holds; a text that is not a
    /// JSON object gives none.
    pub fn from_json(text: &str) -> (r: ToolArgs)
        ensures
            members_view(r.entries@) == json_object_members(text@),
    {
        ToolArgs { entries: parse_json_members(text) }
    }

    /// The position of the first member named `key`.
    pub fn find(&self, key: &str) -> (r: Option<usize>)
        ensures
            match r {
                Some(i) => i < self.entries@.len() && arg(*self, key@) == Some(self.entries@[i as int].1),
                None => arg(*self, key@) is None,
            },
    {
        let mut i: usize = 0;
        while i < self.entries.len()
            invariant
                i <= self.entries@.len(),
                forall|j: int| 0 <= j < i ==> self.entries@[j].0@ != key@,
            decreases self.entries@.len() - i,
        {
            if str_eq(self.entries[i].0.as_str(), key) {
                proof {
                    lemma_lookup_skip(self.entries@, key@, i as int);
                }
                return Some(i);
            }
            i = i + 1;
        }
        proof {
            lemma_lookup_none(self.entries@, key@);
        }
        None
    }

    /// `args.get(key)`.
    pub fn get(&self, key: &str) -> (r: Option<&ArgValue>)
        ensures
            match r {
                Some(v) => arg(*self, key@) == Some(*v),
                None => arg(*self, key@) is None,
            },
    {
        match self.find(key) {
            Some(i) => Some(&self.entries[i].1),
            None => None,
        }
    }

    /// Whether a member named `key` is present.
    pub fn has(&self, key: &str) -> (r: bool)
        ensures
            r == arg(*self, key@) is Some,
    {
        self.find(key).is_some()
    }

    /// `args.get(key).and_then(as_str)`.
    pub fn get_str(&self, key: &str) -> (r: Option<String>)
        ensures
            match r {
                Some(s) => arg_str(*self, key@) == Some(s@),
                None => arg_str(*self, key@) is None,
            },
    {
        match self.get(key) {
            Some(ArgValue::Text(s)) => Some(s.clone()),
            _ => None,
        }
    }

    /// `args.get(key).and_then(as_bool)`.
    pub fn get_bool(&self, key: &str) -> (r: Option<bool>)
        ensures
            r == arg_bool(*self, key@),
    {
        match self.get(key) {
            Some(ArgValue::Bool(b)) => Some(*b),
            _ => None,
        }
    }

    /// `args.get(key).and_then(as_u64)`.
    pub fn get_u64(&self, key: &str) -> (r: Option<u64>)
        ensures
            r == arg_u64(*self, key@),
    {
        match self.get(key) {
            Some(ArgValue::Unsigned(n)) => Some(*n),
            _ => None,
        }
    }
}

/// "Missing or invalid '{key}' parameter".
pub fn missing_param(key: &str) -> (r: String)
    ensures
        r@ == missing_message(key@),
{
    let mut s = String::new();
    push_str(&mut s, "Missing or invalid '");
    push_str(&mut s, key);
    push_str(&mut s, "' parameter");
    s
}

/// "Invalid '{key}': {error}".
pub fn invalid_param(key: &str, err: &str) -> (r: String)
    ensures
        r@ == invalid_message(key@, err@),
{
    let mut s = String::new();
    push_str(&mut s, "Invalid '");
    push_str(&mut s, key);
    push_str(&mut s, "': ");
    push_str(&mut s, err);
    s
}

/// A decimal ID, or the message naming the parameter and the parse error.
pub open spec fn id_result(raw: Seq<char>, key: Seq<char>) -> Result<u64, Seq<char>> {
    match parse_unsigned(raw, u64::MAX as nat) {
        Some(v) => Ok(v as u64),
        None => Err(invalid_message(key, int_error_message(parse_error_kind(raw)))),
    }
}

/// Parses a decimal ID: "Invalid '{key}': {error}" when it is not a `u64`.
pub fn parse_id_str(raw: &str, key: &str) -> (r: Result<u64, String>)
    ensures
        match r {
            Ok(v) => id_result(raw@, key@) == Ok::<u64, Seq<char>>(v),
            Err(e) => id_result(raw@, key@) == Err::<u64, Seq<char>>(e@),
        },
{
    match parse_u64_str(raw) {
        Ok(v) => Ok(v),
        Err(e) => {
            let m = e.message();
            Err(invalid_param(key, m.as_str()))
        },
    }
}

} // verus!
