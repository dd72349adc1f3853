//! The per-user settings that the bot keeps: the model, the rate line and
//! the speaker of each user, when they are saved, and how a saved entry is
//! read back. The voice scales and pan (numbers with a fraction) are kept by
//! the caller beside them.
use vstd::prelude::*;
use dashmap::DashMap;
use crate::maps::{get_user_record, insert_user_record, new_user_records, user_record_entries};
use crate::config::{Models, model_from_name, model_name, lemma_model_name_roundtrip};
use crate::text::{parse_u64_str, parse_unsigned, decimal, u64_string, lemma_parse_decimal};
use crate::tool_args::{ToolArgs, ArgValue, ArgView, arg, arg_str, arg_u64, members_view};

verus! {

broadcast use vstd::std_specs::hash::group_hash_axioms;

/// The settings of a user.
#[derive(Debug, Clone, Copy, PartialEq, Eq, Structural)]
pub struct UserRecord {
    pub main_model: Models,
    /// The time (UNIX seconds) the user's replies are booked up to; 0 means
    /// unlimited.
    pub rate_line: u64,
    pub voice_speaker: Option<u32>,
}

/// The settings of a user who has none: the default model, rate line 1, no
/// speaker.
pub open spec fn default_record() -> UserRecord {
    UserRecord { main_model: Models::Gpt5dot4Mini, rate_line: 1, voice_speaker: None }
}

impl UserRecord {
    pub fn new() -> (r: UserRecord)
        ensures
            r == default_record(),
    {
        UserRecord { main_model: Models::default_model(), rate_line: 1, voice_speaker: None }
    }
}

/// Whether a user's settings are written to disk: not when everything is
/// as for a new user (a limited rate line counts as such).
pub open spec fn is_persisted(r: UserRecord, has_voice_scales: bool) -> bool {
    !(r.main_model == Models::Gpt5dot4Mini && r.rate_line != 0 && r.voice_speaker is None && !has_voice_scales)
}

pub fn should_persist(r: UserRecord, has_voice_scales: bool) -> (b: bool)
    ensures
        b == is_persisted(r, has_voice_scales),
{
    !(r.main_model == Models::Gpt5dot4Mini && r.rate_line != 0 && r.voice_speaker.is_none() && !has_voice_scales)
}

/// The settings of every user that has any.
pub struct UserStore {
    records: DashMap<u64, UserRecord>,
    /// The users, in the order their settings were first stored.
    order: Vec<u64>,
}

impl View for UserStore {
    type V = Map<u64, UserRecord>;

    closed spec fn view(&self) -> Map<u64, UserRecord> {
        user_record_entries(self.records)
    }
}

/// The settings of a user: the stored ones, or the default.
pub open spec fn record_of(m: Map<u64, UserRecord>, user: u64) -> UserRecord {
    if m.contains_key(user) {
        m[user]
    } else {
        default_record()
    }
}

impl UserStore {
    /// Every stored user is listed once in `order`, and no other.
    pub closed spec fn wf(&self) -> bool {
        &&& forall|k: u64| user_record_entries(self.records).contains_key(k) <==> self.order@.contains(k)
        &&& forall|i: int, j: int| 0 <= i < j < self.order@.len() ==> self.order@[i] != self.order@[j]
    }

    pub fn new() -> (r: Self)
        ensures
            r.wf(),
            r@ == Map::<u64, UserRecord>::empty(),
    {
        UserStore { records: new_user_records(), order: Vec::new() }
    }

    fn put(&mut self, user_id: u64, record: UserRecord)
        requires
            old(self).wf(),
        ensures
            final(self).wf(),
            final(self)@ == old(self)@.insert(user_id, record),
    {
        if get_user_record(&self.records, user_id).is_none() {
            assert(!self.order@.contains(user_id));
            let ghost before = self.order@;
            self.order.push(user_id);
            insert_user_record(&mut self.records, user_id, record);
            assert forall|k: u64| user_record_entries(self.records).contains_key(k) <==> self.order@.contains(k) by {
                if self.order@.contains(k) && k != user_id {
                    let i = choose|i: int| 0 <= i < self.order@.len() && self.order@[i] == k;
                    assert(before[i] == k);
                }
                if before.contains(k) {
                    let i = choose|i: int| 0 <= i < before.len() && before[i] == k;
                    assert(self.order@[i] == k);
                }
                if k == user_id {
                    assert(self.order@[before.len() as int] == k);
                }
            }
        } else {
            insert_user_record(&mut self.records, user_id, record);
        }
    }

    /// The settings of a user, stored as the default if there were none.
    pub fn get_or_create(&mut self, user_id: u64) -> (r: UserRecord)
        requires
            old(self).wf(),
        ensures
            final(self).wf(),
            r == record_of(old(self)@, user_id),
            final(self)@ == old(self)@.insert(user_id, r),
    {
        let r = match get_user_record(&self.records, user_id) {
            Some(v) => v,
            None => UserRecord::new(),
        };
        self.put(user_id, r);
        r
    }

    /// Stores a loaded user's settings.
    pub fn insert(&mut self, user_id: u64, record: UserRecord)
        requires
            old(self).wf(),
        ensures
            final(self).wf(),
            final(self)@ == old(self)@.insert(user_id, record),
    {
        self.put(user_id, record);
    }

    pub fn set_model(&mut self, user_id: u64, model: Models)
        requires
            old(self).wf(),
        ensures
            final(self).wf(),
            final(self)@ == old(self)@.insert(user_id, UserRecord { main_model: model, ..record_of(old(self)@, user_id) }),
    {
        let cur = self.get_or_create(user_id);
        self.put(user_id, UserRecord { main_model: model, ..cur });
    }

    /// Sets a user's rate line; returns whether the settings must be saved
    /// (when the line leaves or reaches "unlimited").
    pub fn set_rate_line(&mut self, user_id: u64, rate_line: u64) -> (save: bool)
        requires
            old(self).wf(),
        ensures
            final(self).wf(),
            final(self)@ == old(self)@.insert(user_id, UserRecord { rate_line, ..record_of(old(self)@, user_id) }),
            save == (record_of(old(self)@, user_id).rate_line == 0 || rate_line == 0),
    {
        let cur = self.get_or_create(user_id);
        self.put(user_id, UserRecord { rate_line, ..cur });
        cur.rate_line == 0 || rate_line == 0
    }

    pub fn set_voice_speaker(&mut self, user_id: u64, speaker: Option<u32>)
        requires
            old(self).wf(),
        ensures
            final(self).wf(),
            final(self)@ == old(self)@.insert(user_id, UserRecord { voice_speaker: speaker, ..record_of(old(self)@, user_id) }),
    {
        let cur = self.get_or_create(user_id);
        self.put(user_id, UserRecord { voice_speaker: speaker, ..cur });
    }

    /// The users and their settings, in the order they were first stored.
    pub fn entries(&self) -> (r: Vec<(u64, UserRecord)>)
        requires
            self.wf(),
        ensures
            forall|i: int| 0 <= i < r@.len() ==> self@.contains_key(#[trigger] r@[i].0) && self@[r@[i].0] == r@[i].1,
            forall|k: u64| self@.contains_key(k) ==> exists|i: int| 0 <= i < r@.len() && #[trigger] r@[i].0 == k,
            forall|i: int, j: int| 0 <= i < j < r@.len() ==> r@[i].0 != r@[j].0,
    {
        let mut out: Vec<(u64, UserRecord)> = Vec::new();
        let mut i: usize = 0;
        while i < self.order.len()
            invariant
                i <= self.order@.len(),
                forall|k: u64| user_record_entries(self.records).contains_key(k) <==> self.order@.contains(k),
                self.wf(),
                out@.len() == i,
                forall|j: int| 0 <= j < i ==> (#[trigger] out@[j]).0 == self.order@[j] && user_record_entries(self.records).contains_key(out@[j].0) && user_record_entries(self.records)[out@[j].0] == out@[j].1,
            decreases self.order@.len() - i,
        {
            let k = self.order[i];
            assert(self.order@.contains(k));
            let v = match get_user_record(&self.records, k) {
                Some(v) => v,
                None => UserRecord::new(),
            };
            out.push((k, v));
            i = i + 1;
        }
        assert forall|k: u64| self@.contains_key(k) implies exists|j: int| 0 <= j < out@.len() && #[trigger] out@[j].0 == k by {
            assert(self.order@.contains(k));
            let j = choose|j: int| 0 <= j < self.order@.len() && self.order@[j] == k;
            assert(out@[j].0 == k);
        }
        out
    }
}

/// A user ID or speaker of a saved entry: a number, or a decimal string.
pub open spec fn saved_u64(v: Option<ArgValue>) -> Option<u64> {
    match v {
        Some(ArgValue::Unsigned(n)) => Some(n),
        Some(ArgValue::Text(s)) => match parse_unsigned(s@, u64::MAX as nat) {
            Some(n) => Some(n as u64),
            None => None,
        },
        _ => None,
    }
}

fn saved_u64_of(v: Option<&ArgValue>) -> (r: Option<u64>)
    ensures
        r == saved_u64(
            match v {
                Some(x) => Some(*x),
                None => None,
            },
        ),
{
    match v {
        Some(ArgValue::Unsigned(n)) => Some(*n),
        Some(ArgValue::Text(s)) => match parse_u64_str(s.as_str()) {
            Ok(n) => Some(n),
            Err(_) => None,
        },
        _ => None,
    }
}

/// A saved entry read back: its user and settings, or `None` for an entry
/// without a usable user ID. A missing or unknown model is the default, a
/// missing rate line is 1, a speaker beyond `u32` is dropped.
pub open spec fn loaded_entry(a: ToolArgs) -> Option<(u64, UserRecord)> {
    match saved_u64(arg(a, "user_id"@)) {
        None => None,
        Some(uid) => Some(
            (
                uid,
                UserRecord {
                    main_model: match arg_str(a, "main_model"@) {
                        Some(s) => model_from_name(s),
                        None => Models::Gpt5dot4Mini,
                    },
                    rate_line: match arg_u64(a, "rate_line"@) {
                        Some(n) => n,
                        None => 1,
                    },
                    voice_speaker: match saved_u64(arg(a, "voice_speaker"@)) {
                        Some(n) => if n <= u32::MAX {
                            Some(n as u32)
                        } else {
                            None
                        },
                        None => None,
                    },
                },
            ),
        ),
    }
}

pub fn load_entry(entry: &ToolArgs) -> (r: Option<(u64, UserRecord)>)
    ensures
        r == loaded_entry(*entry),
{
    let uid = match saved_u64_of(entry.get("user_id")) {
        Some(u) => u,
        None => {
            return None;
        },
    };
    let main_model = match entry.get_str("main_model") {
        Some(s) => Models::from_name(s.as_str()),
        None => Models::default_model(),
    };
    let rate_line = match entry.get_u64("rate_line") {
        Some(n) => n,
        None => 1,
    };
    let voice_speaker = match saved_u64_of(entry.get("voice_speaker")) {
        Some(n) => if n <= 4294967295 {
            Some(n as u32)
        } else {
            None
        },
        None => None,
    };
    Some((uid, UserRecord { main_model, rate_line, voice_speaker }))
}

/// Setting the rate line then reading the user gives that line; the other
/// settings are those the user had.
pub proof fn lemma_rate_line_read_back(m: Map<u64, UserRecord>, user: u64, line: u64, other: u64)
    ensures
        record_of(m.insert(user, UserRecord { rate_line: line, ..record_of(m, user) }), user).rate_line == line,
        record_of(m.insert(user, UserRecord { rate_line: line, ..record_of(m, user) }), user).main_model == record_of(m, user).main_model,
        other != user ==> record_of(m.insert(user, UserRecord { rate_line: line, ..record_of(m, user) }), other) == record_of(m, other),
{
}

/// The members a user's settings are saved as: the user ID as decimal text,
/// the model's name, the rate line only when unlimited (0), and the speaker
/// when one is set. The caller adds the voice scales and pan.
pub open spec fn saved_members(uid: u64, r: UserRecord) -> Seq<(Seq<char>, ArgView)> {
    let base = seq![
        ("user_id"@, ArgView::Text(decimal(uid as nat))),
        ("main_model"@, ArgView::Text(model_name(r.main_model))),
    ];
    let with_rate = if r.rate_line == 0 {
        base.push(("rate_line"@, ArgView::Unsigned(0)))
    } else {
        base
    };
    match r.voice_speaker {
        Some(s) => with_rate.push(("voice_speaker"@, ArgView::Unsigned(s as u64))),
        None => with_rate,
    }
}

/// The saved entry of a user.
pub fn saved_entry(user_id: u64, record: UserRecord) -> (r: ToolArgs)
    ensures
        members_view(r.entries@) == saved_members(user_id, record),
{
    let mut entries: Vec<(String, ArgValue)> = Vec::new();
    entries.push((String::from_str("user_id"), ArgValue::Text(u64_string(user_id))));
    entries.push((String::from_str("main_model"), ArgValue::Text(record.main_model.name())));
    if record.rate_line == 0 {
        entries.push((String::from_str("rate_line"), ArgValue::Unsigned(0)));
    }
    match record.voice_speaker {
        Some(s) => entries.push((String::from_str("voice_speaker"), ArgValue::Unsigned(s as u64))),
        None => {},
    }
    let r = ToolArgs { entries };
    assert(members_view(r.entries@) =~= saved_members(user_id, record));
    r
}

/// Law: a saved user reads back with its model and speaker; an unlimited
/// rate line stays unlimited and any other starts again at 1.
pub proof fn lemma_saved_entry_loads(a: ToolArgs, uid: u64, r: UserRecord)
    requires
        members_view(a.entries@) == saved_members(uid, r),
    ensures
        loaded_entry(a) == Some((uid, UserRecord { rate_line: if r.rate_line == 0 { 0 } else { 1 }, ..r })),
{
    reveal_strlit("user_id");
    reveal_strlit("main_model");
    reveal_strlit("rate_line");
    reveal_strlit("voice_speaker");
    let e = a.entries@;
    let m = saved_members(uid, r);
    let base = seq![
        ("user_id"@, ArgView::Text(decimal(uid as nat))),
        ("main_model"@, ArgView::Text(model_name(r.main_model))),
    ];
    let with_rate = if r.rate_line == 0 {
        base.push(("rate_line"@, ArgView::Unsigned(0)))
    } else {
        base
    };
    assert(m[0] == base[0] && m[1] == base[1]);
    assert(members_view(e).len() == e.len());
    assert(members_view(e)[0] == m[0]);
    assert(members_view(e)[1] == m[1]);
    assert(members_view(e)[0] == (e[0].0@, crate::tool_args::arg_view(e[0].1)));
    assert(members_view(e)[1] == (e[1].0@, crate::tool_args::arg_view(e[1].1)));
    if m.len() > 2 {
        assert(members_view(e)[2] == m[2]);
        assert(members_view(e)[2] == (e[2].0@, crate::tool_args::arg_view(e[2].1)));
    }
    if m.len() > 3 {
        assert(members_view(e)[3] == m[3]);
        assert(members_view(e)[3] == (e[3].0@, crate::tool_args::arg_view(e[3].1)));
    }
    lemma_parse_decimal(uid as nat);
    lemma_model_name_roundtrip(r.main_model);
    assert(e[0].0@ == "user_id"@);
    assert(e[1].0@ == "main_model"@);
    assert("user_id"@.len() == 7 && "main_model"@.len() == 10 && "rate_line"@.len() == 9
        && "voice_speaker"@.len() == 13);
    assert(e.len() == m.len());
    assert(arg(a, "user_id"@) == Some(e[0].1));
    assert forall|j: int| 0 <= j < 1 implies e[j].0@ != "main_model"@ by {
        assert(j == 0);
    }
    crate::tool_args::lemma_lookup_skip(e, "main_model"@, 1);
    assert(e.subrange(1, e.len() as int)[0] == e[1]);
    assert(arg(a, "main_model"@) == Some(e[1].1));
    if r.rate_line == 0 {
        assert(e[2].0@ == "rate_line"@);
        assert forall|j: int| 0 <= j < 2 implies e[j].0@ != "rate_line"@ by {
            if j == 0 {
            } else {
                assert(j == 1);
            }
        }
        crate::tool_args::lemma_lookup_skip(e, "rate_line"@, 2);
        assert(e.subrange(2, e.len() as int)[0] == e[2]);
        assert(arg(a, "rate_line"@) == Some(e[2].1));
    } else {
        if e.len() > 2 {
            assert(e[2].0@ == "voice_speaker"@);
        }
        assert forall|j: int| 0 <= j < e.len() implies e[j].0@ != "rate_line"@ by {
            if j == 0 {
            } else if j == 1 {
            } else {
                assert(j == 2);
            }
        }
        crate::tool_args::lemma_lookup_none(e, "rate_line"@);
        assert(arg(a, "rate_line"@) is None);
    }
    match r.voice_speaker {
        Some(s) => {
            let k = if r.rate_line == 0 { 3int } else { 2int };
            assert(e[k].0@ == "voice_speaker"@);
            if r.rate_line == 0 {
                assert(e[2].0@ == "rate_line"@);
            }
            assert forall|j: int| 0 <= j < k implies e[j].0@ != "voice_speaker"@ by {
                if j == 0 {
                } else if j == 1 {
                } else {
                    assert(j == 2);
                }
            }
            crate::tool_args::lemma_lookup_skip(e, "voice_speaker"@, k);
            assert(e.subrange(k, e.len() as int)[0] == e[k]);
            assert(arg(a, "voice_speaker"@) == Some(e[k].1));
        },
        None => {
            if r.rate_line == 0 {
                assert(e[2].0@ == "rate_line"@);
            }
            assert forall|j: int| 0 <= j < e.len() implies e[j].0@ != "voice_speaker"@ by {
                if j == 0 {
                } else if j == 1 {
                } else {
                    assert(j == 2);
                }
            }
            crate::tool_args::lemma_lookup_none(e, "voice_speaker"@);
            assert(arg(a, "voice_speaker"@) is None);
        },
    }
}

} // verus!
