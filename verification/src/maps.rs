//! The concurrent maps (`dashmap::DashMap`) the bot keeps its state in, keyed
//! by the ID of a server, channel or user, and what the library knows of
//! them: the entries each holds, and what `new`, `get`, `insert` and `remove`
//! do to them. The library owns each map and changes it only through `&mut`,
//! so the entries seen through `&` do not change under it.
use vstd::prelude::*;
use dashmap::DashMap;
use crate::voice_state::GuildVoiceConfig;
use crate::user_store::UserRecord;

verus! {

#[verifier::external_type_specification]
#[verifier::external_body]
#[verifier::reject_recursive_types(K)]
#[verifier::reject_recursive_types(V)]
#[verifier::reject_recursive_types(S)]
pub struct ExDashMap<K, V, S>(DashMap<K, V, S>);

/// The entries of a map of server configurations.
pub uninterp spec fn guild_config_entries(m: DashMap<u64, GuildVoiceConfig>) -> Map<u64, GuildVoiceConfig>;

/// The entries of a map of channel parallel counts.
pub uninterp spec fn parallel_count_entries(m: DashMap<u64, usize>) -> Map<u64, usize>;

/// The entries of a map of server error texts, each text by its characters.
pub uninterp spec fn error_text_entries(m: DashMap<u64, String>) -> Map<u64, Seq<char>>;

/// The entries of a map of channel reply numbers.
pub uninterp spec fn reply_id_entries(m: DashMap<u64, u64>) -> Map<u64, u64>;

/// The entries of a map of user settings.
pub uninterp spec fn user_record_entries(m: DashMap<u64, UserRecord>) -> Map<u64, UserRecord>;

/// `DashMap::new`: a map with no entries.
#[verifier::external_body]
pub(crate) fn new_guild_configs() -> (r: DashMap<u64, GuildVoiceConfig>)
    ensures
        guild_config_entries(r) =~= Map::empty(),
{
    DashMap::new()
}

/// `DashMap::get`: the value stored under `k`, copied out, or `None` when `k`
/// has no entry.
#[verifier::external_body]
pub(crate) fn get_guild_config(m: &DashMap<u64, GuildVoiceConfig>, k: u64) -> (r: Option<GuildVoiceConfig>)
    ensures
        match r {
            Some(v) => guild_config_entries(*m).contains_key(k) && guild_config_entries(*m)[k] == v,
            None => !guild_config_entries(*m).contains_key(k),
        },
{
    match m.get(&k) {
        Some(e) => Some(*e),
        None => None,
    }
}

/// `DashMap::insert`: the entry of `k` set to `v`, the others kept.
#[verifier::external_body]
pub(crate) fn insert_guild_config(m: &mut DashMap<u64, GuildVoiceConfig>, k: u64, v: GuildVoiceConfig)
    ensures
        guild_config_entries(*final(m)) == guild_config_entries(*old(m)).insert(k, v),
{
    m.insert(k, v);
}

/// `DashMap::new`: a map with no entries.
#[verifier::external_body]
pub(crate) fn new_parallel_counts() -> (r: DashMap<u64, usize>)
    ensures
        parallel_count_entries(r) =~= Map::empty(),
{
    DashMap::new()
}

/// `DashMap::get`: the value stored under `k`, copied out, or `None` when `k`
/// has no entry.
#[verifier::external_body]
pub(crate) fn get_parallel_count(m: &DashMap<u64, usize>, k: u64) -> (r: Option<usize>)
    ensures
        match r {
            Some(v) => parallel_count_entries(*m).contains_key(k) && parallel_count_entries(*m)[k] == v,
            None => !parallel_count_entries(*m).contains_key(k),
        },
{
    match m.get(&k) {
        Some(e) => Some(*e),
        None => None,
    }
}

/// `DashMap::insert`: the entry of `k` set to `v`, the others kept.
#[verifier::external_body]
pub(crate) fn insert_parallel_count(m: &mut DashMap<u64, usize>, k: u64, v: usize)
    ensures
        parallel_count_entries(*final(m)) == parallel_count_entries(*old(m)).insert(k, v),
{
    m.insert(k, v);
}

/// `DashMap::remove`: the entry of `k` gone, the others kept.
#[verifier::external_body]
pub(crate) fn remove_parallel_count(m: &mut DashMap<u64, usize>, k: u64)
    ensures
        parallel_count_entries(*final(m)) == parallel_count_entries(*old(m)).remove(k),
{
    m.remove(&k);
}

/// `DashMap::new`: a map with no entries.
#[verifier::external_body]
pub(crate) fn new_error_texts() -> (r: DashMap<u64, String>)
    ensures
        error_text_entries(r) =~= Map::empty(),
{
    DashMap::new()
}

/// `DashMap::get`: the text stored under `k`, cloned out, or `None` when `k`
/// has no entry.
#[verifier::external_body]
pub(crate) fn get_error_text(m: &DashMap<u64, String>, k: u64) -> (r: Option<String>)
    ensures
        match r {
            Some(v) => error_text_entries(*m).contains_key(k) && error_text_entries(*m)[k] == v@,
            None => !error_text_entries(*m).contains_key(k),
        },
{
    match m.get(&k) {
        Some(e) => Some(e.clone()),
        None => None,
    }
}

/// `DashMap::insert`: the entry of `k` set to `v`, the others kept.
#[verifier::external_body]
pub(crate) fn insert_error_text(m: &mut DashMap<u64, String>, k: u64, v: String)
    ensures
        error_text_entries(*final(m)) == error_text_entries(*old(m)).insert(k, v@),
{
    m.insert(k, v);
}

/// `DashMap::remove`: the entry of `k` gone, the others kept.
#[verifier::external_body]
pub(crate) fn remove_error_text(m: &mut DashMap<u64, String>, k: u64)
    ensures
        error_text_entries(*final(m)) == error_text_entries(*old(m)).remove(k),
{
    m.remove(&k);
}

/// `DashMap::new`: a map with no entries.
#[verifier::external_body]
pub(crate) fn new_reply_ids() -> (r: DashMap<u64, u64>)
    ensures
        reply_id_entries(r) =~= Map::empty(),
{
    DashMap::new()
}

/// `DashMap::get`: the value stored under `k`, copied out, or `None` when `k`
/// has no entry.
#[verifier::external_body]
pub(crate) fn get_reply_id(m: &DashMap<u64, u64>, k: u64) -> (r: Option<u64>)
    ensures
        match r {
            Some(v) => reply_id_entries(*m).contains_key(k) && reply_id_entries(*m)[k] == v,
            None => !reply_id_entries(*m).contains_key(k),
        },
{
    match m.get(&k) {
        Some(e) => Some(*e),
        None => None,
    }
}

/// `DashMap::insert`: the entry of `k` set to `v`, the others kept.
#[verifier::external_body]
pub(crate) fn insert_reply_id(m: &mut DashMap<u64, u64>, k: u64, v: u64)
    ensures
        reply_id_entries(*final(m)) == reply_id_entries(*old(m)).insert(k, v),
{
    m.insert(k, v);
}

/// `DashMap::remove`: the entry of `k` gone, the others kept.
#[verifier::external_body]
pub(crate) fn remove_reply_id(m: &mut DashMap<u64, u64>, k: u64)
    ensures
        reply_id_entries(*final(m)) == reply_id_entries(*old(m)).remove(k),
{
    m.remove(&k);
}

/// `DashMap::new`: a map with no entries.
#[verifier::external_body]
pub(crate) fn new_user_records() -> (r: DashMap<u64, UserRecord>)
    ensures
        user_record_entries(r) =~= Map::empty(),
{
    DashMap::new()
}

/// `DashMap::get`: the value stored under `k`, copied out, or `None` when `k`
/// has no entry.
#[verifier::external_body]
pub(crate) fn get_user_record(m: &DashMap<u64, UserRecord>, k: u64) -> (r: Option<UserRecord>)
    ensures
        match r {
            Some(v) => user_record_entries(*m).contains_key(k) && user_record_entries(*m)[k] == v,
            None => !user_record_entries(*m).contains_key(k),
        },
{
    match m.get(&k) {
        Some(e) => Some(*e),
        None => None,
    }
}

/// `DashMap::insert`: the entry of `k` set to `v`, the others kept.
#[verifier::external_body]
pub(crate) fn insert_user_record(m: &mut DashMap<u64, UserRecord>, k: u64, v: UserRecord)
    ensures
        user_record_entries(*final(m)) == user_record_entries(*old(m)).insert(k, v),
{
    m.insert(k, v);
}

} // verus!
