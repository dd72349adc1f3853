//! What the slash commands decide and say: labels, autocomplete candidates,
//! rate settings, speaker selection and the texts of the VC embeds.
use vstd::prelude::*;
use crate::text::{
    push_str, str_to_chars, u64_string, decimal, lowercase_str, unicode_lowercase, contains_seq,
    starts_with_seq, contains_chars, starts_with_chars, take_at_most, trim, trim_str, strs_view,
    dedup, parse_unsigned, parse_u64_str, ascii_lower, to_ascii_lower,
};
use crate::voicevox_tool::{
    sort_names, sort_strings, VOICE_PARALLEL_COUNT_DEFAULT, VOICE_PARALLEL_COUNT_MAX,
};
use crate::config::{Models, model_name};
use crate::catalog::{
    VoiceStyleEntry, StyleEntry, catalog, catalog_speaker_names, speaker_names, styles_for_speaker,
    find_style_id, entry_matches, style_names_of, name_key, speaker_name_for_id, style_name_for_id,
    first_with_id,
};
use crate::dict::{apply_tts_dictionary, apply_dictionary, entries_view};
use crate::tts::{preview, preview_text};

verus! {

/// "有効" or "無効".
pub open spec fn enabled_label(value: bool) -> Seq<char> {
    if value {
        "有効"@
    } else {
        "無効"@
    }
}

pub fn bool_enabled_label(value: bool) -> (r: &'static str)
    ensures
        r@ == enabled_label(value),
{
    if value {
        "有効"
    } else {
        "無効"
    }
}

/// The reading mode shown by `/vc_config`.
pub open spec fn vc_mode_label(parallel_count: nat, sequential_capacity: nat) -> Seq<char> {
    if parallel_count > 1 {
        "parallel(count="@ + decimal(parallel_count) + ")"@
    } else {
        "sequential(queue <= "@ + decimal(sequential_capacity) + ")"@
    }
}

pub fn build_vc_mode_label(parallel_count: usize, sequential_capacity: usize) -> (r: String)
    ensures
        r@ == vc_mode_label(parallel_count as nat, sequential_capacity as nat),
{
    let mut s = String::new();
    if parallel_count > 1 {
        push_str(&mut s, "parallel(count=");
        let n = u64_string(parallel_count as u64);
        push_str(&mut s, n.as_str());
        push_str(&mut s, ")");
    } else {
        push_str(&mut s, "sequential(queue <= ");
        let n = u64_string(sequential_capacity as u64);
        push_str(&mut s, n.as_str());
        push_str(&mut s, ")");
    }
    s
}

/// How a read parallel count is spoken.
pub open spec fn mode_label(parallel_count: nat) -> Seq<char> {
    if parallel_count > 1 {
        "並列 "@ + decimal(parallel_count)
    } else {
        "逐次"@
    }
}

pub fn read_mode_label(parallel_count: usize) -> (r: String)
    ensures
        r@ == mode_label(parallel_count as nat),
{
    if parallel_count > 1 {
        let mut s = String::from_str("並列 ");
        let n = u64_string(parallel_count as u64);
        push_str(&mut s, n.as_str());
        s
    } else {
        String::from_str("逐次")
    }
}

/// What `/vc_config` reads aloud.
pub open spec fn vc_config_voice_message(is_updating: bool, system_read: bool, auto_read: bool, parallel_count: nat) -> Seq<char> {
    (if is_updating {
        "VC設定を更新しました。"@
    } else {
        "現在のVC設定です。"@
    }) + "システム読み上げは"@ + enabled_label(system_read) + "。自動読み上げは"@ + enabled_label(auto_read)
        + "。読み上げモードは"@ + mode_label(parallel_count) + "です。"@
}

pub fn build_vc_config_voice_message(
    is_updating: bool,
    system_read: bool,
    auto_read: bool,
    parallel_count: usize,
) -> (r: String)
    ensures
        r@ == vc_config_voice_message(is_updating, system_read, auto_read, parallel_count as nat),
{
    let mut s = String::new();
    push_str(
        &mut s,
        if is_updating {
            "VC設定を更新しました。"
        } else {
            "現在のVC設定です。"
        },
    );
    push_str(&mut s, "システム読み上げは");
    push_str(&mut s, bool_enabled_label(system_read));
    push_str(&mut s, "。自動読み上げは");
    push_str(&mut s, bool_enabled_label(auto_read));
    push_str(&mut s, "。読み上げモードは");
    let m = read_mode_label(parallel_count);
    push_str(&mut s, m.as_str());
    push_str(&mut s, "です。");
    s
}

/// A sorted sequence without its repeated neighbours (`Vec::dedup`).
pub open spec fn dedup_adjacent(s: Seq<Seq<char>>) -> Seq<Seq<char>>
    decreases s.len(),
{
    if s.len() == 0 {
        s
    } else {
        let d = dedup_adjacent(s.drop_last());
        if d.len() > 0 && d.last() == s.last() {
            d
        } else {
            d.push(s.last())
        }
    }
}

/// Candidates sorted, without duplicates, cut to `max`.
pub open spec fn sorted_candidates(s: Seq<Seq<char>>, max: nat) -> Seq<Seq<char>> {
    take_at_most(dedup_adjacent(sort_names(s)), max)
}

/// Sorts candidates, drops duplicates and keeps the first `max`.
pub fn sorted_unique(cands: &Vec<String>, max: usize) -> (r: Vec<String>)
    ensures
        strs_view(r@) == sorted_candidates(strs_view(cands@), max as nat),
{
    let sorted = sort_strings(cands);
    let mut d: Vec<String> = Vec::new();
    let mut i: usize = 0;
    while i < sorted.len()
        invariant
            i <= sorted@.len(),
            strs_view(d@) == dedup_adjacent(strs_view(sorted@).subrange(0, i as int)),
        decreases sorted@.len() - i,
    {
        let ghost pre = strs_view(sorted@).subrange(0, i as int);
        let ghost cur = strs_view(sorted@).subrange(0, i + 1);
        assert(cur.drop_last() =~= pre);
        let repeated = d.len() > 0 && d[d.len() - 1] == sorted[i];
        if !repeated {
            d.push(sorted[i].clone());
        }
        assert(strs_view(d@) =~= dedup_adjacent(cur));
        i = i + 1;
    }
    assert(strs_view(sorted@).subrange(0, sorted@.len() as int) =~= strs_view(sorted@));
    let mut out: Vec<String> = Vec::new();
    let mut k: usize = 0;
    while k < d.len() && k < max
        invariant
            k <= d@.len(),
            k <= max,
            strs_view(out@) == strs_view(d@).subrange(0, k as int),
        decreases d@.len() - k,
    {
        let ghost before = out@;
        let x = d[k].clone();
        out.push(x);
        assert(out@ == before.push(x));
        assert(strs_view(out@) =~= strs_view(before).push(d@[k as int]@));
        k = k + 1;
        assert(strs_view(out@) =~= strs_view(d@).subrange(0, k as int));
    }
    proof {
        if d@.len() <= max {
            assert(strs_view(d@).subrange(0, k as int) =~= strs_view(d@));
        } else {
            assert(strs_view(d@).subrange(0, k as int) =~= strs_view(d@).take(max as int));
        }
    }
    out
}

/// The values `/rate_config` suggests.
pub open spec fn rate_limit_candidates() -> Seq<Seq<char>> {
    seq![
        "unlimit"@,
        "reset"@,
        "1"@,
        "2"@,
        "3"@,
        "5"@,
        "10"@,
        "30"@,
        "60"@,
        "120"@,
        "300"@,
        "600"@,
        "1800"@,
        "3600"@,
    ]
}

fn rate_limit_candidate_list() -> (r: Vec<&'static str>)
    ensures
        r@.map_values(|s: &str| s@) == rate_limit_candidates(),
{
    let r = vec![
        "unlimit",
        "reset",
        "1",
        "2",
        "3",
        "5",
        "10",
        "30",
        "60",
        "120",
        "300",
        "600",
        "1800",
        "3600",
    ];
    assert(r@.map_values(|s: &str| s@) =~= rate_limit_candidates());
    r
}

/// The candidates kept by a prefix test on lowercased text.
pub open spec fn prefixed_lower(s: Seq<Seq<char>>, p: Seq<char>) -> Seq<Seq<char>>
    decreases s.len(),
{
    if s.len() == 0 {
        s
    } else {
        let rest = prefixed_lower(s.drop_last(), p);
        if starts_with_seq(unicode_lowercase(s.last()), unicode_lowercase(p)) {
            rest.push(s.last())
        } else {
            rest
        }
    }
}

/// Autocomplete of `/rate_config`'s `limit`.
pub fn autocomplete_rate_limit(partial: &str) -> (r: Vec<String>)
    ensures
        strs_view(r@) == sorted_candidates(prefixed_lower(rate_limit_candidates(), partial@), 20),
{
    let base = rate_limit_candidate_list();
    let p = lowercase_str(partial);
    let pv = str_to_chars(p.as_str());
    let mut kept: Vec<String> = Vec::new();
    let mut i: usize = 0;
    while i < base.len()
        invariant
            i <= base@.len(),
            base@.map_values(|s: &str| s@) == rate_limit_candidates(),
            pv@ == unicode_lowercase(partial@),
            strs_view(kept@) == prefixed_lower(rate_limit_candidates().subrange(0, i as int), partial@),
        decreases base@.len() - i,
    {
        let ghost pre = rate_limit_candidates().subrange(0, i as int);
        let ghost cur = rate_limit_candidates().subrange(0, i + 1);
        assert(cur.drop_last() =~= pre);
        assert(cur.last() == base@[i as int]@);
        let lower = lowercase_str(base[i]);
        let lv = str_to_chars(lower.as_str());
        if starts_with_chars(&lv, &pv) {
            kept.push(String::from_str(base[i]));
        }
        assert(strs_view(kept@) =~= prefixed_lower(cur, partial@));
        i = i + 1;
    }
    assert(rate_limit_candidates().subrange(0, base@.len() as int) =~= rate_limit_candidates());
    sorted_unique(&kept, 20)
}

/// The model names that start with the typed text, in list order.
pub open spec fn model_names_starting(ms: Seq<Models>, p: Seq<char>) -> Seq<Seq<char>>
    decreases ms.len(),
{
    if ms.len() == 0 {
        Seq::empty()
    } else {
        let rest = model_names_starting(ms.drop_last(), p);
        if starts_with_seq(model_name(ms.last()), p) {
            rest.push(model_name(ms.last()))
        } else {
            rest
        }
    }
}

/// Autocomplete of `/model set`.
pub fn autocomplete_model_name(partial: &str) -> (r: Vec<String>)
    ensures
        strs_view(r@) == model_names_starting(crate::config::model_list(), partial@),
{
    let models = Models::list();
    let pv = str_to_chars(partial);
    let mut out: Vec<String> = Vec::new();
    let mut i: usize = 0;
    while i < models.len()
        invariant
            i <= models@.len(),
            models@ == crate::config::model_list(),
            pv@ == partial@,
            strs_view(out@) == model_names_starting(models@.subrange(0, i as int), partial@),
        decreases models@.len() - i,
    {
        assert(models@.subrange(0, i + 1).drop_last() =~= models@.subrange(0, i as int));
        let name = models[i].name();
        let nv = str_to_chars(name.as_str());
        if starts_with_chars(&nv, &pv) {
            out.push(name);
        }
        assert(strs_view(out@) =~= model_names_starting(models@.subrange(0, i + 1), partial@));
        i = i + 1;
    }
    assert(models@.subrange(0, models@.len() as int) =~= models@);
    out
}

/// The value of a `limit` for `/rate_config`: "unlimit" (0), "reset" (1), or
/// a cost added to the user's line; `None` when it is neither.
pub open spec fn rate_line_for(limit: Seq<char>, current_line: nat, sec_per_cost: nat) -> Option<nat> {
    if eq_ignore_ascii_case(limit, "unlimit"@) {
        Some(0)
    } else if eq_ignore_ascii_case(limit, "reset"@) {
        Some(1)
    } else {
        match parse_unsigned(limit, u64::MAX as nat) {
            Some(cost) => Some(current_line + cost * sec_per_cost),
            None => None,
        }
    }
}

/// `str::eq_ignore_ascii_case`.
pub open spec fn eq_ignore_ascii_case(a: Seq<char>, b: Seq<char>) -> bool {
    a.len() == b.len() && forall|i: int| 0 <= i < a.len() ==> ascii_lower(a[i]) == ascii_lower(b[i])
}

fn eq_ignore_case(a: &str, b: &str) -> (r: bool)
    ensures
        r == eq_ignore_ascii_case(a@, b@),
{
    let av = str_to_chars(a);
    let bv = str_to_chars(b);
    if av.len() != bv.len() {
        return false;
    }
    let mut i: usize = 0;
    while i < av.len()
        invariant
            i <= av@.len(),
            av@.len() == bv@.len(),
            av@ == a@,
            bv@ == b@,
            forall|j: int| 0 <= j < i ==> ascii_lower(av@[j]) == ascii_lower(bv@[j]),
        decreases av@.len() - i,
    {
        if to_ascii_lower(av[i]) != to_ascii_lower(bv[i]) {
            return false;
        }
        i = i + 1;
    }
    true
}

/// The rate line `/rate_config` sets, or `None` for an unusable `limit`.
pub fn rate_line_from_limit(limit: &str, current_line: u64, sec_per_cost: u64) -> (r: Option<u64>)
    requires
        parse_unsigned(limit@, u64::MAX as nat) matches Some(cost) ==> current_line + cost
            * sec_per_cost <= u64::MAX,
    ensures
        match r {
            Some(v) => rate_line_for(limit@, current_line as nat, sec_per_cost as nat) == Some(v as nat),
            None => rate_line_for(limit@, current_line as nat, sec_per_cost as nat) is None,
        },
{
    if eq_ignore_case(limit, "unlimit") {
        Some(0)
    } else if eq_ignore_case(limit, "reset") {
        Some(1)
    } else {
        match parse_u64_str(limit) {
            Ok(cost) => {
                assert(cost * sec_per_cost <= u64::MAX - current_line);
                Some(current_line + cost * sec_per_cost)
            },
            Err(_) => None,
        }
    }
}

/// Whether the caller is one of the administrators.
pub fn is_admin(admin_users: &Vec<u64>, caller: u64) -> (r: bool)
    ensures
        r == admin_users@.contains(caller),
{
    let mut i: usize = 0;
    while i < admin_users.len()
        invariant
            i <= admin_users@.len(),
            forall|j: int| 0 <= j < i ==> admin_users@[j] != caller,
        decreases admin_users@.len() - i,
    {
        if admin_users[i] == caller {
            assert(admin_users@[i as int] == caller);
            return true;
        }
        i = i + 1;
    }
    false
}

/// The reply of `/rate_config` once the line is set.
pub open spec fn rate_config_reply(display_name: Seq<char>, line: nat) -> Seq<char> {
    if line == 0 {
        "info: ユーザー `"@ + display_name + "` のレート制限を **unlimit** に設定しました。"@
    } else {
        "info: ユーザー `"@ + display_name + "` の rate_line を **"@ + decimal(line) + "** に設定しました。"@
    }
}

pub fn build_rate_config_reply(display_name: &str, line: u64) -> (r: String)
    ensures
        r@ == rate_config_reply(display_name@, line as nat),
{
    let mut s = String::from_str("info: ユーザー `");
    push_str(&mut s, display_name);
    if line == 0 {
        push_str(&mut s, "` のレート制限を **unlimit** に設定しました。");
    } else {
        push_str(&mut s, "` の rate_line を **");
        let n = u64_string(line);
        push_str(&mut s, n.as_str());
        push_str(&mut s, "** に設定しました。");
    }
    s
}

/// Strings joined with a separator.
pub open spec fn join_with(parts: Seq<Seq<char>>, sep: Seq<char>) -> Seq<char>
    decreases parts.len(),
{
    if parts.len() == 0 {
        Seq::empty()
    } else if parts.len() == 1 {
        parts[0]
    } else {
        join_with(parts.drop_last(), sep) + sep + parts.last()
    }
}

pub fn join_strings(parts: &Vec<String>, sep: &str) -> (r: String)
    ensures
        r@ == join_with(strs_view(parts@), sep@),
{
    let mut s = String::new();
    let mut i: usize = 0;
    while i < parts.len()
        invariant
            i <= parts@.len(),
            s@ == join_with(strs_view(parts@).subrange(0, i as int), sep@),
        decreases parts@.len() - i,
    {
        let ghost cur = strs_view(parts@).subrange(0, i + 1);
        assert(cur.drop_last() =~= strs_view(parts@).subrange(0, i as int));
        if i > 0 {
            push_str(&mut s, sep);
        }
        push_str(&mut s, parts[i].as_str());
        i = i + 1;
    }
    assert(strs_view(parts@).subrange(0, parts@.len() as int) =~= strs_view(parts@));
    s
}

/// The error `/vc_speaker` answers for a speaker without the style.
pub open spec fn speaker_error(speaker: Seq<char>, style: Seq<char>) -> Seq<char> {
    let styles = dedup(style_names_of(catalog(), name_key(speaker)));
    if styles.len() == 0 {
        "話者 '"@ + speaker + "' は見つかりません。候補（先頭20件）: "@ + join_with(
            take_at_most(catalog_speaker_names(), 20),
            ", "@,
        )
    } else {
        "話者 '"@ + speaker + "' にスタイル '"@ + style + "' はありません。候補: "@ + join_with(
            styles,
            ", "@,
        )
    }
}

/// `/vc_speaker`: the style ID of the speaker's style, or the error listing
/// what can be chosen.
pub fn select_speaker_style(speaker: &str, style: &str) -> (r: Result<u32, String>)
    ensures
        match r {
            Ok(id) => exists|i: int|
                0 <= i < catalog().len() && entry_matches(i, speaker@, style@) && catalog()[i].style_id
                    == id && forall|j: int| 0 <= j < i ==> !entry_matches(j, speaker@, style@),
            Err(e) => (forall|i: int|
                0 <= i < catalog().len() ==> !entry_matches(i, speaker@, style@)) && e@ == speaker_error(
                speaker@,
                style@,
            ),
        },
{
    match find_style_id(speaker, style) {
        Some(id) => Ok(id),
        None => {
            let styles = styles_for_speaker(speaker);
            let mut s = String::from_str("話者 '");
            push_str(&mut s, speaker);
            if styles.len() == 0 {
                let names = speaker_names();
                let mut first: Vec<String> = Vec::new();
                let mut k: usize = 0;
                while k < names.len() && k < 20
                    invariant
                        k <= names@.len(),
                        k <= 20,
                        strs_view(names@) == catalog_speaker_names(),
                        strs_view(first@) == strs_view(names@).subrange(0, k as int),
                    decreases names@.len() - k,
                {
                    let ghost before = first@;
                    let x = names[k].clone();
                    first.push(x);
                    assert(strs_view(first@) =~= strs_view(before).push(names@[k as int]@));
                    k = k + 1;
                    assert(strs_view(first@) =~= strs_view(names@).subrange(0, k as int));
                }
                proof {
                    if names@.len() <= 20 {
                        assert(strs_view(names@).subrange(0, k as int) =~= strs_view(names@));
                    } else {
                        assert(strs_view(names@).subrange(0, k as int) =~= strs_view(names@).take(20));
                    }
                }
                push_str(&mut s, "' は見つかりません。候補（先頭20件）: ");
                let joined = join_strings(&first, ", ");
                push_str(&mut s, joined.as_str());
            } else {
                push_str(&mut s, "' にスタイル '");
                push_str(&mut s, style);
                push_str(&mut s, "' はありません。候補: ");
                let joined = join_strings(&styles, ", ");
                push_str(&mut s, joined.as_str());
            }
            Err(s)
        },
    }
}

/// The voice channel shown by `/vc_status`.
pub open spec fn connected_text(channel: Option<u64>) -> Seq<char> {
    match channel {
        Some(id) => "<#"@ + decimal(id as nat) + ">"@,
        None => "(not connected)"@,
    }
}

pub fn build_connected_text(channel: Option<u64>) -> (r: String)
    ensures
        r@ == connected_text(channel),
{
    match channel {
        Some(id) => {
            let mut s = String::from_str("<#");
            let n = u64_string(id);
            push_str(&mut s, n.as_str());
            push_str(&mut s, ">");
            s
        },
        None => String::from_str("(not connected)"),
    }
}

/// The reading mode shown by `/vc_status`.
pub open spec fn status_mode_text(parallel_count: nat) -> Seq<char> {
    if parallel_count > 1 {
        "parallel(count="@ + decimal(parallel_count) + ")"@
    } else {
        "sequential"@
    }
}

pub fn build_status_mode_text(parallel_count: usize) -> (r: String)
    ensures
        r@ == status_mode_text(parallel_count as nat),
{
    if parallel_count > 1 {
        let mut s = String::from_str("parallel(count=");
        let n = u64_string(parallel_count as u64);
        push_str(&mut s, n.as_str());
        push_str(&mut s, ")");
        s
    } else {
        String::from_str("sequential")
    }
}

/// The user's speaker as `/vc_status` shows it: "speaker / style (id)" with
/// unknown names marked, or the server default.
pub fn user_speaker_text(user_speaker: Option<u32>, guild_speaker: u32) -> (r: String)
    ensures
        match user_speaker {
            None => r@ == decimal(guild_speaker as nat) + " (guild default)"@,
            Some(id) => exists|sp: Seq<char>, st: Seq<char>|
                r@ == sp + " / "@ + st + " ("@ + decimal(id as nat) + ")"@ && ((exists|i: int|
                    first_with_id(id, i) && catalog()[i].speaker_name == sp && catalog()[i].style_name
                        == st) || ((forall|i: int|
                    0 <= i < catalog().len() ==> catalog()[i].style_id != id) && sp
                    == "(unknown speaker)"@ && st == "(unknown style)"@)),
        },
{
    match user_speaker {
        None => {
            let mut s = u64_string(guild_speaker as u64);
            push_str(&mut s, " (guild default)");
            s
        },
        Some(id) => {
            let sp = match speaker_name_for_id(id) {
                Some(n) => n,
                None => String::from_str("(unknown speaker)"),
            };
            let st = match style_name_for_id(id) {
                Some(n) => n,
                None => String::from_str("(unknown style)"),
            };
            let mut s = String::new();
            push_str(&mut s, sp.as_str());
            push_str(&mut s, " / ");
            push_str(&mut s, st.as_str());
            push_str(&mut s, " (");
            let n = u64_string(id as u64);
            push_str(&mut s, n.as_str());
            push_str(&mut s, ")");
            s
        },
    }
}

/// What `/vc_config` does: the auto-read value to store (stored before the
/// parallel count is checked), the values shown, and the parallel count to
/// store, or the error for one out of range.
pub struct VcConfigUpdate {
    pub changed: bool,
    pub next_system_read: bool,
    pub next_auto_read: bool,
    pub set_auto_read: Option<bool>,
    pub set_system_read: bool,
    pub parallel_count: Result<Option<usize>, String>,
}

pub fn vc_config_update(
    system_read: Option<bool>,
    auto_read: Option<bool>,
    parallel_count: Option<u8>,
    current_system_read: bool,
    current_auto_read: bool,
) -> (r: VcConfigUpdate)
    ensures
        r.changed == (system_read is Some || auto_read is Some || parallel_count is Some),
        r.next_system_read == match system_read {
            Some(v) => v,
            None => current_system_read,
        },
        r.next_auto_read == match auto_read {
            Some(v) => v,
            None => current_auto_read,
        },
        r.set_auto_read == auto_read,
        r.set_system_read == system_read is Some,
        match parallel_count {
            None => r.parallel_count == Ok::<Option<usize>, String>(None),
            Some(v) => if VOICE_PARALLEL_COUNT_DEFAULT <= v <= VOICE_PARALLEL_COUNT_MAX {
                r.parallel_count == Ok::<Option<usize>, String>(Some(v as usize))
            } else {
                r.parallel_count matches Err(e) && e@ == "parallel_count は "@ + decimal(
                    VOICE_PARALLEL_COUNT_DEFAULT as nat,
                ) + "〜"@ + decimal(VOICE_PARALLEL_COUNT_MAX as nat) + " の範囲で指定してください。"@
            },
        },
{
    let parallel: Result<Option<usize>, String> = match parallel_count {
        None => Ok(None),
        Some(v) => {
            let v = v as usize;
            if VOICE_PARALLEL_COUNT_DEFAULT <= v && v <= VOICE_PARALLEL_COUNT_MAX {
                Ok(Some(v))
            } else {
                let mut s = String::from_str("parallel_count は ");
                let lo = u64_string(VOICE_PARALLEL_COUNT_DEFAULT as u64);
                push_str(&mut s, lo.as_str());
                push_str(&mut s, "〜");
                let hi = u64_string(VOICE_PARALLEL_COUNT_MAX as u64);
                push_str(&mut s, hi.as_str());
                push_str(&mut s, " の範囲で指定してください。");
                Err(s)
            }
        },
    };
    VcConfigUpdate {
        changed: system_read.is_some() || auto_read.is_some() || parallel_count.is_some(),
        next_system_read: match system_read {
            Some(v) => v,
            None => current_system_read,
        },
        next_auto_read: match auto_read {
            Some(v) => v,
            None => current_auto_read,
        },
        set_auto_read: auto_read,
        set_system_read: system_read.is_some(),
        parallel_count: parallel,
    }
}

/// LaTeX commands offered by `/tex_expr`.
pub open spec fn tex_commands() -> Seq<Seq<char>> {
    seq![
        "\\alpha"@,
        "\\beta"@,
        "\\gamma"@,
        "\\delta"@,
        "\\sin"@,
        "\\cos"@,
        "\\tan"@,
        "\\log"@,
        "\\ln"@,
        "\\sqrt{}"@,
        "\\frac{}{}"@,
        "\\int_0^1"@,
        "\\sum_{n=0}^{\\infty}"@,
        "\\prod_{i=1}^{n}"@,
        "\\lim_{x \\to 0}"@,
        "\\infty"@,
        "\\mathbb{R}"@,
        "\\mathbb{Z}"@,
        "\\mathbb{N}"@,
    ]
}

/// Whole formulas offered by `/tex_expr`.
pub open spec fn tex_snippets() -> Seq<Seq<char>> {
    seq![
        "\\int_0^1 x^2 \\, dx"@,
        "\\sum_{n=0}^{\\infty} a_n x^n"@,
        "\\lim_{x \\to 0} \\frac{\\sin x}{x}"@,
        "e^{i\\pi} + 1 = 0"@,
        "a^2 + b^2 = c^2"@,
        "\\frac{d}{dx} f(x)"@,
        "\\nabla \\cdot \\vec{E} = \\frac{\\rho}{\\varepsilon_0}"@,
    ]
}

fn tex_command_list() -> (r: Vec<&'static str>)
    ensures
        r@.map_values(|s: &str| s@) == tex_commands(),
{
    let r = vec![
        "\\alpha",
        "\\beta",
        "\\gamma",
        "\\delta",
        "\\sin",
        "\\cos",
        "\\tan",
        "\\log",
        "\\ln",
        "\\sqrt{}",
        "\\frac{}{}",
        "\\int_0^1",
        "\\sum_{n=0}^{\\infty}",
        "\\prod_{i=1}^{n}",
        "\\lim_{x \\to 0}",
        "\\infty",
        "\\mathbb{R}",
        "\\mathbb{Z}",
        "\\mathbb{N}",
    ];
    assert(r@.map_values(|s: &str| s@) =~= tex_commands());
    r
}

fn tex_snippet_list() -> (r: Vec<&'static str>)
    ensures
        r@.map_values(|s: &str| s@) == tex_snippets(),
{
    let r = vec![
        "\\int_0^1 x^2 \\, dx",
        "\\sum_{n=0}^{\\infty} a_n x^n",
        "\\lim_{x \\to 0} \\frac{\\sin x}{x}",
        "e^{i\\pi} + 1 = 0",
        "a^2 + b^2 = c^2",
        "\\frac{d}{dx} f(x)",
        "\\nabla \\cdot \\vec{E} = \\frac{\\rho}{\\varepsilon_0}",
    ];
    assert(r@.map_values(|s: &str| s@) =~= tex_snippets());
    r
}

/// Whether a candidate is offered for the typed text.
pub open spec fn tex_offered(c: Seq<char>, p: Seq<char>) -> bool {
    p.len() == 0 || starts_with_seq(c, p) || contains_seq(c, p)
}

/// The candidates offered for the typed text, in order.
pub open spec fn tex_kept(s: Seq<Seq<char>>, p: Seq<char>) -> Seq<Seq<char>>
    decreases s.len(),
{
    if s.len() == 0 {
        s
    } else {
        let rest = tex_kept(s.drop_last(), p);
        if tex_offered(s.last(), p) {
            rest.push(s.last())
        } else {
            rest
        }
    }
}

fn keep_tex(out: &mut Vec<String>, list: &Vec<&'static str>, p: &Vec<char>)
    ensures
        strs_view(final(out)@) == strs_view(old(out)@) + tex_kept(list@.map_values(|s: &str| s@), p@),
{
    let ghost start = strs_view(out@);
    let ghost ls = list@.map_values(|s: &str| s@);
    let mut i: usize = 0;
    while i < list.len()
        invariant
            i <= list@.len(),
            ls == list@.map_values(|s: &str| s@),
            strs_view(out@) == start + tex_kept(ls.subrange(0, i as int), p@),
        decreases list@.len() - i,
    {
        let ghost cur = ls.subrange(0, i + 1);
        assert(cur.drop_last() =~= ls.subrange(0, i as int));
        assert(cur.last() == list@[i as int]@);
        let c = str_to_chars(list[i]);
        if p.len() == 0 || starts_with_chars(&c, p) || contains_chars(&c, p) {
            let ghost before = out@;
            out.push(String::from_str(list[i]));
            assert(strs_view(out@) =~= strs_view(before).push(list@[i as int]@));
        }
        assert(strs_view(out@) =~= start + tex_kept(cur, p@));
        i = i + 1;
    }
    assert(ls.subrange(0, list@.len() as int) =~= ls);
}

/// Autocomplete of `/tex_expr`: commands, then formulas, that start with or
/// contain the typed text; sorted, without duplicates, at most 20.
pub fn autocomplete_tex_expr(partial: &str) -> (r: Vec<String>)
    ensures
        strs_view(r@) == sorted_candidates(
            tex_kept(tex_commands(), partial@) + tex_kept(tex_snippets(), partial@),
            20,
        ),
{
    let p = str_to_chars(partial);
    let mut candidates: Vec<String> = Vec::new();
    let commands = tex_command_list();
    keep_tex(&mut candidates, &commands, &p);
    let snippets = tex_snippet_list();
    keep_tex(&mut candidates, &snippets, &p);
    assert(Seq::<Seq<char>>::empty() + tex_kept(tex_commands(), partial@) =~= tex_kept(tex_commands(), partial@));
    sorted_unique(&candidates, 20)
}

/// The dictionary sources offered for the typed text (trimmed, lowercased):
/// all when it is empty, else those whose lowercased form starts with or
/// contains it.
pub open spec fn sources_kept(s: Seq<Seq<char>>, p: Seq<char>) -> Seq<Seq<char>>
    decreases s.len(),
{
    if s.len() == 0 {
        s
    } else {
        let rest = sources_kept(s.drop_last(), p);
        let l = unicode_lowercase(s.last());
        if p.len() == 0 || starts_with_seq(l, p) || contains_seq(l, p) {
            rest.push(s.last())
        } else {
            rest
        }
    }
}

/// Autocomplete of `/vc_dict_delete`: sorted, without duplicates, at most 25.
pub fn autocomplete_vc_dict_source(sources: &Vec<String>, partial: &str) -> (r: Vec<String>)
    ensures
        strs_view(r@) == sorted_candidates(
            sources_kept(strs_view(sources@), unicode_lowercase(trim(partial@))),
            25,
        ),
{
    let t = trim_str(partial);
    let lp = lowercase_str(t.as_str());
    let p = str_to_chars(lp.as_str());
    let ghost pv = unicode_lowercase(trim(partial@));
    let mut kept: Vec<String> = Vec::new();
    let mut i: usize = 0;
    while i < sources.len()
        invariant
            i <= sources@.len(),
            p@ == pv,
            strs_view(kept@) == sources_kept(strs_view(sources@).subrange(0, i as int), pv),
        decreases sources@.len() - i,
    {
        let ghost cur = strs_view(sources@).subrange(0, i + 1);
        assert(cur.drop_last() =~= strs_view(sources@).subrange(0, i as int));
        let lower = lowercase_str(sources[i].as_str());
        let l = str_to_chars(lower.as_str());
        if p.len() == 0 || starts_with_chars(&l, &p) || contains_chars(&l, &p) {
            let ghost before = kept@;
            kept.push(sources[i].clone());
            assert(strs_view(kept@) =~= strs_view(before).push(sources@[i as int]@));
        }
        assert(strs_view(kept@) =~= sources_kept(cur, pv));
        i = i + 1;
    }
    assert(strs_view(sources@).subrange(0, sources@.len() as int) =~= strs_view(sources@));
    sorted_unique(&kept, 25)
}

/// The label of a style choice in the `/vc speaker` autocomplete:
/// `speaker / style (id=N, file)`.
pub open spec fn style_choice_label(e: StyleEntry) -> Seq<char> {
    e.speaker_name + " / "@ + e.style_name + " (id="@ + decimal(e.style_id as nat) + ", "@ + e.vvm_file
        + ")"@
}

/// The label of a style choice; the value chosen is the style name.
pub fn vc_style_choice_label(entry: &VoiceStyleEntry) -> (r: String)
    ensures
        r@ == style_choice_label(entry@),
{
    let mut s = String::new();
    push_str(&mut s, entry.speaker_name.as_str());
    push_str(&mut s, " / ");
    push_str(&mut s, entry.style_name.as_str());
    push_str(&mut s, " (id=");
    let id = u64_string(entry.style_id as u64);
    push_str(&mut s, id.as_str());
    push_str(&mut s, ", ");
    push_str(&mut s, entry.vvm_file.as_str());
    push_str(&mut s, ")");
    s
}


/// The text `/vc_say` or `/vc_download` reads, with the channel's reading
/// dictionary applied (`aliases[k]` the reading of entry `k`), and its
/// preview for the reply; `None` when the text is blank.
pub fn vc_read_text(text: &str, entries: &Vec<(String, String)>, aliases: &Vec<String>) -> (r: Option<(String, String)>)
    requires
        aliases.len() == entries.len(),
    ensures
        match r {
            None => trim(text@).len() == 0,
            Some((t, p)) => {
                &&& trim(text@).len() > 0
                &&& t@ == apply_dictionary(text@, entries_view(entries@), aliases@.map_values(|s: String| s@))
                &&& p@ == preview(t@, 120)
            },
        },
{
    let trimmed = trim_str(text);
    if trimmed.unicode_len() == 0 {
        return None;
    }
    let t = apply_tts_dictionary(text, entries, aliases);
    let p = preview_text(t.as_str(), 120);
    Some((t, p))
}

/// What `/vc_say` replies once the text is queued: a job of its own when
/// the channel reads in parallel, a place in the queue otherwise.
pub open spec fn vc_say_description(parallel_count: nat) -> Seq<char> {
    if parallel_count > 1 {
        "読み上げジョブを追加しました（並列再生）。"@
    } else {
        "読み上げキューに追加しました。"@
    }
}

pub fn build_vc_say_description(parallel_count: usize) -> (r: &'static str)
    ensures
        r@ == vc_say_description(parallel_count as nat),
{
    if parallel_count > 1 {
        "読み上げジョブを追加しました（並列再生）。"
    } else {
        "読み上げキューに追加しました。"
    }
}

/// What the bot says in the voice channel after `/vc_join`.
pub open spec fn join_announcement(auto_read: bool) -> Seq<char> {
    "ボイスチャンネルに接続しました。自動読み上げは"@ + enabled_label(auto_read) + "です。"@
}

pub fn build_join_announcement(auto_read: bool) -> (r: String)
    ensures
        r@ == join_announcement(auto_read),
{
    let mut s = String::from_str("ボイスチャンネルに接続しました。自動読み上げは");
    push_str(&mut s, bool_enabled_label(auto_read));
    push_str(&mut s, "です。");
    s
}

/// What the bot says in the voice channel after `/vc_autoread`.
pub open spec fn auto_read_announcement(enabled: bool) -> Seq<char> {
    "このチャンネルの自動読み上げを"@ + enabled_label(enabled) + "に設定しました。"@
}

pub fn build_auto_read_announcement(enabled: bool) -> (r: String)
    ensures
        r@ == auto_read_announcement(enabled),
{
    let mut s = String::from_str("このチャンネルの自動読み上げを");
    push_str(&mut s, bool_enabled_label(enabled));
    push_str(&mut s, "に設定しました。");
    s
}

/// What `/vc_dict` says it did: "読み上げ辞書を更新しました。" when the source
/// was already registered, "読み上げ辞書を登録しました。" otherwise.
pub open spec fn dictionary_set_message(updated: bool) -> Seq<char> {
    "読み上げ辞書を"@ + (if updated { "更新"@ } else { "登録"@ }) + "しました。"@
}

pub fn build_dictionary_set_message(updated: bool) -> (r: String)
    ensures
        r@ == dictionary_set_message(updated),
{
    let mut s = String::from_str("読み上げ辞書を");
    push_str(&mut s, if updated { "更新" } else { "登録" });
    push_str(&mut s, "しました。");
    s
}

/// "{count}/{max}", the entry count shown by `/vc_dict` and `/vc_dict_delete`.
pub open spec fn entry_count_text(count: nat, max: nat) -> Seq<char> {
    decimal(count) + "/"@ + decimal(max)
}

pub fn build_entry_count_text(count: usize, max: usize) -> (r: String)
    ensures
        r@ == entry_count_text(count as nat, max as nat),
{
    let mut s = u64_string(count as u64);
    push_str(&mut s, "/");
    let m = u64_string(max as u64);
    push_str(&mut s, m.as_str());
    s
}

/// "{speaker} / {style} ({id})", the voice of a `/vc_download` file; a name
/// the catalog does not have is "(unknown)".
pub open spec fn download_speaker_text(speaker: Option<Seq<char>>, style: Option<Seq<char>>, id: u32) -> Seq<char> {
    (match speaker {
        Some(n) => n,
        None => "(unknown)"@,
    }) + " / "@ + (match style {
        Some(n) => n,
        None => "(unknown)"@,
    }) + " ("@ + decimal(id as nat) + ")"@
}

pub fn download_speaker_field(speaker_id: u32) -> (r: String)
    ensures
        exists|sp: Option<Seq<char>>, st: Option<Seq<char>>| {
            &&& r@ == download_speaker_text(sp, st, speaker_id)
            &&& (sp is None <==> (forall|i: int| 0 <= i < catalog().len() ==> catalog()[i].style_id != speaker_id))
            &&& (st is None <==> (forall|i: int| 0 <= i < catalog().len() ==> catalog()[i].style_id != speaker_id))
            &&& (sp matches Some(n) ==> exists|i: int| first_with_id(speaker_id, i) && catalog()[i].speaker_name == n)
            &&& (st matches Some(n) ==> exists|i: int| first_with_id(speaker_id, i) && catalog()[i].style_name == n)
        },
{
    let sp = speaker_name_for_id(speaker_id);
    let st = style_name_for_id(speaker_id);
    let ghost spv = crate::voicevox_tool::opt_view(sp);
    let ghost stv = crate::voicevox_tool::opt_view(st);
    let mut s = match sp {
        Some(n) => n,
        None => String::from_str("(unknown)"),
    };
    push_str(&mut s, " / ");
    match st {
        Some(n) => push_str(&mut s, n.as_str()),
        None => push_str(&mut s, "(unknown)"),
    }
    push_str(&mut s, " (");
    let d = u64_string(speaker_id as u64);
    push_str(&mut s, d.as_str());
    push_str(&mut s, ")");
    proof {
        if spv is Some {
            let i = choose|i: int| first_with_id(speaker_id, i) && catalog()[i].speaker_name == spv->0;
            assert(catalog()[i].style_id == speaker_id);
        }
        if stv is Some {
            let i = choose|i: int| first_with_id(speaker_id, i) && catalog()[i].style_name == stv->0;
            assert(catalog()[i].style_id == speaker_id);
        }
        assert(s@ == download_speaker_text(spv, stv, speaker_id));
    }
    s
}

} // verus!
