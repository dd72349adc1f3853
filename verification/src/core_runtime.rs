//! What the VOICEVOX core runtime decides while it starts: the ONNX Runtime
//! artifact of a platform, the VVM release to use, the acceleration mode,
//! which models are loaded, and the error for an unknown style.
use vstd::prelude::*;
use std::collections::HashMap;
use crate::text::{
    push_str, str_eq, str_to_chars, trim_str, u64_string, decimal, trim, trim_chars,
    parse_u64_chars, parse_unsigned, seq_ascii_lower, to_ascii_lower, strs_view, contains_string,
    take_at_most,
};
use crate::discord_tool::{sort_by, lemma_insert_by_at};
use crate::voicevox_tool::sort_strings;
use crate::commands::{dedup_adjacent, join_with, join_strings};
use crate::voicevox_tool::sort_names;

verus! {

broadcast use vstd::std_specs::hash::group_hash_axioms;

/// The major version of the VVM releases that are supported.
pub const SUPPORTED_VVM_MAJOR: u64 = 0;

/// The minor version of the VVM releases that are supported.
pub const SUPPORTED_VVM_MINOR: u64 = 16;

/// The ONNX Runtime build of a platform, by `std::env::consts` OS and ARCH.
pub open spec fn artifact_for(os: Seq<char>, arch: Seq<char>) -> Option<Seq<char>> {
    if os == "windows"@ && arch == "x86_64"@ {
        Some("onnxruntime-win-x64"@)
    } else if os == "windows"@ && arch == "x86"@ {
        Some("onnxruntime-win-x86"@)
    } else if os == "linux"@ && arch == "x86_64"@ {
        Some("onnxruntime-linux-x64"@)
    } else if os == "linux"@ && arch == "aarch64"@ {
        Some("onnxruntime-linux-arm64"@)
    } else if os == "linux"@ && arch == "arm"@ {
        Some("onnxruntime-linux-armhf"@)
    } else if os == "macos"@ && arch == "x86_64"@ {
        Some("onnxruntime-osx-x86_64"@)
    } else if os == "macos"@ && arch == "aarch64"@ {
        Some("onnxruntime-osx-arm64"@)
    } else if os == "android"@ && arch == "x86_64"@ {
        Some("onnxruntime-android-x64"@)
    } else if os == "android"@ && arch == "aarch64"@ {
        Some("onnxruntime-android-arm64"@)
    } else {
        None
    }
}

/// The ONNX Runtime build to download for a platform, or the error for one
/// without a build.
pub fn onnxruntime_artifact_name(os: &str, arch: &str) -> (r: Result<&'static str, String>)
    ensures
        match r {
            Ok(a) => artifact_for(os@, arch@) == Some(a@),
            Err(e) => artifact_for(os@, arch@) is None
                && e@ == "unsupported platform for ONNX Runtime auto-download: os='"@ + os@ + "', arch='"@
                + arch@ + "'"@,
        },
{
    if str_eq(os, "windows") && str_eq(arch, "x86_64") {
        Ok("onnxruntime-win-x64")
    } else if str_eq(os, "windows") && str_eq(arch, "x86") {
        Ok("onnxruntime-win-x86")
    } else if str_eq(os, "linux") && str_eq(arch, "x86_64") {
        Ok("onnxruntime-linux-x64")
    } else if str_eq(os, "linux") && str_eq(arch, "aarch64") {
        Ok("onnxruntime-linux-arm64")
    } else if str_eq(os, "linux") && str_eq(arch, "arm") {
        Ok("onnxruntime-linux-armhf")
    } else if str_eq(os, "macos") && str_eq(arch, "x86_64") {
        Ok("onnxruntime-osx-x86_64")
    } else if str_eq(os, "macos") && str_eq(arch, "aarch64") {
        Ok("onnxruntime-osx-arm64")
    } else if str_eq(os, "android") && str_eq(arch, "x86_64") {
        Ok("onnxruntime-android-x64")
    } else if str_eq(os, "android") && str_eq(arch, "aarch64") {
        Ok("onnxruntime-android-arm64")
    } else {
        let mut s = String::from_str("unsupported platform for ONNX Runtime auto-download: os='");
        push_str(&mut s, os);
        push_str(&mut s, "', arch='");
        push_str(&mut s, arch);
        push_str(&mut s, "'");
        Err(s)
    }
}

/// The release tag of the ONNX Runtime build made for a library version:
/// `voicevox_onnxruntime-` and the version without surrounding whitespace.
pub fn onnxruntime_release_tag(lib_version: &str) -> (r: String)
    ensures
        r@ == "voicevox_onnxruntime-"@ + trim(lib_version@),
{
    let mut s = String::from_str("voicevox_onnxruntime-");
    let v = trim_str(lib_version);
    push_str(&mut s, v.as_str());
    s
}

/// The archive of the ONNX Runtime build for a platform and a library
/// version, or the error for a platform without a build.
pub fn onnxruntime_asset_name(os: &str, arch: &str, lib_version: &str) -> (r: Result<String, String>)
    ensures
        match r {
            Ok(n) => artifact_for(os@, arch@) is Some && n@ == "voicevox_"@ + artifact_for(os@, arch@).unwrap()
                + "-"@ + trim(lib_version@) + ".tgz"@,
            Err(e) => artifact_for(os@, arch@) is None
                && e@ == "unsupported platform for ONNX Runtime auto-download: os='"@ + os@ + "', arch='"@
                + arch@ + "'"@,
        },
{
    let artifact = match onnxruntime_artifact_name(os, arch) {
        Ok(a) => a,
        Err(e) => return Err(e),
    };
    let mut s = String::from_str("voicevox_");
    push_str(&mut s, artifact);
    push_str(&mut s, "-");
    let v = trim_str(lib_version);
    push_str(&mut s, v.as_str());
    push_str(&mut s, ".tgz");
    Ok(s)
}

/// `s` without its leading 'v's.
pub open spec fn skip_v(s: Seq<char>) -> Seq<char>
    decreases s.len(),
{
    if s.len() > 0 && s[0] == 'v' {
        skip_v(s.drop_first())
    } else {
        s
    }
}

/// The part of `s` before the first `sep` (all of it when there is none).
pub open spec fn before_sep(s: Seq<char>, sep: char) -> Seq<char>
    decreases s.len(),
{
    if s.len() == 0 {
        s
    } else if s[0] == sep {
        Seq::empty()
    } else {
        seq![s[0]] + before_sep(s.drop_first(), sep)
    }
}

/// The pieces of `s` between the separators.
pub open spec fn split_on(s: Seq<char>, sep: char) -> Seq<Seq<char>>
    decreases s.len(),
{
    if s.len() == 0 {
        seq![Seq::empty()]
    } else {
        let rest = split_on(s.drop_first(), sep);
        if s[0] == sep {
            seq![Seq::empty()] + rest
        } else {
            rest.update(0, seq![s[0]] + rest[0])
        }
    }
}

/// The version `major.minor.patch` of a release tag ("v" prefixes and a
/// "-suffix" ignored).
pub open spec fn release_semver(tag: Seq<char>) -> Option<(u64, u64, u64)> {
    let parts = split_on(before_sep(skip_v(trim(tag)), '-'), '.');
    if parts.len() != 3 {
        None
    } else {
        match (
            parse_unsigned(parts[0], u64::MAX as nat),
            parse_unsigned(parts[1], u64::MAX as nat),
            parse_unsigned(parts[2], u64::MAX as nat),
        ) {
            (Some(a), Some(b), Some(c)) => Some((a as u64, b as u64, c as u64)),
            _ => None,
        }
    }
}

proof fn lemma_split_len(s: Seq<char>, sep: char)
    ensures
        split_on(s, sep).len() >= 1,
    decreases s.len(),
{
    if s.len() > 0 {
        lemma_split_len(s.drop_first(), sep);
    }
}

fn split_chars(s: &Vec<char>, from: usize, sep: char) -> (r: Vec<Vec<char>>)
    requires
        from <= s@.len(),
    ensures
        r@.map_values(|p: Vec<char>| p@) == split_on(s@.subrange(from as int, s@.len() as int), sep),
    decreases s@.len() - from,
{
    if from == s.len() {
        let mut r: Vec<Vec<char>> = Vec::new();
        r.push(Vec::new());
        assert(s@.subrange(from as int, s@.len() as int) =~= Seq::<char>::empty());
        assert(r@.map_values(|p: Vec<char>| p@) =~= seq![Seq::<char>::empty()]);
        return r;
    }
    let ghost t = s@.subrange(from as int, s@.len() as int);
    assert(t.drop_first() =~= s@.subrange(from + 1, s@.len() as int));
    let mut rest = split_chars(s, from + 1, sep);
    proof {
        lemma_split_len(t.drop_first(), sep);
    }
    if s[from] == sep {
        let ghost rv = rest@.map_values(|p: Vec<char>| p@);
        rest.insert(0, Vec::new());
        assert(rest@.map_values(|p: Vec<char>| p@) =~= seq![Seq::<char>::empty()] + rv);
        rest
    } else {
        let ghost rv = rest@.map_values(|p: Vec<char>| p@);
        let mut first: Vec<char> = Vec::new();
        first.push(s[from]);
        let mut j: usize = 0;
        while j < rest[0].len()
            invariant
                rest@.len() >= 1,
                from < s@.len(),
                j <= rest@[0]@.len(),
                first@ == seq![s@[from as int]] + rest@[0]@.subrange(0, j as int),
            decreases rest@[0]@.len() - j,
        {
            first.push(rest[0][j]);
            j = j + 1;
            assert(first@ =~= seq![s@[from as int]] + rest@[0]@.subrange(0, j as int));
        }
        assert(rest@[0]@.subrange(0, j as int) =~= rest@[0]@);
        rest.set(0, first);
        assert(rest@.map_values(|p: Vec<char>| p@) =~= rv.update(0, seq![s@[from as int]] + rv[0]));
        rest
    }
}

/// The version of a release tag, if it is `major.minor.patch`.
pub fn parse_release_semver(tag_name: &str) -> (r: Option<(u64, u64, u64)>)
    ensures
        r == release_semver(tag_name@),
{
    let v = str_to_chars(tag_name);
    let t = trim_chars(&v);
    let mut start: usize = 0;
    let ghost tv = t@;
    assert(t@.subrange(0, t@.len() as int) =~= t@);
    while start < t.len() && t[start] == 'v'
        invariant
            start <= t@.len(),
            skip_v(t@) == skip_v(t@.subrange(start as int, t@.len() as int)),
        decreases t@.len() - start,
    {
        assert(t@.subrange(start as int, t@.len() as int).drop_first() =~= t@.subrange(start + 1, t@.len() as int));
        start = start + 1;
    }
    let mut stable: Vec<char> = Vec::new();
    let mut i: usize = start;
    while i < t.len() && t[i] != '-'
        invariant
            start <= i <= t@.len(),
            forall|j: int| start <= j < i ==> t@[j] != '-',
            stable@ == t@.subrange(start as int, i as int),
        decreases t@.len() - i,
    {
        stable.push(t[i]);
        i = i + 1;
        assert(stable@ =~= t@.subrange(start as int, i as int));
    }
    proof {
        lemma_before_sep(t@.subrange(start as int, t@.len() as int), '-', (i - start) as int);
        assert(t@.subrange(start as int, t@.len() as int).subrange(0, (i - start) as int) =~= stable@);
    }
    let parts = split_chars(&stable, 0, '.');
    assert(stable@.subrange(0, stable@.len() as int) =~= stable@);
    if parts.len() != 3 {
        return None;
    }
    let a = match parse_u64_chars(&parts[0]) {
        Ok(v) => v,
        Err(_) => {
            return None;
        },
    };
    let b = match parse_u64_chars(&parts[1]) {
        Ok(v) => v,
        Err(_) => {
            return None;
        },
    };
    let c = match parse_u64_chars(&parts[2]) {
        Ok(v) => v,
        Err(_) => {
            return None;
        },
    };
    Some((a, b, c))
}

proof fn lemma_before_sep(s: Seq<char>, sep: char, k: int)
    requires
        0 <= k <= s.len(),
        forall|j: int| 0 <= j < k ==> s[j] != sep,
        k < s.len() ==> s[k] == sep,
    ensures
        before_sep(s, sep) == s.subrange(0, k),
    decreases k,
{
    if k == 0 {
        if s.len() > 0 {
            assert(before_sep(s, sep) =~= Seq::<char>::empty());
        }
        assert(s.subrange(0, 0) =~= Seq::<char>::empty());
        if s.len() == 0 {
            assert(before_sep(s, sep) =~= s);
        }
    } else {
        lemma_before_sep(s.drop_first(), sep, k - 1);
        assert(s.subrange(0, k) =~= seq![s[0]] + s.drop_first().subrange(0, k - 1));
    }
}

/// `a` is a later version than `b`.
pub open spec fn version_after(a: (u64, u64, u64), b: (u64, u64, u64)) -> bool {
    a.0 > b.0 || (a.0 == b.0 && (a.1 > b.1 || (a.1 == b.1 && a.2 > b.2)))
}

/// A release as the runtime reads it.
pub struct ReleaseInfo {
    pub tag_name: String,
    pub draft: bool,
    pub prerelease: bool,
}

/// The version of a release that may be used: not a draft nor a prerelease,
/// and of the supported major and minor version.
pub open spec fn usable_version(r: ReleaseInfo) -> Option<(u64, u64, u64)> {
    if r.draft || r.prerelease {
        None
    } else {
        match release_semver(r.tag_name@) {
            Some(v) => if v.0 == SUPPORTED_VVM_MAJOR && v.1 == SUPPORTED_VVM_MINOR {
                Some(v)
            } else {
                None
            },
            None => None,
        }
    }
}

/// The release to use: the first one of the latest usable version.
pub open spec fn latest_usable(rs: Seq<ReleaseInfo>) -> Option<int>
    decreases rs.len(),
{
    if rs.len() == 0 {
        None
    } else {
        let prev = latest_usable(rs.drop_last());
        match usable_version(rs.last()) {
            None => prev,
            Some(v) => match prev {
                None => Some(rs.len() - 1),
                Some(p) => if version_after(v, usable_version(rs[p]).unwrap()) {
                    Some(rs.len() - 1)
                } else {
                    prev
                },
            },
        }
    }
}

proof fn lemma_latest_usable_valid(rs: Seq<ReleaseInfo>)
    ensures
        latest_usable(rs) matches Some(p) ==> 0 <= p < rs.len() && usable_version(rs[p]) is Some,
    decreases rs.len(),
{
    if rs.len() > 0 {
        lemma_latest_usable_valid(rs.drop_last());
    }
}

/// Picks the newest usable VVM release.
pub fn select_vvm_release(releases: &Vec<ReleaseInfo>) -> (r: Option<usize>)
    ensures
        match r {
            Some(i) => latest_usable(releases@) == Some(i as int),
            None => latest_usable(releases@) is None,
        },
{
    let mut best: Option<(usize, (u64, u64, u64))> = None;
    let mut i: usize = 0;
    while i < releases.len()
        invariant
            i <= releases@.len(),
            match best {
                Some((p, v)) => latest_usable(releases@.subrange(0, i as int)) == Some(p as int) && p < i
                    && usable_version(releases@[p as int]) == Some(v),
                None => latest_usable(releases@.subrange(0, i as int)) is None,
            },
        decreases releases@.len() - i,
    {
        let ghost cur = releases@.subrange(0, i + 1);
        assert(cur.drop_last() =~= releases@.subrange(0, i as int));
        let r = &releases[i];
        if !r.draft && !r.prerelease {
            match parse_release_semver(r.tag_name.as_str()) {
                Some(v) => {
                    if v.0 == SUPPORTED_VVM_MAJOR && v.1 == SUPPORTED_VVM_MINOR {
                        let better = match best {
                            None => true,
                            Some((_, b)) => v.0 > b.0 || (v.0 == b.0 && (v.1 > b.1 || (v.1 == b.1 && v.2 > b.2))),
                        };
                        if better {
                            best = Some((i, v));
                        }
                    }
                },
                None => {},
            }
        }
        i = i + 1;
    }
    assert(releases@.subrange(0, releases@.len() as int) =~= releases@);
    match best {
        Some((p, _)) => Some(p),
        None => None,
    }
}

/// The error when no usable release is found.
pub fn no_release_error(repo: &str) -> (r: String)
    ensures
        r@ == "no compatible VVM release found in '"@ + repo@ + "': expected '"@ + decimal(
            SUPPORTED_VVM_MAJOR as nat,
        ) + "."@ + decimal(SUPPORTED_VVM_MINOR as nat) + ".*'"@,
{
    let mut s = String::from_str("no compatible VVM release found in '");
    push_str(&mut s, repo);
    push_str(&mut s, "': expected '");
    let a = u64_string(SUPPORTED_VVM_MAJOR);
    push_str(&mut s, a.as_str());
    push_str(&mut s, ".");
    let b = u64_string(SUPPORTED_VVM_MINOR);
    push_str(&mut s, b.as_str());
    push_str(&mut s, ".*'");
    s
}

/// How the synthesizer is accelerated.
#[derive(Debug, Clone, Copy, PartialEq, Eq, Structural)]
pub enum AccelerationMode {
    Auto,
    Cpu,
    Gpu,
}

/// The acceleration of a configured mode: "auto" runs on the CPU, an
/// unknown mode is left to the runtime (auto).
pub open spec fn acceleration_for(mode: Seq<char>) -> AccelerationMode {
    let m = seq_ascii_lower(trim(mode));
    if m == "auto"@ {
        AccelerationMode::Cpu
    } else if m == "cpu"@ {
        AccelerationMode::Cpu
    } else if m == "gpu"@ {
        AccelerationMode::Gpu
    } else {
        AccelerationMode::Auto
    }
}

pub fn parse_acceleration_mode(mode: &str) -> (r: AccelerationMode)
    ensures
        r == acceleration_for(mode@),
{
    let v = str_to_chars(mode);
    let t = trim_chars(&v);
    let mut m: Vec<char> = Vec::new();
    let mut i: usize = 0;
    while i < t.len()
        invariant
            i <= t@.len(),
            m@ == seq_ascii_lower(t@.subrange(0, i as int)),
        decreases t@.len() - i,
    {
        m.push(to_ascii_lower(t[i]));
        i = i + 1;
        assert(m@ =~= seq_ascii_lower(t@.subrange(0, i as int)));
    }
    assert(t@.subrange(0, t@.len() as int) =~= t@);
    if crate::text::chars_eq_str(&m, "auto") {
        AccelerationMode::Cpu
    } else if crate::text::chars_eq_str(&m, "cpu") {
        AccelerationMode::Cpu
    } else if crate::text::chars_eq_str(&m, "gpu") {
        AccelerationMode::Gpu
    } else {
        AccelerationMode::Auto
    }
}

/// Adds a candidate unless it is already there.
pub fn push_unique_candidate(candidates: &mut Vec<String>, candidate: String)
    ensures
        strs_view(final(candidates)@) == if strs_view(old(candidates)@).contains(candidate@) {
            strs_view(old(candidates)@)
        } else {
            strs_view(old(candidates)@).push(candidate@)
        },
{
    if !contains_string(candidates, &candidate) {
        let ghost before = strs_view(candidates@);
        let ghost c = candidate@;
        candidates.push(candidate);
        assert(strs_view(candidates@) =~= before.push(c));
    }
}

pub open spec fn u32_lt() -> spec_fn(u32, u32) -> bool {
    |a: u32, b: u32| a < b
}

/// Integers ascending without repeats.
pub open spec fn dedup_u32(s: Seq<u32>) -> Seq<u32>
    decreases s.len(),
{
    if s.len() == 0 {
        s
    } else {
        let d = dedup_u32(s.drop_last());
        if d.len() > 0 && d.last() == s.last() {
            d
        } else {
            d.push(s.last())
        }
    }
}

/// The style IDs of a model's metadata, ascending, each once.
pub fn collect_style_ids(ids: &Vec<u32>) -> (r: Vec<u32>)
    ensures
        r@ == dedup_u32(sort_by(ids@, u32_lt())),
{
    let ghost lt = u32_lt();
    let mut sorted: Vec<u32> = Vec::new();
    let mut i: usize = 0;
    while i < ids.len()
        invariant
            i <= ids@.len(),
            lt == u32_lt(),
            sorted@ == sort_by(ids@.subrange(0, i as int), lt),
        decreases ids@.len() - i,
    {
        assert(ids@.subrange(0, i + 1).drop_last() =~= ids@.subrange(0, i as int));
        let x = ids[i];
        let mut p: usize = 0;
        let mut found = false;
        while !found && p < sorted.len()
            invariant
                p <= sorted@.len(),
                lt == u32_lt(),
                forall|j: int| 0 <= j < p ==> !lt(x, #[trigger] sorted@[j]),
                found ==> p < sorted@.len() && lt(x, sorted@[p as int]),
            decreases sorted@.len() - p + (if found { 0int } else { 1int }),
        {
            if x < sorted[p] {
                found = true;
            } else {
                p = p + 1;
            }
        }
        proof {
            lemma_insert_by_at(sorted@, x, lt, p as int);
        }
        sorted.insert(p, x);
        i = i + 1;
    }
    assert(ids@.subrange(0, ids@.len() as int) =~= ids@);
    let mut out: Vec<u32> = Vec::new();
    let mut k: usize = 0;
    while k < sorted.len()
        invariant
            k <= sorted@.len(),
            out@ == dedup_u32(sorted@.subrange(0, k as int)),
        decreases sorted@.len() - k,
    {
        assert(sorted@.subrange(0, k + 1).drop_last() =~= sorted@.subrange(0, k as int));
        if !(out.len() > 0 && out[out.len() - 1] == sorted[k]) {
            out.push(sorted[k]);
        }
        k = k + 1;
    }
    assert(sorted@.subrange(0, sorted@.len() as int) =~= sorted@);
    out
}

/// The version key of a model: its characters' versions sorted, each once,
/// joined by '|'.
pub fn collect_version_key(versions: &Vec<String>) -> (r: String)
    ensures
        r@ == join_with(dedup_adjacent(sort_names(strs_view(versions@))), "|"@),
{
    let sorted = sort_strings(versions);
    let mut d: Vec<String> = Vec::new();
    let mut i: usize = 0;
    while i < sorted.len()
        invariant
            i <= sorted@.len(),
            strs_view(d@) == dedup_adjacent(strs_view(sorted@).subrange(0, i as int)),
        decreases sorted@.len() - i,
    {
        let ghost cur = strs_view(sorted@).subrange(0, i + 1);
        assert(cur.drop_last() =~= strs_view(sorted@).subrange(0, i as int));
        let repeated = d.len() > 0 && d[d.len() - 1] == sorted[i];
        if !repeated {
            let ghost before = strs_view(d@);
            let x = sorted[i].clone();
            d.push(x);
            assert(strs_view(d@) =~= before.push(sorted@[i as int]@));
        }
        i = i + 1;
    }
    assert(strs_view(sorted@).subrange(0, sorted@.len() as int) =~= strs_view(sorted@));
    join_strings(&d, "|")
}

/// How many of the keys equal `k`.
pub open spec fn count_key(keys: Seq<Seq<char>>, k: Seq<char>) -> nat
    decreases keys.len(),
{
    if keys.len() == 0 {
        0
    } else {
        count_key(keys.drop_last(), k) + if keys.last() == k {
            1nat
        } else {
            0nat
        }
    }
}

/// The version key shared by the most models. Which of several equally
/// common keys is taken is left open.
pub fn select_model_version(keys: &Vec<String>) -> (r: Option<String>)
    ensures
        match r {
            None => keys@.len() == 0,
            Some(k) => strs_view(keys@).contains(k@) && forall|j: int|
                0 <= j < keys@.len() ==> count_key(strs_view(keys@), #[trigger] keys@[j]@) <= count_key(
                    strs_view(keys@),
                    k@,
                ),
        },
{
    if keys.len() == 0 {
        return None;
    }
    let ghost ks = strs_view(keys@);
    let mut best: usize = 0;
    let mut best_count: usize = count_of(keys, &keys[0]);
    let mut i: usize = 1;
    while i < keys.len()
        invariant
            1 <= i <= keys@.len(),
            ks == strs_view(keys@),
            best < keys@.len(),
            best_count == count_key(ks, keys@[best as int]@),
            forall|j: int| 0 <= j < i ==> count_key(ks, #[trigger] keys@[j]@) <= best_count,
        decreases keys@.len() - i,
    {
        let c = count_of(keys, &keys[i]);
        if c > best_count {
            best = i;
            best_count = c;
        }
        i = i + 1;
    }
    assert(ks[best as int] == keys@[best as int]@);
    Some(keys[best].clone())
}

fn count_of(keys: &Vec<String>, k: &String) -> (r: usize)
    ensures
        r == count_key(strs_view(keys@), k@),
{
    let ghost ks = strs_view(keys@);
    let mut n: usize = 0;
    let mut i: usize = 0;
    while i < keys.len()
        invariant
            i <= keys@.len(),
            ks == strs_view(keys@),
            n <= i,
            n == count_key(ks.subrange(0, i as int), k@),
        decreases keys@.len() - i,
    {
        assert(ks.subrange(0, i + 1).drop_last() =~= ks.subrange(0, i as int));
        if keys[i] == *k {
            n = n + 1;
        }
        i = i + 1;
    }
    assert(ks.subrange(0, keys@.len() as int) =~= ks);
    n
}

/// The error for a VVM directory none of whose files gave a model with styles.
pub open spec fn no_styles_text(dir: Seq<char>, open_failed: nat) -> Seq<char> {
    "no usable style IDs were found in VVM files under '"@ + dir + "' (metadata_open_failed="@ + decimal(
        open_failed,
    ) + ")"@
}

/// The error for a VVM directory none of whose kept models could be loaded.
pub open spec fn none_loaded_text(dir: Seq<char>, open_failed: nat, load_failed: nat) -> Seq<char> {
    "failed to load any usable VVM under '"@ + dir + "' (metadata_open_failed="@ + decimal(open_failed)
        + ", load_failed="@ + decimal(load_failed) + ")"@
}

/// The positions of the keys equal to `k`, in order.
pub open spec fn positions_of(keys: Seq<Seq<char>>, k: Seq<char>) -> Seq<int>
    decreases keys.len(),
{
    if keys.len() == 0 {
        Seq::empty()
    } else {
        let rest = positions_of(keys.drop_last(), k);
        if keys.last() == k {
            rest.push(keys.len() - 1)
        } else {
            rest
        }
    }
}

proof fn lemma_positions_count(keys: Seq<Seq<char>>, k: Seq<char>)
    ensures
        positions_of(keys, k).len() == count_key(keys, k),
        keys.contains(k) ==> count_key(keys, k) > 0,
    decreases keys.len(),
{
    if keys.len() > 0 {
        lemma_positions_count(keys.drop_last(), k);
        if keys.contains(k) && keys.last() != k {
            let i = choose|i: int| 0 <= i < keys.len() && keys[i] == k;
            assert(keys.drop_last()[i] == k);
        }
    }
}

/// Which of the models that have styles are kept: those whose version key is
/// the one most of them share. `version_keys` holds the key of each such
/// model, in the order they were found. The result is the chosen key and the
/// positions of the kept models; an error when no model had styles.
pub fn filter_models_by_version(vvm_dir: &str, version_keys: &Vec<String>, metadata_open_failed: usize) -> (r:
    Result<(String, Vec<usize>), String>)
    ensures
        (r is Err) == (version_keys@.len() == 0),
        r matches Err(e) ==> e@ == no_styles_text(vvm_dir@, metadata_open_failed as nat),
        r matches Ok((v, kept)) ==> {
            &&& strs_view(version_keys@).contains(v@)
            &&& forall|j: int|
                0 <= j < version_keys@.len() ==> count_key(strs_view(version_keys@), #[trigger] version_keys@[j]@)
                    <= count_key(strs_view(version_keys@), v@)
            &&& kept@.map_values(|i: usize| i as int) == positions_of(strs_view(version_keys@), v@)
            &&& kept@.len() > 0
        },
{
    let ghost ks = strs_view(version_keys@);
    let v = match select_model_version(version_keys) {
        Some(v) => v,
        None => {
            let mut e = String::from_str("no usable style IDs were found in VVM files under '");
            push_str(&mut e, vvm_dir);
            push_str(&mut e, "' (metadata_open_failed=");
            let d = u64_string(metadata_open_failed as u64);
            push_str(&mut e, d.as_str());
            push_str(&mut e, ")");
            return Err(e);
        },
    };
    let mut kept: Vec<usize> = Vec::new();
    let mut i: usize = 0;
    assert(ks.subrange(0, 0) =~= Seq::<Seq<char>>::empty());
    while i < version_keys.len()
        invariant
            i <= version_keys@.len(),
            ks == strs_view(version_keys@),
            kept@.map_values(|x: usize| x as int) == positions_of(ks.subrange(0, i as int), v@),
        decreases version_keys@.len() - i,
    {
        let ghost next = ks.subrange(0, i + 1);
        assert(next.drop_last() =~= ks.subrange(0, i as int));
        assert(next.last() == version_keys@[i as int]@);
        if version_keys[i] == v {
            kept.push(i);
        }
        assert(kept@.map_values(|x: usize| x as int) =~= positions_of(next, v@));
        i = i + 1;
    }
    assert(ks.subrange(0, version_keys@.len() as int) =~= ks);
    proof {
        lemma_positions_count(ks, v@);
    }
    if kept.len() == 0 {
        let mut e = String::from_str("no usable style IDs remained after version filtering under '");
        push_str(&mut e, vvm_dir);
        push_str(&mut e, "'");
        return Err(e);
    }
    Ok((v, kept))
}

/// The error when no style of any kept model was indexed because every load
/// failed; `None` when some style was indexed.
pub fn load_outcome_error(vvm_dir: &str, metadata_open_failed: usize, load_failed: usize, indexed_styles: usize) -> (r:
    Option<String>)
    ensures
        (r is Some) == (indexed_styles == 0),
        r matches Some(e) ==> e@ == none_loaded_text(vvm_dir@, metadata_open_failed as nat, load_failed as nat),
{
    if indexed_styles > 0 {
        return None;
    }
    let mut e = String::from_str("failed to load any usable VVM under '");
    push_str(&mut e, vvm_dir);
    push_str(&mut e, "' (metadata_open_failed=");
    let d = u64_string(metadata_open_failed as u64);
    push_str(&mut e, d.as_str());
    push_str(&mut e, ", load_failed=");
    let d2 = u64_string(load_failed as u64);
    push_str(&mut e, d2.as_str());
    push_str(&mut e, ")");
    Some(e)
}

/// The error for a style that no loaded model has: the known styles
/// ascending, at most 20 of them, with their count when there are more.
pub open spec fn speaker_not_found_text(styles: Seq<u32>, speaker: u32) -> Seq<char> {
    let preview = join_with(take_at_most(styles, 20).map_values(|id: u32| decimal(id as nat)), ", "@);
    if styles.len() == 0 {
        "speaker(style id) "@ + decimal(speaker as nat) + " is not available: no styles were indexed from VVM files"@
    } else if styles.len() > 20 {
        "speaker(style id) "@ + decimal(speaker as nat) + " is not available. available styles (first "@ + decimal(20)
            + " of "@ + decimal(styles.len()) + "): "@ + preview
    } else {
        "speaker(style id) "@ + decimal(speaker as nat) + " is not available. available styles: "@ + preview
    }
}

pub fn build_speaker_not_found_error(sorted_styles: &Vec<u32>, speaker: u32) -> (r: String)
    ensures
        r@ == speaker_not_found_text(sorted_styles@, speaker),
{
    let mut previews: Vec<String> = Vec::new();
    let mut i: usize = 0;
    while i < sorted_styles.len() && i < 20
        invariant
            i <= sorted_styles@.len(),
            i <= 20,
            strs_view(previews@) == sorted_styles@.subrange(0, i as int).map_values(|id: u32| decimal(id as nat)),
        decreases sorted_styles@.len() - i,
    {
        let ghost before = strs_view(previews@);
        let d = u64_string(sorted_styles[i] as u64);
        previews.push(d);
        assert(strs_view(previews@) =~= before.push(decimal(sorted_styles@[i as int] as nat)));
        assert(sorted_styles@.subrange(0, i + 1).map_values(|id: u32| decimal(id as nat)) =~= sorted_styles@.subrange(0, i as int).map_values(|id: u32| decimal(id as nat)).push(decimal(sorted_styles@[i as int] as nat)));
        i = i + 1;
        assert(strs_view(previews@) =~= sorted_styles@.subrange(0, i as int).map_values(|id: u32| decimal(id as nat)));
    }
    proof {
        if sorted_styles@.len() <= 20 {
            assert(sorted_styles@.subrange(0, i as int) =~= take_at_most(sorted_styles@, 20));
        } else {
            assert(sorted_styles@.subrange(0, i as int) =~= take_at_most(sorted_styles@, 20));
        }
    }
    let preview = join_strings(&previews, ", ");
    let mut s = String::from_str("speaker(style id) ");
    let sp = u64_string(speaker as u64);
    push_str(&mut s, sp.as_str());
    if sorted_styles.len() == 0 {
        push_str(&mut s, " is not available: no styles were indexed from VVM files");
    } else if sorted_styles.len() > 20 {
        push_str(&mut s, " is not available. available styles (first ");
        let t = u64_string(20);
        push_str(&mut s, t.as_str());
        push_str(&mut s, " of ");
        let n = u64_string(sorted_styles.len() as u64);
        push_str(&mut s, n.as_str());
        push_str(&mut s, "): ");
        push_str(&mut s, preview.as_str());
    } else {
        push_str(&mut s, " is not available. available styles: ");
        push_str(&mut s, preview.as_str());
    }
    s
}

/// Which loaded model serves each style: the last one that has it.
pub open spec fn style_index(models: Seq<Seq<u32>>) -> Map<u32, usize>
    decreases models.len(),
{
    if models.len() == 0 {
        Map::empty()
    } else {
        let prev = style_index(models.drop_last());
        prev.union_prefer_right(
            Map::new(|s: u32| models.last().contains(s), |s: u32| (models.len() - 1) as usize),
        )
    }
}

/// Indexes the styles of the loaded models (given by their style IDs, in
/// loading order).
pub fn build_style_index(models: &Vec<Vec<u32>>) -> (r: HashMap<u32, usize>)
    ensures
        r@ == style_index(models@.map_values(|m: Vec<u32>| m@)),
{
    let ghost ms = models@.map_values(|m: Vec<u32>| m@);
    let mut index: HashMap<u32, usize> = HashMap::new();
    let mut i: usize = 0;
    while i < models.len()
        invariant
            i <= models@.len(),
            ms == models@.map_values(|m: Vec<u32>| m@),
            index@ == style_index(ms.subrange(0, i as int)),
        decreases models@.len() - i,
    {
        let ghost pre = ms.subrange(0, i as int);
        let ghost cur = ms.subrange(0, i + 1);
        assert(cur.drop_last() =~= pre);
        let ghost start = index@;
        let mut k: usize = 0;
        while k < models[i].len()
            invariant
                i < models@.len(),
                k <= models@[i as int]@.len(),
                index@ == start.union_prefer_right(
                    Map::new(|s: u32| models@[i as int]@.subrange(0, k as int).contains(s), |s: u32| i),
                ),
            decreases models@[i as int]@.len() - k,
        {
            let sid = models[i][k];
            let ghost before = index@;
            let ghost sa = models@[i as int]@.subrange(0, k as int);
            index.insert(sid, i);
            k = k + 1;
            let ghost sb = models@[i as int]@.subrange(0, k as int);
            assert(sb =~= sa.push(sid));
            assert forall|s: u32| sb.contains(s) <==> (sa.contains(s) || s == sid) by {
                if sa.contains(s) {
                    let j = choose|j: int| 0 <= j < sa.len() && sa[j] == s;
                    assert(sb[j] == s);
                }
                if sb.contains(s) {
                    let j = choose|j: int| 0 <= j < sb.len() && sb[j] == s;
                    if j < sa.len() {
                        assert(sa[j] == s);
                    }
                }
                if s == sid {
                    assert(sb[sa.len() as int] == s);
                }
            }
            assert(index@ =~= start.union_prefer_right(Map::new(|s: u32| sb.contains(s), |s: u32| i)));
        }
        assert(models@[i as int]@.subrange(0, k as int) =~= cur.last());
        assert(index@ =~= style_index(cur));
        i = i + 1;
    }
    assert(ms.subrange(0, models@.len() as int) =~= ms);
    index
}

} // verus!
