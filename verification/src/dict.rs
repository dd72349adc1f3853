//! The per-channel reading dictionary: source phrases replaced by target
//! phrases in speech text, the longest phrase winning at each position. A
//! single phrase is replaced by plain search; several are searched for at
//! once with one regular expression that tries the longest first.
use vstd::prelude::*;
use vstd::string::*;
use crate::markup::{RegexPiece, RegexPieceView, regex_split, regex_pieces, regex_pieces_view};
use crate::text::{chars_eq, chars_to_string, extend_chars, has_ascii_alpha, occurs_at, occurs_at_exec, str_to_chars, trim, trim_chars};

verus! {

/// A dictionary pattern: the phrase searched for and what it is read as.
pub type Pattern = (Seq<char>, Seq<char>);

pub open spec fn pattern_keys(ps: Seq<Pattern>) -> Seq<Seq<char>> {
    ps.map_values(|p: Pattern| p.0)
}

/// The patterns after one entry: the trimmed source (when new), and its kana
/// reading `alias` as a second spelling of the same source (when the source
/// has ASCII letters, the reading is non-empty, differs from the source and is
/// new). Entries with a blank source or target add nothing.
pub open spec fn add_entry(ps: Seq<Pattern>, source: Seq<char>, target: Seq<char>, alias: Seq<char>) -> Seq<Pattern> {
    let s = trim(source);
    let t = trim(target);
    if s.len() == 0 || t.len() == 0 {
        ps
    } else {
        let p1 = if !pattern_keys(ps).contains(s) {
            ps.push((s, t))
        } else {
            ps
        };
        if has_ascii_alpha(s) && alias.len() > 0 && alias != s && !pattern_keys(p1).contains(alias) {
            p1.push((alias, t))
        } else {
            p1
        }
    }
}

/// The patterns of a dictionary, entry by entry; `aliases[k]` is the kana
/// reading of the trimmed source of entry `k`.
pub open spec fn dict_patterns(entries: Seq<Pattern>, aliases: Seq<Seq<char>>) -> Seq<Pattern>
    decreases entries.len(),
{
    if entries.len() == 0 {
        Seq::empty()
    } else {
        let k = entries.len() - 1;
        add_entry(dict_patterns(entries.drop_last(), aliases), entries[k].0, entries[k].1, aliases[k])
    }
}

/// The index of the longest pattern occurring at `i`, the earliest among the
/// longest.
pub open spec fn longest_at(ps: Seq<Pattern>, s: Seq<char>, i: int) -> Option<int>
    decreases ps.len(),
{
    if ps.len() == 0 {
        None
    } else {
        let r = longest_at(ps.drop_last(), s, i);
        let k = ps.len() - 1;
        let p = ps[k].0;
        if p.len() > 0 && occurs_at(s, p, i) && (r is None || p.len() > ps[r->0].0.len()) {
            Some(k)
        } else {
            r
        }
    }
}

/// The text from `i` with every pattern occurrence replaced, scanning from the
/// left and taking the longest pattern at each position.
pub open spec fn replace_from(ps: Seq<Pattern>, s: Seq<char>, i: int) -> Seq<char>
    decreases s.len() - i,
{
    if i < 0 || i >= s.len() {
        Seq::empty()
    } else {
        match longest_at(ps, s, i) {
            Some(k) => if 0 <= k < ps.len() && ps[k].0.len() > 0 && i + ps[k].0.len() <= s.len() {
                ps[k].1 + replace_from(ps, s, i + ps[k].0.len())
            } else {
                Seq::empty()
            },
            None => seq![s[i]] + replace_from(ps, s, i + 1),
        }
    }
}

/// What the dictionary makes of a text: with one pattern, its occurrences
/// replaced from the left; with several, the text cut by the `regex` crate at
/// the matches of their regular expression and each match replaced by its
/// target (the text unchanged where the expression does not compile).
pub open spec fn apply_dictionary(input: Seq<char>, entries: Seq<Pattern>, aliases: Seq<Seq<char>>) -> Seq<char> {
    if input.len() == 0 || entries.len() == 0 {
        input
    } else {
        let ps = dict_patterns(entries, aliases);
        if ps.len() == 0 {
            input
        } else if ps.len() == 1 {
            replace_from(ps, input, 0)
        } else {
            match regex_split(dictionary_pattern(ps), input) {
                Some(pieces) => dictionary_splice(ps, pieces),
                None => input,
            }
        }
    }
}

/// The characters `regex::escape` puts a backslash before.
pub open spec fn is_regex_meta(c: char) -> bool {
    c == '\\' || c == '.' || c == '+' || c == '*' || c == '?' || c == '(' || c == ')' || c == '|'
        || c == '[' || c == ']' || c == '{' || c == '}' || c == '^' || c == '$' || c == '#' || c == '&'
        || c == '-' || c == '~'
}

/// `s` as a regular expression that matches it literally (`regex::escape`).
pub open spec fn regex_escaped(s: Seq<char>) -> Seq<char>
    decreases s.len(),
{
    if s.len() == 0 {
        s
    } else {
        let c = s.last();
        regex_escaped(s.drop_last()) + if is_regex_meta(c) {
            seq!['\\', c]
        } else {
            seq![c]
        }
    }
}

/// The pieces joined with `|` between them.
pub open spec fn join_bars(xs: Seq<Seq<char>>) -> Seq<char>
    decreases xs.len(),
{
    if xs.len() == 0 {
        Seq::empty()
    } else if xs.len() == 1 {
        xs[0]
    } else {
        join_bars(xs.drop_last()) + seq!['|'] + xs.last()
    }
}

/// `p` put into `s` before the first pattern shorter than it.
pub open spec fn insert_by_len(s: Seq<Pattern>, p: Pattern) -> Seq<Pattern>
    decreases s.len(),
{
    if s.len() == 0 {
        seq![p]
    } else if s[0].0.len() < p.0.len() {
        seq![p] + s
    } else {
        seq![s[0]] + insert_by_len(s.drop_first(), p)
    }
}

/// The patterns, longest first; patterns of one length keep their order.
pub open spec fn by_length(ps: Seq<Pattern>) -> Seq<Pattern>
    decreases ps.len(),
{
    if ps.len() == 0 {
        ps
    } else {
        insert_by_len(by_length(ps.drop_last()), ps.last())
    }
}

/// The regular expression that matches any of the patterns, the longest
/// tried first: `(?:p1|p2|...)` with each pattern escaped.
pub open spec fn dictionary_pattern(ps: Seq<Pattern>) -> Seq<char> {
    "(?:"@ + join_bars(by_length(ps).map_values(|p: Pattern| regex_escaped(p.0))) + ")"@
}

/// What a matched phrase is read as: the target of the first pattern with it
/// as its phrase, or the phrase itself.
pub open spec fn target_of(ps: Seq<Pattern>, m: Seq<char>) -> Seq<char>
    decreases ps.len(),
{
    if ps.len() == 0 {
        m
    } else if ps[0].0 == m {
        ps[0].1
    } else {
        target_of(ps.drop_first(), m)
    }
}

/// The whole match of a match's capture groups (group 0), or the empty text.
pub open spec fn whole_match(g: Seq<Option<Seq<char>>>) -> Seq<char> {
    if g.len() > 0 && g[0] is Some {
        g[0]->0
    } else {
        Seq::empty()
    }
}

/// The text put together from the pieces of a search: the text between
/// matches as it is, each match replaced by its target.
pub open spec fn dictionary_splice(ps: Seq<Pattern>, pieces: Seq<RegexPieceView>) -> Seq<char>
    decreases pieces.len(),
{
    if pieces.len() == 0 {
        Seq::empty()
    } else {
        dictionary_splice(ps, pieces.drop_last()) + match pieces.last() {
            RegexPieceView::Gap(t) => t,
            RegexPieceView::Hit(g) => target_of(ps, whole_match(g)),
        }
    }
}

pub open spec fn entries_view(v: Seq<(String, String)>) -> Seq<Pattern> {
    v.map_values(|e: (String, String)| (e.0@, e.1@))
}

proof fn lemma_longest_at_props(ps: Seq<Pattern>, s: Seq<char>, i: int)
    ensures
        longest_at(ps, s, i) matches Some(k) ==> 0 <= k < ps.len() && ps[k].0.len() > 0 && occurs_at(s, ps[k].0, i),
        longest_at(ps, s, i) is None ==> forall|k: int| 0 <= k < ps.len() && ps[k].0.len() > 0 ==> !occurs_at(s, #[trigger] ps[k].0, i),
    decreases ps.len(),
{
    if ps.len() > 0 {
        lemma_longest_at_props(ps.drop_last(), s, i);
        let d = ps.drop_last();
        if longest_at(ps, s, i) is None {
            assert forall|k: int| 0 <= k < ps.len() && ps[k].0.len() > 0 implies !occurs_at(s, #[trigger] ps[k].0, i) by {
                if k < ps.len() - 1 {
                    assert(d[k] == ps[k]);
                    assert(d[k].0.len() > 0);
                }
            }
        }
        match longest_at(d, s, i) {
            Some(k) => {
                assert(d[k] == ps[k]);
            },
            None => {},
        }
    }
}

fn key_present(pats: &Vec<(Vec<char>, Vec<char>)>, key: &Vec<char>) -> (r: bool)
    ensures
        r == pattern_keys(pats@.map_values(|p: (Vec<char>, Vec<char>)| (p.0@, p.1@))).contains(key@),
{
    let ghost pv = pats@.map_values(|p: (Vec<char>, Vec<char>)| (p.0@, p.1@));
    let mut i: usize = 0;
    while i < pats.len()
        invariant
            i <= pats.len(),
            pv == pats@.map_values(|p: (Vec<char>, Vec<char>)| (p.0@, p.1@)),
            forall|j: int| 0 <= j < i ==> pats@[j].0@ != key@,
        decreases pats.len() - i,
    {
        if chars_eq(&pats[i].0, key) {
            assert(pattern_keys(pv)[i as int] == key@);
            return true;
        }
        i = i + 1;
    }
    assert forall|j: int| 0 <= j < pattern_keys(pv).len() implies pattern_keys(pv)[j] != key@ by {
        assert(pattern_keys(pv)[j] == pats@[j].0@);
    }
    false
}

fn clone_chars(v: &Vec<char>) -> (r: Vec<char>)
    ensures
        r@ == v@,
{
    crate::text::slice_chars(v, 0, v.len())
}

fn build_patterns(entries: &Vec<(String, String)>, aliases: &Vec<String>) -> (r: Vec<(Vec<char>, Vec<char>)>)
    requires
        aliases.len() == entries.len(),
    ensures
        r@.map_values(|p: (Vec<char>, Vec<char>)| (p.0@, p.1@)) == dict_patterns(
            entries_view(entries@),
            aliases@.map_values(|s: String| s@),
        ),
{
    let ghost ev = entries_view(entries@);
    let ghost av = aliases@.map_values(|s: String| s@);
    let mut pats: Vec<(Vec<char>, Vec<char>)> = Vec::new();
    let mut i: usize = 0;
    assert(pats@.map_values(|p: (Vec<char>, Vec<char>)| (p.0@, p.1@)) =~= Seq::<Pattern>::empty());
    assert(ev.subrange(0, 0) =~= Seq::<Pattern>::empty());
    while i < entries.len()
        invariant
            i <= entries.len(),
            aliases.len() == entries.len(),
            ev == entries_view(entries@),
            av == aliases@.map_values(|s: String| s@),
            pats@.map_values(|p: (Vec<char>, Vec<char>)| (p.0@, p.1@)) == dict_patterns(
                ev.subrange(0, i as int),
                av,
            ),
        decreases entries.len() - i,
    {
        let ghost pre = ev.subrange(0, i as int);
        let ghost nxt = ev.subrange(0, i + 1);
        assert(nxt.drop_last() =~= pre);
        assert(nxt[i as int] == (entries@[i as int].0@, entries@[i as int].1@));
        let ghost before = pats@.map_values(|p: (Vec<char>, Vec<char>)| (p.0@, p.1@));
        let src = trim_chars(&str_to_chars(entries[i].0.as_str()));
        let tgt = trim_chars(&str_to_chars(entries[i].1.as_str()));
        if src.len() > 0 && tgt.len() > 0 {
            if !key_present(&pats, &src) {
                pats.push((clone_chars(&src), clone_chars(&tgt)));
                assert(pats@.map_values(|p: (Vec<char>, Vec<char>)| (p.0@, p.1@)) =~= before.push(
                    (src@, tgt@),
                ));
            }
            let ghost p1 = pats@.map_values(|p: (Vec<char>, Vec<char>)| (p.0@, p.1@));
            let alias = str_to_chars(aliases[i].as_str());
            if has_alpha(&src) && alias.len() > 0 && !chars_eq(&alias, &src) && !key_present(
                &pats,
                &alias,
            ) {
                pats.push((alias, clone_chars(&tgt)));
                assert(pats@.map_values(|p: (Vec<char>, Vec<char>)| (p.0@, p.1@)) =~= p1.push(
                    (av[i as int], tgt@),
                ));
            }
        }
        i = i + 1;
    }
    assert(ev.subrange(0, entries.len() as int) =~= ev);
    pats
}

fn has_alpha(s: &Vec<char>) -> (r: bool)
    ensures
        r == has_ascii_alpha(s@),
{
    let mut i: usize = 0;
    while i < s.len()
        invariant
            i <= s.len(),
            forall|k: int| 0 <= k < i ==> !crate::text::is_ascii_alpha(#[trigger] s@[k]),
        decreases s.len() - i,
    {
        if (s[i] >= 'A' && s[i] <= 'Z') || (s[i] >= 'a' && s[i] <= 'z') {
            return true;
        }
        i = i + 1;
    }
    false
}

fn find_longest(pats: &Vec<(Vec<char>, Vec<char>)>, s: &Vec<char>, i: usize) -> (r: Option<usize>)
    ensures
        match r {
            Some(k) => longest_at(pats@.map_values(|p: (Vec<char>, Vec<char>)| (p.0@, p.1@)), s@, i as int) == Some(k as int),
            None => longest_at(pats@.map_values(|p: (Vec<char>, Vec<char>)| (p.0@, p.1@)), s@, i as int) is None,
        },
{
    let ghost pv = pats@.map_values(|p: (Vec<char>, Vec<char>)| (p.0@, p.1@));
    let mut best: Option<usize> = None;
    let mut k: usize = 0;
    while k < pats.len()
        invariant
            k <= pats.len(),
            pv == pats@.map_values(|p: (Vec<char>, Vec<char>)| (p.0@, p.1@)),
            match best {
                Some(b) => b < k && longest_at(pv.subrange(0, k as int), s@, i as int) == Some(b as int),
                None => longest_at(pv.subrange(0, k as int), s@, i as int) is None,
            },
        decreases pats.len() - k,
    {
        let ghost pre = pv.subrange(0, k as int);
        let ghost nxt = pv.subrange(0, k + 1);
        assert(nxt.drop_last() =~= pre);
        assert(nxt[k as int] == pv[k as int]);
        let plen = pats[k].0.len();
        if plen > 0 && occurs_at_exec(s, &pats[k].0, i) {
            let better = match best {
                None => true,
                Some(b) => {
                    assert(nxt[b as int] == pv[b as int]);
                    plen > pats[b].0.len()
                },
            };
            if better {
                best = Some(k);
            }
        }
        proof {
            match best {
                Some(b) => {
                    if b < k {
                        assert(nxt[b as int] == pre[b as int]);
                    }
                },
                None => {},
            }
        }
        k = k + 1;
    }
    assert(pv.subrange(0, pats.len() as int) =~= pv);
    best
}

pub open spec fn pats_view(v: Seq<(Vec<char>, Vec<char>)>) -> Seq<Pattern> {
    v.map_values(|p: (Vec<char>, Vec<char>)| (p.0@, p.1@))
}

fn regex_meta(c: char) -> (r: bool)
    ensures
        r == is_regex_meta(c),
{
    c == '\\' || c == '.' || c == '+' || c == '*' || c == '?' || c == '(' || c == ')' || c == '|'
        || c == '[' || c == ']' || c == '{' || c == '}' || c == '^' || c == '$' || c == '#' || c == '&'
        || c == '-' || c == '~'
}

/// Appends `s` escaped as `regex::escape` escapes it.
fn push_escaped(out: &mut Vec<char>, s: &Vec<char>)
    ensures
        final(out)@ == old(out)@ + regex_escaped(s@),
{
    let mut i: usize = 0;
    while i < s.len()
        invariant
            i <= s.len(),
            out@ == old(out)@ + regex_escaped(s@.subrange(0, i as int)),
        decreases s.len() - i,
    {
        let ghost pre = s@.subrange(0, i as int);
        let ghost next = s@.subrange(0, i + 1);
        assert(next.drop_last() =~= pre);
        let c = s[i];
        if regex_meta(c) {
            out.push('\\');
            out.push(c);
            assert(out@ =~= old(out)@ + regex_escaped(next));
        } else {
            out.push(c);
            assert(out@ =~= old(out)@ + regex_escaped(next));
        }
        i = i + 1;
    }
    assert(s@.subrange(0, s.len() as int) =~= s@);
}

proof fn lemma_insert_by_len_at(s: Seq<Pattern>, p: Pattern, j: int)
    requires
        0 <= j <= s.len(),
        forall|k: int| 0 <= k < j ==> (#[trigger] s[k]).0.len() >= p.0.len(),
        j < s.len() ==> s[j].0.len() < p.0.len(),
    ensures
        insert_by_len(s, p) == s.insert(j, p),
    decreases j,
{
    if s.len() == 0 {
        assert(s.insert(j, p) =~= seq![p]);
    } else if j == 0 {
        assert(s.insert(0, p) =~= seq![p] + s);
    } else {
        let t = s.drop_first();
        assert forall|k: int| 0 <= k < j - 1 implies (#[trigger] t[k]).0.len() >= p.0.len() by {
            assert(t[k] == s[k + 1]);
        }
        if j - 1 < t.len() {
            assert(t[j - 1] == s[j]);
        }
        lemma_insert_by_len_at(t, p, j - 1);
        assert(seq![s[0]] + t.insert(j - 1, p) =~= s.insert(j, p));
    }
}

/// Puts `p` before the first pattern of `sorted` that is shorter than it.
fn insert_by_length(sorted: &mut Vec<(Vec<char>, Vec<char>)>, p: (Vec<char>, Vec<char>))
    ensures
        pats_view(final(sorted)@) == insert_by_len(pats_view(old(sorted)@), (p.0@, p.1@)),
{
    let ghost sv = pats_view(sorted@);
    let ghost pp = (p.0@, p.1@);
    let n = p.0.len();
    let mut j: usize = 0;
    while j < sorted.len() && sorted[j].0.len() >= n
        invariant
            j <= sorted@.len(),
            sv == pats_view(sorted@),
            n == pp.0.len(),
            forall|k: int| 0 <= k < j ==> (#[trigger] sv[k]).0.len() >= pp.0.len(),
        decreases sorted@.len() - j,
    {
        j = j + 1;
    }
    proof {
        lemma_insert_by_len_at(sv, pp, j as int);
    }
    sorted.insert(j, p);
    assert(pats_view(sorted@) =~= sv.insert(j as int, pp));
}

/// The patterns, longest first, patterns of one length in their order.
fn sort_by_length(pats: &Vec<(Vec<char>, Vec<char>)>) -> (r: Vec<(Vec<char>, Vec<char>)>)
    ensures
        pats_view(r@) == by_length(pats_view(pats@)),
{
    let ghost pv = pats_view(pats@);
    let mut r: Vec<(Vec<char>, Vec<char>)> = Vec::new();
    let mut i: usize = 0;
    assert(pv.subrange(0, 0) =~= Seq::<Pattern>::empty());
    assert(pats_view(r@) =~= Seq::<Pattern>::empty());
    while i < pats.len()
        invariant
            i <= pats@.len(),
            pv == pats_view(pats@),
            pats_view(r@) == by_length(pv.subrange(0, i as int)),
        decreases pats@.len() - i,
    {
        let ghost next = pv.subrange(0, i + 1);
        assert(next.drop_last() =~= pv.subrange(0, i as int));
        let p = (clone_chars(&pats[i].0), clone_chars(&pats[i].1));
        insert_by_length(&mut r, p);
        i = i + 1;
    }
    assert(pv.subrange(0, pats@.len() as int) =~= pv);
    r
}

/// The regular expression of the patterns, as `dictionary_pattern` says.
fn build_dictionary_pattern(pats: &Vec<(Vec<char>, Vec<char>)>) -> (r: String)
    ensures
        r@ == dictionary_pattern(pats_view(pats@)),
{
    let sorted = sort_by_length(pats);
    let ghost esc = by_length(pats_view(pats@)).map_values(|p: Pattern| regex_escaped(p.0));
    let mut out = str_to_chars("(?:");
    let ghost head = out@;
    let mut i: usize = 0;
    assert(esc.subrange(0, 0) =~= Seq::<Seq<char>>::empty());
    assert(out@ =~= head + join_bars(esc.subrange(0, 0)));
    while i < sorted.len()
        invariant
            i <= sorted@.len(),
            esc.len() == sorted@.len(),
            esc == pats_view(sorted@).map_values(|p: Pattern| regex_escaped(p.0)),
            head == "(?:"@,
            out@ == head + join_bars(esc.subrange(0, i as int)),
        decreases sorted@.len() - i,
    {
        let ghost pre = esc.subrange(0, i as int);
        let ghost next = esc.subrange(0, i + 1);
        assert(next.drop_last() =~= pre);
        assert(next.last() == regex_escaped(sorted@[i as int].0@));
        if i > 0 {
            out.push('|');
        }
        push_escaped(&mut out, &sorted[i].0);
        assert(out@ =~= head + join_bars(next));
        i = i + 1;
    }
    assert(esc.subrange(0, sorted@.len() as int) =~= esc);
    let close = str_to_chars(")");
    extend_chars(&mut out, &close);
    chars_to_string(&out)
}

/// The target of a matched phrase, as `target_of` says.
fn find_target(pats: &Vec<(Vec<char>, Vec<char>)>, m: &Vec<char>) -> (r: Vec<char>)
    ensures
        r@ == target_of(pats_view(pats@), m@),
{
    let ghost pv = pats_view(pats@);
    let mut i: usize = 0;
    assert(pv.subrange(0, pv.len() as int) =~= pv);
    while i < pats.len()
        invariant
            i <= pats@.len(),
            pv == pats_view(pats@),
            target_of(pv, m@) == target_of(pv.subrange(i as int, pv.len() as int), m@),
        decreases pats@.len() - i,
    {
        let ghost rest = pv.subrange(i as int, pv.len() as int);
        assert(rest.drop_first() =~= pv.subrange(i + 1, pv.len() as int));
        assert(rest[0] == pv[i as int]);
        if chars_eq(&pats[i].0, m) {
            return clone_chars(&pats[i].1);
        }
        i = i + 1;
    }
    clone_chars(m)
}

fn splice_pieces(pats: &Vec<(Vec<char>, Vec<char>)>, pieces: &Vec<RegexPiece>) -> (r: Vec<char>)
    ensures
        r@ == dictionary_splice(pats_view(pats@), regex_pieces_view(pieces@)),
{
    let ghost pv = pats_view(pats@);
    let ghost vs = regex_pieces_view(pieces@);
    let mut out: Vec<char> = Vec::new();
    let mut i: usize = 0;
    assert(vs.subrange(0, 0) =~= Seq::<RegexPieceView>::empty());
    while i < pieces.len()
        invariant
            i <= pieces@.len(),
            pv == pats_view(pats@),
            vs == regex_pieces_view(pieces@),
            out@ == dictionary_splice(pv, vs.subrange(0, i as int)),
        decreases pieces@.len() - i,
    {
        let ghost next = vs.subrange(0, i + 1);
        assert(next.drop_last() =~= vs.subrange(0, i as int));
        assert(next.last() == pieces@[i as int]@);
        match &pieces[i] {
            RegexPiece::Gap(t) => {
                let tc = str_to_chars(t.as_str());
                extend_chars(&mut out, &tc);
            },
            RegexPiece::Hit(g) => {
                let m: Vec<char> = if g.len() > 0 {
                    match &g[0] {
                        Some(w) => str_to_chars(w.as_str()),
                        None => Vec::new(),
                    }
                } else {
                    Vec::new()
                };
                assert(m@ == whole_match(crate::markup::groups_view(g@)));
                let t = find_target(pats, &m);
                extend_chars(&mut out, &t);
            },
        }
        i = i + 1;
    }
    assert(vs.subrange(0, pieces@.len() as int) =~= vs);
    out
}

/// What the dictionary of `entries` and `aliases` makes of the pieces a
/// search with its regular expression cut a text into.
pub fn splice_dictionary(entries: &Vec<(String, String)>, aliases: &Vec<String>, pieces: &Vec<RegexPiece>) -> (r: String)
    requires
        aliases.len() == entries.len(),
    ensures
        r@ == dictionary_splice(
            dict_patterns(entries_view(entries@), aliases@.map_values(|s: String| s@)),
            regex_pieces_view(pieces@),
        ),
{
    let pats = build_patterns(entries, aliases);
    let out = splice_pieces(&pats, pieces);
    chars_to_string(&out)
}

/// The regular expression the dictionary of `entries` and `aliases` searches
/// a text with.
pub fn dictionary_regex(entries: &Vec<(String, String)>, aliases: &Vec<String>) -> (r: String)
    requires
        aliases.len() == entries.len(),
    ensures
        r@ == dictionary_pattern(dict_patterns(entries_view(entries@), aliases@.map_values(|s: String| s@))),
{
    let pats = build_patterns(entries, aliases);
    build_dictionary_pattern(&pats)
}

/// Applies the reading dictionary of a channel to a text. `entries` holds the
/// (source, target) phrases in registration order and `aliases[k]` the kana
/// reading of the trimmed source of entry `k`.
pub fn apply_tts_dictionary(input: &str, entries: &Vec<(String, String)>, aliases: &Vec<String>) -> (r: String)
    requires
        aliases.len() == entries.len(),
    ensures
        r@ == apply_dictionary(input@, entries_view(entries@), aliases@.map_values(|s: String| s@)),
{
    let s = str_to_chars(input);
    if s.len() == 0 || entries.len() == 0 {
        return chars_to_string(&s);
    }
    let pats = build_patterns(entries, aliases);
    let ghost pv = pats@.map_values(|p: (Vec<char>, Vec<char>)| (p.0@, p.1@));
    if pats.len() == 0 {
        return chars_to_string(&s);
    }
    if pats.len() > 1 {
        let pattern = build_dictionary_pattern(&pats);
        return match regex_pieces(pattern.as_str(), input) {
            Some(pieces) => {
                let out = splice_pieces(&pats, &pieces);
                chars_to_string(&out)
            },
            None => chars_to_string(&s),
        };
    }
    let mut out: Vec<char> = Vec::new();
    let mut i: usize = 0;
    while i < s.len()
        invariant
            i <= s.len(),
            pv == pats@.map_values(|p: (Vec<char>, Vec<char>)| (p.0@, p.1@)),
            out@ + replace_from(pv, s@, i as int) == replace_from(pv, s@, 0),
        decreases s.len() - i,
    {
        proof {
            lemma_longest_at_props(pv, s@, i as int);
        }
        match find_longest(&pats, &s, i) {
            Some(k) => {
                assert(pv[k as int] == (pats@[k as int].0@, pats@[k as int].1@));
                extend_chars(&mut out, &pats[k].1);
                i = i + pats[k].0.len();
            },
            None => {
                out.push(s[i]);
                i = i + 1;
            },
        }
    }
    assert(out@ + Seq::<char>::empty() =~= out@);
    chars_to_string(&out)
}

proof fn lemma_single_longest_at(p: Seq<char>, t: Seq<char>, s: Seq<char>, i: int)
    requires
        p.len() > 0,
    ensures
        longest_at(seq![(p, t)], s, i) == (if occurs_at(s, p, i) {
            Some(0int)
        } else {
            None::<int>
        }),
{
    let ps = seq![(p, t)];
    assert(ps.drop_last() =~= Seq::<Pattern>::empty());
    assert(longest_at(ps.drop_last(), s, i) is None);
    assert(ps[ps.len() - 1] == (p, t));
}

proof fn lemma_occurs_shift(a: Seq<char>, b: Seq<char>, p: Seq<char>, i: int)
    requires
        0 <= i,
    ensures
        occurs_at(a + b, p, a.len() + i) == occurs_at(b, p, i),
{
    if a.len() + i + p.len() <= (a + b).len() {
        assert((a + b).subrange(a.len() + i, a.len() + i + p.len()) =~= b.subrange(i, i + p.len()));
    }
}

/// With one pattern, the text after a prefix is rewritten as it would be on
/// its own.
proof fn lemma_single_replace_shift(p: Seq<char>, t: Seq<char>, a: Seq<char>, b: Seq<char>, i: int)
    requires
        p.len() > 0,
        0 <= i,
    ensures
        replace_from(seq![(p, t)], a + b, a.len() + i) == replace_from(seq![(p, t)], b, i),
    decreases b.len() - i,
{
    let ps = seq![(p, t)];
    assert(ps[0] == (p, t));
    if i < b.len() {
        lemma_single_longest_at(p, t, a + b, a.len() + i);
        lemma_single_longest_at(p, t, b, i);
        lemma_occurs_shift(a, b, p, i);
        assert((a + b)[a.len() + i] == b[i]);
        if occurs_at(b, p, i) {
            lemma_single_replace_shift(p, t, a, b, i + p.len());
        } else {
            lemma_single_replace_shift(p, t, a, b, i + 1);
        }
    }
}

/// The dictionary of the one entry `(p, t)` has the one pattern `(p, t)`.
proof fn lemma_single_entry_patterns(p: Seq<char>, t: Seq<char>)
    requires
        p.len() > 0,
        trim(p) == p,
        t.len() > 0,
        trim(t) == t,
    ensures
        dict_patterns(seq![(p, t)], seq![p]) == seq![(p, t)],
{
    let es = seq![(p, t)];
    assert(es.drop_last() =~= Seq::<Pattern>::empty());
    assert(pattern_keys(Seq::<Pattern>::empty()) =~= Seq::<Seq<char>>::empty());
    assert(dict_patterns(es.drop_last(), seq![p]) == Seq::<Pattern>::empty());
    assert(Seq::<Pattern>::empty().push((p, t)) =~= seq![(p, t)]);
}

/// Law: a dictionary of one phrase `p` read as `t` replaces every occurrence
/// of `p`, scanning from the left: a text that starts with `p` is `t`
/// followed by the rest rewritten the same way, and a text that does not
/// start with `p` keeps its first character and rewrites the rest.
pub proof fn lemma_single_phrase_replaced_everywhere(p: Seq<char>, t: Seq<char>, c: char, rest: Seq<char>)
    requires
        p.len() > 0,
        trim(p) == p,
        t.len() > 0,
        trim(t) == t,
    ensures
        apply_dictionary(p + rest, seq![(p, t)], seq![p]) == t + apply_dictionary(rest, seq![(p, t)], seq![p]),
        !occurs_at(seq![c] + rest, p, 0) ==> apply_dictionary(seq![c] + rest, seq![(p, t)], seq![p]) == seq![c]
            + apply_dictionary(rest, seq![(p, t)], seq![p]),
{
    let ps = seq![(p, t)];
    lemma_single_entry_patterns(p, t);
    assert(ps.len() == 1);
    assert(ps[0] == (p, t));
    // the rest on its own
    if rest.len() == 0 {
        assert(replace_from(ps, rest, 0) == Seq::<char>::empty());
    }
    assert(apply_dictionary(rest, seq![(p, t)], seq![p]) == replace_from(ps, rest, 0));
    // p + rest
    let s1 = p + rest;
    lemma_single_longest_at(p, t, s1, 0);
    assert(s1.subrange(0, p.len() as int) =~= p);
    assert(occurs_at(s1, p, 0));
    lemma_single_replace_shift(p, t, p, rest, 0);
    assert(replace_from(ps, s1, 0) == t + replace_from(ps, s1, p.len() as int));
    // c + rest
    let s2 = seq![c] + rest;
    if !occurs_at(s2, p, 0) {
        lemma_single_longest_at(p, t, s2, 0);
        lemma_single_replace_shift(p, t, seq![c], rest, 0);
        assert(s2[0] == c);
        assert(replace_from(ps, s2, 0) == seq![c] + replace_from(ps, s2, 1));
    }
}

} // verus!
