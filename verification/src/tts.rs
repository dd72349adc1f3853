//! Text-to-speech text shaping: whitespace folding, decimal-point reading,
//! removal of symbols that break phrase heads, total-length cut and the
//! split into segments short enough for synthesis.
use vstd::prelude::*;
use vstd::string::*;
use crate::text::{chars_to_string, extend_str, is_whitespace, is_ws, str_to_chars, trim, trim_chars, trim_end, lemma_trim_end_take, is_ascii_digit, is_ascii_alnum};

verus! {

/// Segments are cut at a space once they reach this many characters.
pub const TTS_SEGMENT_SOFT_LIMIT: usize = 36;

/// Segments are cut unconditionally at this many characters.
pub const TTS_SEGMENT_HARD_LIMIT: usize = 60;

/// Speech text longer than this many characters is cut.
pub const TTS_MAX_TOTAL_CHARS: usize = 200;

/// A character after which a segment ends.
pub open spec fn is_sentence_boundary(c: char) -> bool {
    c == '。' || c == '！' || c == '？' || c == '!' || c == '?' || c == '、' || c == ',' || c == '，'
        || c == '．' || c == '.' || c == '；' || c == ';' || c == '：' || c == ':'
}

fn sentence_boundary(c: char) -> (r: bool)
    ensures
        r == is_sentence_boundary(c),
{
    c == '。' || c == '！' || c == '？' || c == '!' || c == '?' || c == '、' || c == ',' || c == '，'
        || c == '．' || c == '.' || c == '；' || c == ';' || c == '：' || c == ':'
}

/// The state of the segment splitter: finished segments and the characters
/// gathered since the last cut.
pub struct SegState {
    pub segments: Seq<Seq<char>>,
    pub current: Seq<char>,
}

/// Ends the current segment: it is kept, trimmed, unless it is blank.
pub open spec fn seg_flush(st: SegState) -> SegState {
    let c = trim(st.current);
    SegState {
        segments: if c.len() > 0 {
            st.segments.push(c)
        } else {
            st.segments
        },
        current: Seq::empty(),
    }
}

/// One character fed to the splitter.
pub open spec fn seg_step(st: SegState, ch: char) -> SegState {
    if ch == '\n' || ch == '\r' {
        seg_flush(st)
    } else {
        let cur = st.current.push(ch);
        let next = SegState { segments: st.segments, current: cur };
        if is_sentence_boundary(ch) || ((ch == ' ' || ch == '\u{3000}') && cur.len()
            >= TTS_SEGMENT_SOFT_LIMIT) || cur.len() >= TTS_SEGMENT_HARD_LIMIT {
            seg_flush(next)
        } else {
            next
        }
    }
}

pub open spec fn seg_run(s: Seq<char>) -> SegState
    decreases s.len(),
{
    if s.len() == 0 {
        SegState { segments: Seq::empty(), current: Seq::empty() }
    } else {
        seg_step(seg_run(s.drop_last()), s.last())
    }
}

/// The segments of a speech text: the trimmed text is cut after sentence
/// punctuation, at line breaks, at a space once a segment has reached the soft
/// limit, and at the hard limit; blank pieces are dropped and the others
/// trimmed.
pub open spec fn tts_segments(input: Seq<char>) -> Seq<Seq<char>> {
    let t = trim(input);
    if t.len() == 0 {
        Seq::empty()
    } else {
        seg_flush(seg_run(t)).segments
    }
}

/// Every segment is non-blank, trimmed and at most the hard limit long.
pub open spec fn segments_well_formed(segs: Seq<Seq<char>>) -> bool {
    forall|k: int|
        0 <= k < segs.len() ==> {
            &&& (#[trigger] segs[k]).len() > 0
            &&& trim(segs[k]) == segs[k]
            &&& segs[k].len() <= TTS_SEGMENT_HARD_LIMIT
        }
}

proof fn lemma_trim_idempotent(s: Seq<char>)
    ensures
        trim(trim(s)) == trim(s),
        trim(s).len() <= s.len(),
{
    lemma_trim_start_len(s);
    lemma_trim_start_idem(s);
    lemma_trim_end_len(crate::text::trim_start(s));
    let t = trim(s);
    // t starts and ends with a non-blank character, or is empty
    lemma_trim_shape(s);
    if t.len() > 0 {
        lemma_trim_start_noop(t);
        lemma_trim_end_noop(t);
    }
}

proof fn lemma_trim_start_len(s: Seq<char>)
    ensures
        crate::text::trim_start(s).len() <= s.len(),
        crate::text::trim_start(s).len() > 0 ==> !is_ws(crate::text::trim_start(s)[0]),
    decreases s.len(),
{
    if s.len() > 0 && is_ws(s[0]) {
        lemma_trim_start_len(s.drop_first());
    }
}

proof fn lemma_trim_start_idem(s: Seq<char>)
    ensures
        crate::text::trim_start(crate::text::trim_start(s)) == crate::text::trim_start(s),
{
    lemma_trim_start_len(s);
}

proof fn lemma_trim_end_len(s: Seq<char>)
    ensures
        trim_end(s).len() <= s.len(),
        trim_end(s) == s.subrange(0, trim_end(s).len() as int),
        trim_end(s).len() > 0 ==> !is_ws(trim_end(s).last()),
    decreases s.len(),
{
    if s.len() > 0 && is_ws(s.last()) {
        lemma_trim_end_len(s.drop_last());
        let t = trim_end(s.drop_last());
        assert(s.drop_last().subrange(0, t.len() as int) =~= s.subrange(0, t.len() as int));
    } else {
        assert(s.subrange(0, s.len() as int) =~= s);
    }
}

proof fn lemma_trim_shape(s: Seq<char>)
    ensures
        trim(s).len() > 0 ==> !is_ws(trim(s)[0]) && !is_ws(trim(s).last()),
{
    let a = crate::text::trim_start(s);
    lemma_trim_start_len(s);
    lemma_trim_end_len(a);
    let t = trim_end(a);
    if t.len() > 0 {
        assert(t[0] == a[0]);
    }
}

proof fn lemma_trim_start_noop(t: Seq<char>)
    requires
        t.len() > 0 ==> !is_ws(t[0]),
    ensures
        crate::text::trim_start(t) == t,
{
}

proof fn lemma_trim_end_noop(t: Seq<char>)
    requires
        t.len() > 0 ==> !is_ws(t.last()),
    ensures
        trim_end(t) == t,
{
}

/// The splitter only ever keeps well-formed segments, and its current piece
/// stays under the hard limit.
proof fn lemma_seg_run_wf(s: Seq<char>)
    ensures
        segments_well_formed(seg_run(s).segments),
        seg_run(s).current.len() < TTS_SEGMENT_HARD_LIMIT,
    decreases s.len(),
{
    if s.len() > 0 {
        lemma_seg_run_wf(s.drop_last());
        let st = seg_run(s.drop_last());
        let ch = s.last();
        let cur = st.current.push(ch);
        lemma_flush_wf(st);
        lemma_flush_wf(SegState { segments: st.segments, current: cur });
    }
}

proof fn lemma_flush_wf(st: SegState)
    requires
        segments_well_formed(st.segments),
        st.current.len() <= TTS_SEGMENT_HARD_LIMIT,
    ensures
        segments_well_formed(seg_flush(st).segments),
        seg_flush(st).current.len() == 0,
{
    let c = trim(st.current);
    lemma_trim_idempotent(st.current);
    if c.len() > 0 {
        let segs = st.segments.push(c);
        assert forall|k: int| 0 <= k < segs.len() implies {
            &&& (#[trigger] segs[k]).len() > 0
            &&& trim(segs[k]) == segs[k]
            &&& segs[k].len() <= TTS_SEGMENT_HARD_LIMIT
        } by {
            if k < st.segments.len() {
                assert(segs[k] == st.segments[k]);
            }
        }
    }
}

/// Law: every segment of a speech text is non-blank, trimmed and no longer
/// than the hard limit.
pub proof fn lemma_tts_segments_well_formed(input: Seq<char>)
    ensures
        segments_well_formed(tts_segments(input)),
{
    let t = trim(input);
    if t.len() > 0 {
        lemma_seg_run_wf(t);
        lemma_flush_wf(seg_run(t));
    }
}

/// Whether the splitter cuts after `c` when it makes the current piece `n`
/// characters long.
pub open spec fn seg_cut(c: char, n: int) -> bool {
    is_sentence_boundary(c) || ((c == ' ' || c == '\u{3000}') && n >= TTS_SEGMENT_SOFT_LIMIT)
        || n >= TTS_SEGMENT_HARD_LIMIT
}

/// No line break in `s`, and no cut after any of its first `n` characters.
pub open spec fn uncut(s: Seq<char>, n: int) -> bool {
    &&& forall|j: int| 0 <= j < s.len() ==> #[trigger] s[j] != '\n' && s[j] != '\r'
    &&& forall|j: int| 0 <= j < n ==> !seg_cut(#[trigger] s[j], j + 1)
}

proof fn lemma_uncut_trim_start(s: Seq<char>)
    requires
        uncut(s, s.len() - 1),
    ensures
        uncut(crate::text::trim_start(s), crate::text::trim_start(s).len() - 1),
    decreases s.len(),
{
    if s.len() > 0 && is_ws(s[0]) {
        let t = s.drop_first();
        assert forall|j: int| 0 <= j < t.len() - 1 implies !seg_cut(#[trigger] t[j], j + 1) by {
            assert(t[j] == s[j + 1]);
            assert(!seg_cut(s[j + 1], j + 2));
        }
        assert forall|j: int| 0 <= j < t.len() implies #[trigger] t[j] != '\n' && t[j] != '\r' by {
            assert(t[j] == s[j + 1]);
        }
        lemma_uncut_trim_start(t);
    }
}

proof fn lemma_uncut_trim_end(s: Seq<char>)
    requires
        uncut(s, s.len() - 1),
    ensures
        uncut(trim_end(s), trim_end(s).len() - 1),
    decreases s.len(),
{
    if s.len() > 0 && is_ws(s.last()) {
        let t = s.drop_last();
        assert forall|j: int| 0 <= j < t.len() - 1 implies !seg_cut(#[trigger] t[j], j + 1) by {
            assert(t[j] == s[j]);
        }
        assert forall|j: int| 0 <= j < t.len() implies #[trigger] t[j] != '\n' && t[j] != '\r' by {
            assert(t[j] == s[j]);
        }
        lemma_uncut_trim_end(t);
    }
}

/// The pieces the splitter keeps have no cut before their last character, and
/// its current piece has none at all.
proof fn lemma_seg_run_uncut(s: Seq<char>)
    ensures
        forall|k: int|
            0 <= k < seg_run(s).segments.len() ==> uncut(
                #[trigger] seg_run(s).segments[k],
                seg_run(s).segments[k].len() - 1,
            ),
        uncut(seg_run(s).current, seg_run(s).current.len() as int),
    decreases s.len(),
{
    if s.len() > 0 {
        lemma_seg_run_uncut(s.drop_last());
        let st = seg_run(s.drop_last());
        let ch = s.last();
        let cur = st.current.push(ch);
        if ch == '\n' || ch == '\r' {
            lemma_flush_uncut(st);
        } else {
            assert forall|j: int| 0 <= j < cur.len() implies #[trigger] cur[j] != '\n' && cur[j] != '\r' by {
                if j < st.current.len() {
                    assert(cur[j] == st.current[j]);
                }
            }
            assert forall|j: int| 0 <= j < cur.len() - 1 implies !seg_cut(#[trigger] cur[j], j + 1) by {
                assert(cur[j] == st.current[j]);
            }
            let next = SegState { segments: st.segments, current: cur };
            if seg_cut(ch, cur.len() as int) {
                lemma_flush_uncut(next);
            } else {
                assert forall|j: int| 0 <= j < cur.len() implies !seg_cut(#[trigger] cur[j], j + 1) by {
                    if j < st.current.len() {
                        assert(cur[j] == st.current[j]);
                    }
                }
            }
        }
    }
}

proof fn lemma_flush_uncut(st: SegState)
    requires
        forall|k: int| 0 <= k < st.segments.len() ==> uncut(#[trigger] st.segments[k], st.segments[k].len() - 1),
        uncut(st.current, st.current.len() - 1),
    ensures
        forall|k: int|
            0 <= k < seg_flush(st).segments.len() ==> uncut(
                #[trigger] seg_flush(st).segments[k],
                seg_flush(st).segments[k].len() - 1,
            ),
        seg_flush(st).current.len() == 0,
{
    lemma_uncut_trim_start(st.current);
    lemma_uncut_trim_end(crate::text::trim_start(st.current));
    let c = trim(st.current);
    if c.len() > 0 {
        let segs = st.segments.push(c);
        assert forall|k: int| 0 <= k < segs.len() implies uncut(#[trigger] segs[k], segs[k].len() - 1) by {
            if k < st.segments.len() {
                assert(segs[k] == st.segments[k]);
            }
        }
    }
}

/// Feeding the splitter a trimmed piece with no cut before its last
/// character keeps it whole.
proof fn lemma_seg_run_prefix(s: Seq<char>, k: int)
    requires
        0 <= k < s.len(),
        uncut(s, s.len() - 1),
    ensures
        seg_run(s.subrange(0, k)) == (SegState { segments: Seq::empty(), current: s.subrange(0, k) }),
    decreases k,
{
    if k == 0 {
        assert(s.subrange(0, 0) =~= Seq::<char>::empty());
    } else {
        let p = s.subrange(0, k);
        assert(p.drop_last() =~= s.subrange(0, k - 1));
        lemma_seg_run_prefix(s, k - 1);
        assert(p.last() == s[k - 1]);
        assert(!seg_cut(s[k - 1], k));
        assert(s.subrange(0, k - 1).push(s[k - 1]) =~= p);
    }
}

/// Law: splitting a segment of a speech text again gives back that segment
/// alone.
pub proof fn lemma_tts_segments_resplit(input: Seq<char>, k: int)
    requires
        0 <= k < tts_segments(input).len(),
    ensures
        tts_segments(tts_segments(input)[k]) == seq![tts_segments(input)[k]],
{
    let t = trim(input);
    lemma_tts_segments_well_formed(input);
    lemma_seg_run_uncut(t);
    lemma_flush_uncut(seg_run(t));
    let s = tts_segments(input)[k];
    assert(uncut(s, s.len() - 1));
    assert(trim(s) == s && s.len() > 0);
    let n = s.len() - 1;
    lemma_seg_run_prefix(s, n);
    assert(s.drop_last() =~= s.subrange(0, n));
    assert(s.subrange(0, n).push(s.last()) =~= s);
    assert(s.last() == s[n]);
    assert(trim(Seq::<char>::empty()) =~= Seq::<char>::empty());
    assert(seq![s] =~= Seq::<Seq<char>>::empty().push(s));
}

fn flush_segment(segments: &mut Vec<String>, current: &Vec<char>)
    ensures
        final(segments)@.map_values(|s: String| s@) == seg_flush(
            SegState { segments: old(segments)@.map_values(|s: String| s@), current: current@ },
        ).segments,
{
    let chunk = trim_chars(current);
    if chunk.len() > 0 {
        segments.push(chars_to_string(&chunk));
        assert(segments@.map_values(|s: String| s@) =~= old(segments)@.map_values(|s: String| s@).push(chunk@));
    }
}

/// Splits a speech text into segments for synthesis.
pub fn split_tts_segments(input: &str) -> (r: Vec<String>)
    ensures
        r@.map_values(|s: String| s@) == tts_segments(input@),
{
    let all = str_to_chars(input);
    let t = trim_chars(&all);
    let mut segments: Vec<String> = Vec::new();
    if t.len() == 0 {
        assert(segments@.map_values(|s: String| s@) =~= Seq::<Seq<char>>::empty());
        return segments;
    }
    let mut current: Vec<char> = Vec::new();
    let mut i: usize = 0;
    assert(t@.subrange(0, 0) =~= Seq::<char>::empty());
    assert(segments@.map_values(|s: String| s@) =~= Seq::<Seq<char>>::empty());
    assert(current@ =~= Seq::<char>::empty());
    while i < t.len()
        invariant
            i <= t.len(),
            seg_run(t@.subrange(0, i as int)) == (SegState {
                segments: segments@.map_values(|s: String| s@),
                current: current@,
            }),
        decreases t.len() - i,
    {
        let ch = t[i];
        assert(t@.subrange(0, i + 1).drop_last() =~= t@.subrange(0, i as int));
        if ch == '\n' || ch == '\r' {
            flush_segment(&mut segments, &current);
            current = Vec::new();
        } else {
            current.push(ch);
            let len = current.len();
            if sentence_boundary(ch) || ((ch == ' ' || ch == '\u{3000}') && len
                >= TTS_SEGMENT_SOFT_LIMIT) || len >= TTS_SEGMENT_HARD_LIMIT {
                flush_segment(&mut segments, &current);
                current = Vec::new();
            }
        }
        i = i + 1;
        assert(seg_run(t@.subrange(0, i as int)).current =~= current@);
    }
    assert(t@.subrange(0, t.len() as int) =~= t@);
    flush_segment(&mut segments, &current);
    segments
}

/// A character at which a phrase ends.
pub open spec fn is_phrase_boundary(c: char) -> bool {
    c == ' ' || c == '\u{3000}' || c == '\n' || c == '\r' || c == '\t' || c == '、' || c == '。'
        || c == ',' || c == '，' || c == '.' || c == '．' || c == ';' || c == '；' || c == ':'
        || c == '：' || c == '!' || c == '！' || c == '?' || c == '？'
}

pub fn is_tts_phrase_boundary(c: char) -> (r: bool)
    ensures
        r == is_phrase_boundary(c),
{
    c == ' ' || c == '\u{3000}' || c == '\n' || c == '\r' || c == '\t' || c == '、' || c == '。'
        || c == ',' || c == '，' || c == '.' || c == '．' || c == ';' || c == '；' || c == ':'
        || c == '：' || c == '!' || c == '！' || c == '?' || c == '？'
}

/// A symbol that the speech engine mishandles at the head of a phrase.
pub open spec fn is_head_unsafe(c: char) -> bool {
    c == '?' || c == '？' || c == '!' || c == '！' || c == '_' || c == 'ー' || c == '－' || c == '—'
        || c == '―' || c == '…' || c == '‥' || c == '、' || c == '。' || c == ',' || c == '，'
        || c == '.' || c == '．' || c == ';' || c == '；' || c == ':' || c == '：'
}

pub fn is_tts_head_unsafe_symbol(c: char) -> (r: bool)
    ensures
        r == is_head_unsafe(c),
{
    c == '?' || c == '？' || c == '!' || c == '！' || c == '_' || c == 'ー' || c == '－' || c == '—'
        || c == '―' || c == '…' || c == '‥' || c == '、' || c == '。' || c == ',' || c == '，'
        || c == '.' || c == '．' || c == ';' || c == '；' || c == ':' || c == '：'
}

/// A character that starts the readable content of a phrase.
pub open spec fn is_seed(c: char) -> bool {
    !is_ws(c) && !(is_head_unsafe(c) || c == '[' || c == ']' || c == '(' || c == ')' || c == '{'
        || c == '}' || c == '<' || c == '>' || c == '"' || c == '\'' || c == '`' || c == '|')
}

pub fn is_tts_seed_char(c: char) -> (r: bool)
    ensures
        r == is_seed(c),
{
    !is_whitespace(c) && !(is_tts_head_unsafe_symbol(c) || c == '[' || c == ']' || c == '('
        || c == ')' || c == '{' || c == '}' || c == '<' || c == '>' || c == '"' || c == '\''
        || c == '`' || c == '|')
}

/// The state of the head-symbol filter: the output so far and whether the
/// current phrase has readable content yet.
pub struct StripState {
    pub out: Seq<char>,
    pub seeded: bool,
}

pub open spec fn strip_step(st: StripState, c: char) -> StripState {
    if is_ws(c) {
        StripState {
            out: if !(st.out.len() > 0 && st.out.last() == ' ') && st.out.len() > 0 {
                st.out.push(' ')
            } else {
                st.out
            },
            seeded: false,
        }
    } else if is_head_unsafe(c) && !st.seeded {
        st
    } else {
        StripState {
            out: st.out.push(c),
            seeded: if is_phrase_boundary(c) {
                false
            } else if is_seed(c) {
                true
            } else {
                st.seeded
            },
        }
    }
}

pub open spec fn strip_run(s: Seq<char>) -> StripState
    decreases s.len(),
{
    if s.len() == 0 {
        StripState { out: Seq::empty(), seeded: false }
    } else {
        strip_step(strip_run(s.drop_last()), s.last())
    }
}

/// The text with whitespace runs made single spaces, symbols that would open a
/// phrase before any readable character dropped, and trailing whitespace
/// removed.
pub open spec fn strip_unsafe_heads(s: Seq<char>) -> Seq<char> {
    trim_end(strip_run(s).out)
}

fn trim_end_chars(s: &Vec<char>) -> (r: Vec<char>)
    ensures
        r@ == trim_end(s@),
{
    let mut b: usize = s.len();
    while b > 0 && is_whitespace(s[b - 1])
        invariant
            b <= s.len(),
            forall|j: int| b <= j < s.len() ==> is_ws(#[trigger] s@[j]),
        decreases b,
    {
        b = b - 1;
    }
    proof {
        lemma_trim_end_take(s@, b as int);
    }
    crate::text::slice_chars(s, 0, b)
}

pub fn strip_unsafe_head_symbols_for_tts(input: &Vec<char>) -> (r: Vec<char>)
    ensures
        r@ == strip_unsafe_heads(input@),
{
    let mut out: Vec<char> = Vec::new();
    let mut seeded = false;
    let mut i: usize = 0;
    while i < input.len()
        invariant
            i <= input.len(),
            strip_run(input@.subrange(0, i as int)) == (StripState { out: out@, seeded }),
        decreases input.len() - i,
    {
        let c = input[i];
        assert(input@.subrange(0, i + 1).drop_last() =~= input@.subrange(0, i as int));
        if is_whitespace(c) {
            let ends_space = out.len() > 0 && out[out.len() - 1] == ' ';
            if !ends_space && out.len() > 0 {
                out.push(' ');
            }
            seeded = false;
        } else if is_tts_head_unsafe_symbol(c) && !seeded {
        } else {
            out.push(c);
            if is_tts_phrase_boundary(c) {
                seeded = false;
            } else if is_tts_seed_char(c) {
                seeded = true;
            }
        }
        i = i + 1;
    }
    assert(input@.subrange(0, input.len() as int) =~= input@);
    trim_end_chars(&out)
}

/// The state of the whitespace folder.
pub struct FoldState {
    pub out: Seq<char>,
    pub prev_space: bool,
}

pub open spec fn fold_step(st: FoldState, c: char) -> FoldState {
    if is_ws(c) {
        if !st.prev_space {
            FoldState { out: st.out.push(' '), prev_space: true }
        } else {
            st
        }
    } else {
        FoldState { out: st.out.push(c), prev_space: false }
    }
}

pub open spec fn fold_run(s: Seq<char>) -> FoldState
    decreases s.len(),
{
    if s.len() == 0 {
        FoldState { out: Seq::empty(), prev_space: true }
    } else {
        fold_step(fold_run(s.drop_last()), s.last())
    }
}

/// Leading whitespace dropped, every inner whitespace run made one space and
/// a trailing space dropped.
pub open spec fn collapse_ws(s: Seq<char>) -> Seq<char> {
    let o = fold_run(s).out;
    if o.len() > 0 && o.last() == ' ' {
        o.drop_last()
    } else {
        o
    }
}

pub fn collapse_whitespace_for_tts(input: &Vec<char>) -> (r: Vec<char>)
    ensures
        r@ == collapse_ws(input@),
{
    let mut out: Vec<char> = Vec::new();
    let mut prev = true;
    let mut i: usize = 0;
    while i < input.len()
        invariant
            i <= input.len(),
            fold_run(input@.subrange(0, i as int)) == (FoldState { out: out@, prev_space: prev }),
        decreases input.len() - i,
    {
        let c = input[i];
        assert(input@.subrange(0, i + 1).drop_last() =~= input@.subrange(0, i as int));
        if is_whitespace(c) {
            if !prev {
                out.push(' ');
                prev = true;
            }
        } else {
            out.push(c);
            prev = false;
        }
        i = i + 1;
    }
    assert(input@.subrange(0, input.len() as int) =~= input@);
    if out.len() > 0 && out[out.len() - 1] == ' ' {
        out.pop();
    }
    out
}

/// How a digit after a decimal point is read.
pub open spec fn decimal_digit_kana(d: char) -> Seq<char> {
    if d == '0' {
        "ゼロ"@
    } else if d == '1' {
        "イチ"@
    } else if d == '2' {
        "ニイ"@
    } else if d == '3' {
        "サン"@
    } else if d == '4' {
        "ヨン"@
    } else if d == '5' {
        "ゴ"@
    } else if d == '6' {
        "ロク"@
    } else if d == '7' {
        "ナナ"@
    } else if d == '8' {
        "ハチ"@
    } else if d == '9' {
        "キュウ"@
    } else {
        ""@
    }
}

pub fn digit_to_decimal_kana(digit: char) -> (r: &'static str)
    ensures
        r@ == decimal_digit_kana(digit),
{
    if digit == '0' {
        "ゼロ"
    } else if digit == '1' {
        "イチ"
    } else if digit == '2' {
        "ニイ"
    } else if digit == '3' {
        "サン"
    } else if digit == '4' {
        "ヨン"
    } else if digit == '5' {
        "ゴ"
    } else if digit == '6' {
        "ロク"
    } else if digit == '7' {
        "ナナ"
    } else if digit == '8' {
        "ハチ"
    } else if digit == '9' {
        "キュウ"
    } else {
        ""
    }
}

/// The end of the run of ASCII digits that starts at `j`.
pub open spec fn digit_run_end(s: Seq<char>, j: int) -> int
    decreases s.len() - j,
{
    if 0 <= j < s.len() && is_ascii_digit(s[j]) {
        digit_run_end(s, j + 1)
    } else {
        j
    }
}

/// The digits read one by one.
pub open spec fn digits_kana(d: Seq<char>) -> Seq<char>
    decreases d.len(),
{
    if d.len() == 0 {
        Seq::empty()
    } else {
        digits_kana(d.drop_last()) + decimal_digit_kana(d.last())
    }
}

/// A decimal point may be read after `prev`: at the start, after a digit, or
/// after a character that is not an ASCII letter or digit.
pub open spec fn decimal_left_ok(prev: Option<char>) -> bool {
    match prev {
        None => true,
        Some(p) => is_ascii_digit(p) || !is_ascii_alnum(p),
    }
}

/// The text from `i` on with every decimal point that is followed by a digit
/// (and not preceded by a letter) read as テン, and the digits after it read
/// one by one.
pub open spec fn decimal_from(s: Seq<char>, i: int, prev: Option<char>) -> Seq<char>
    decreases s.len() - i,
{
    if i < 0 || i >= s.len() {
        Seq::empty()
    } else if s[i] == '.' && i + 1 < s.len() && is_ascii_digit(s[i + 1]) && decimal_left_ok(prev) {
        let j = digit_run_end(s, i + 1);
        if j <= i + 1 || j > s.len() {
            Seq::empty()
        } else {
            "テン"@ + digits_kana(s.subrange(i + 1, j)) + decimal_from(s, j, Some('0'))
        }
    } else {
        seq![s[i]] + decimal_from(s, i + 1, Some(s[i]))
    }
}

proof fn lemma_digit_run_end(s: Seq<char>, j: int)
    requires
        0 <= j <= s.len(),
    ensures
        j <= digit_run_end(s, j) <= s.len(),
        forall|k: int| j <= k < digit_run_end(s, j) ==> is_ascii_digit(#[trigger] s[k]),
        digit_run_end(s, j) < s.len() ==> !is_ascii_digit(s[digit_run_end(s, j)]),
    decreases s.len() - j,
{
    if j < s.len() && is_ascii_digit(s[j]) {
        lemma_digit_run_end(s, j + 1);
    }
}

pub fn normalize_decimal_points_for_tts(input: &Vec<char>) -> (r: Vec<char>)
    ensures
        r@ == decimal_from(input@, 0, None),
{
    let mut out: Vec<char> = Vec::new();
    let mut prev: Option<char> = None;
    let mut i: usize = 0;
    while i < input.len()
        invariant
            i <= input.len(),
            out@ + decimal_from(input@, i as int, prev) == decimal_from(input@, 0, None),
        decreases input.len() - i,
    {
        let ch = input[i];
        let next_is_digit = i + 1 < input.len() && input[i + 1] >= '0' && input[i + 1] <= '9';
        let left_ok = match prev {
            None => true,
            Some(p) => (p >= '0' && p <= '9') || !((p >= 'A' && p <= 'Z') || (p >= 'a' && p <= 'z')
                || (p >= '0' && p <= '9')),
        };
        if ch == '.' && next_is_digit && left_ok {
            let ghost before = out@;
            extend_str(&mut out, "テン");
            let mut j: usize = i + 1;
            let ghost start = j;
            while j < input.len() && input[j] >= '0' && input[j] <= '9'
                invariant
                    start == i + 1,
                    start <= j <= input.len(),
                    forall|k: int| start <= k < j ==> is_ascii_digit(#[trigger] input@[k]),
                    digit_run_end(input@, start as int) == digit_run_end(input@, j as int),
                    out@ == before + "テン"@ + digits_kana(input@.subrange(start as int, j as int)),
                decreases input.len() - j,
            {
                let ghost pre = input@.subrange(start as int, j as int);
                extend_str(&mut out, digit_to_decimal_kana(input[j]));
                assert(input@.subrange(start as int, j + 1).drop_last() =~= pre);
                j = j + 1;
            }
            proof {
                lemma_digit_run_end(input@, start as int);
                assert(digit_run_end(input@, j as int) == j);
            }
            prev = Some('0');
            i = j;
        } else {
            out.push(ch);
            prev = Some(ch);
            i = i + 1;
        }
    }
    assert(out@ + Seq::<char>::empty() =~= out@);
    out
}

/// The text cut to its first 200 characters, marked as shortened, when it is
/// longer than that.
pub open spec fn cap_total(s: Seq<char>) -> Seq<char> {
    if s.len() > TTS_MAX_TOTAL_CHARS {
        s.take(TTS_MAX_TOTAL_CHARS as int) + "、以下省略"@
    } else {
        s
    }
}

pub fn cap_tts_text(s: &Vec<char>) -> (r: Vec<char>)
    ensures
        r@ == cap_total(s@),
{
    if s.len() > TTS_MAX_TOTAL_CHARS {
        let mut t = crate::text::slice_chars(s, 0, TTS_MAX_TOTAL_CHARS);
        extend_str(&mut t, "、以下省略");
        t
    } else {
        crate::text::slice_chars(s, 0, s.len())
    }
}

/// The shaping applied to speech text after its markup is resolved and before
/// ASCII words are turned to kana: whitespace folded, decimals read out,
/// unsafe phrase heads dropped.
pub open spec fn shape_tts_text(s: Seq<char>) -> Seq<char> {
    strip_unsafe_heads(decimal_from(collapse_ws(s), 0, None))
}

pub fn shape_tts_chars(s: &Vec<char>) -> (r: Vec<char>)
    ensures
        r@ == shape_tts_text(s@),
{
    let a = collapse_whitespace_for_tts(s);
    let b = normalize_decimal_points_for_tts(&a);
    strip_unsafe_head_symbols_for_tts(&b)
}

/// At most `max_chars` characters of `input`, with an ellipsis when it was
/// longer, and `(empty)` for an empty input.
pub open spec fn preview(input: Seq<char>, max_chars: nat) -> Seq<char> {
    if input.len() == 0 {
        "(empty)"@
    } else if input.len() > max_chars {
        if max_chars == 0 {
            seq!['…']
        } else {
            input.take(max_chars as int).push('…')
        }
    } else {
        input
    }
}

/// A short preview of a text for replies.
pub fn preview_text(input: &str, max_chars: usize) -> (r: String)
    ensures
        r@ == preview(input@, max_chars as nat),
{
    let v = str_to_chars(input);
    if v.len() == 0 {
        return String::from_str("(empty)");
    }
    if v.len() > max_chars {
        let mut t = crate::text::slice_chars(&v, 0, max_chars);
        t.push('…');
        if max_chars == 0 {
            assert(t@ =~= seq!['…']);
        }
        chars_to_string(&t)
    } else {
        chars_to_string(&v)
    }
}

} // verus!
