//! Reading of ASCII words and numbers in speech text: runs of ASCII letters
//! and digits are split into words and digit groups; short upper-case words
//! stay as they are, digits next to letters are read one by one in English,
//! and other words go to the English-to-kana converter.
use vstd::prelude::*;
use vstd::string::*;
use crate::text::{chars_to_string, extend_str, str_to_chars, is_ascii_alpha, is_ascii_upper, is_ascii_lower, is_ascii_digit, is_ascii_alnum, ascii_lower, to_ascii_lower, has_ascii_alpha};

verus! {

/// A piece of text after splitting: kept or already read text, or a word that
/// the English-to-kana converter is to read.
pub enum KanaPiece {
    Text(String),
    Word(String),
}

pub enum KanaPieceView {
    Text(Seq<char>),
    Word(Seq<char>),
}

impl View for KanaPiece {
    type V = KanaPieceView;

    open spec fn view(&self) -> KanaPieceView {
        match self {
            KanaPiece::Text(s) => KanaPieceView::Text(s@),
            KanaPiece::Word(s) => KanaPieceView::Word(s@),
        }
    }
}

pub open spec fn pieces_view(v: Seq<KanaPiece>) -> Seq<KanaPieceView> {
    v.map_values(|p: KanaPiece| p@)
}

/// How a digit next to letters is read (English digit names in kana).
pub open spec fn en_digit_kana(d: char) -> Seq<char> {
    if d == '0' {
        "ゼロ"@
    } else if d == '1' {
        "ワン"@
    } else if d == '2' {
        "ツー"@
    } else if d == '3' {
        "スリー"@
    } else if d == '4' {
        "フォー"@
    } else if d == '5' {
        "ファイブ"@
    } else if d == '6' {
        "シックス"@
    } else if d == '7' {
        "セブン"@
    } else if d == '8' {
        "エイト"@
    } else if d == '9' {
        "ナイン"@
    } else {
        ""@
    }
}


pub open spec fn en_digits_kana(d: Seq<char>) -> Seq<char>
    decreases d.len(),
{
    if d.len() == 0 {
        Seq::empty()
    } else {
        en_digits_kana(d.drop_last()) + en_digit_kana(d.last())
    }
}

/// Letters lower-cased, with a space put where an upper-case letter follows a
/// lower-case one (`camelCase` becomes `camel case`).
pub open spec fn letters_norm(w: Seq<char>) -> Seq<char>
    decreases w.len(),
{
    if w.len() == 0 {
        Seq::empty()
    } else {
        let p = letters_norm(w.drop_last());
        let c = w.last();
        let spaced = if w.len() > 1 && is_ascii_lower(w[w.len() - 2]) && is_ascii_upper(c) {
            p.push(' ')
        } else {
            p
        };
        spaced.push(ascii_lower(c))
    }
}


/// A word of at most five upper-case letters is kept as written.
pub open spec fn skip_word(w: Seq<char>) -> bool {
    w.len() > 0 && w.len() <= 5 && forall|k: int| 0 <= k < w.len() ==> is_ascii_upper(#[trigger] w[k])
}


/// The English-to-kana reader: the parts of its conversion that do not
/// need the converter model.
pub struct EN2KANA {}

impl EN2KANA {
    /// The English reading of a digit, in katakana.
    pub fn digit_to_kana(d: char) -> (r: &'static str)
        ensures
            r@ == en_digit_kana(d),
    {
        if d == '0' {
            "ゼロ"
        } else if d == '1' {
            "ワン"
        } else if d == '2' {
            "ツー"
        } else if d == '3' {
            "スリー"
        } else if d == '4' {
            "フォー"
        } else if d == '5' {
            "ファイブ"
        } else if d == '6' {
            "シックス"
        } else if d == '7' {
            "セブン"
        } else if d == '8' {
            "エイト"
        } else if d == '9' {
            "ナイン"
        } else {
            ""
        }
    }

    /// Letters lower-cased, words of a camel-case run split by spaces.
    pub fn normalize_ascii_letters(w: &Vec<char>) -> (r: Vec<char>)
        ensures
            r@ == letters_norm(w@),
    {
        let mut out: Vec<char> = Vec::new();
        let mut prev_lower = false;
        let mut i: usize = 0;
        while i < w.len()
            invariant
                i <= w.len(),
                out@ == letters_norm(w@.subrange(0, i as int)),
                prev_lower == (i > 0 && is_ascii_lower(w@[i - 1])),
            decreases w.len() - i,
        {
            let c = w[i];
            let ghost pre = w@.subrange(0, i as int);
            let ghost nxt = w@.subrange(0, i + 1);
            assert(nxt.drop_last() =~= pre);
            if i > 0 {
                assert(nxt[nxt.len() - 2] == w@[i - 1]);
            }
            if prev_lower && (c >= 'A' && c <= 'Z') {
                out.push(' ');
            }
            out.push(to_ascii_lower(c));
            prev_lower = c >= 'a' && c <= 'z';
            i = i + 1;
        }
        assert(w@.subrange(0, w.len() as int) =~= w@);
        out
    }

    /// Whether a word is kept as written (an acronym of at most five capitals).
    pub fn should_skip_kanalyze_ascii_word(w: &str) -> (r: bool)
        ensures
            r == skip_word(w@),
    {
        let v = str_to_chars(w);
        skip_word_chars(&v)
    }
}

fn skip_word_chars(v: &Vec<char>) -> (r: bool)
    ensures
        r == skip_word(v@),
{
    if v.len() == 0 || v.len() > 5 {
        return false;
    }
    let mut i: usize = 0;
    while i < v.len()
        invariant
            i <= v.len(),
            forall|k: int| 0 <= k < i ==> is_ascii_upper(#[trigger] v@[k]),
        decreases v.len() - i,
    {
        if !(v[i] >= 'A' && v[i] <= 'Z') {
            return false;
        }
        i = i + 1;
    }
    true
}

/// The end of the run of characters satisfying the class that starts at `j`.
pub open spec fn alpha_end(s: Seq<char>, j: int) -> int
    decreases s.len() - j,
{
    if 0 <= j < s.len() && is_ascii_alpha(s[j]) {
        alpha_end(s, j + 1)
    } else {
        j
    }
}

pub open spec fn digit_end(s: Seq<char>, j: int) -> int
    decreases s.len() - j,
{
    if 0 <= j < s.len() && is_ascii_digit(s[j]) {
        digit_end(s, j + 1)
    } else {
        j
    }
}

pub open spec fn alnum_end(s: Seq<char>, j: int) -> int
    decreases s.len() - j,
{
    if 0 <= j < s.len() && is_ascii_alnum(s[j]) {
        alnum_end(s, j + 1)
    } else {
        j
    }
}

/// The pieces of the rest of a letter-and-digit run from `i`: letter words
/// (kept when short upper-case, otherwise for the converter) and digit groups
/// read digit by digit.
pub open spec fn run_from(r: Seq<char>, i: int) -> Seq<KanaPieceView>
    decreases r.len() - i,
{
    if i < 0 || i >= r.len() {
        Seq::empty()
    } else if is_ascii_alpha(r[i]) {
        let j = alpha_end(r, i);
        if j <= i || j > r.len() {
            Seq::empty()
        } else {
            let w = r.subrange(i, j);
            seq![
                if skip_word(w) {
                    KanaPieceView::Text(w)
                } else {
                    KanaPieceView::Word(letters_norm(w))
                },
            ] + run_from(r, j)
        }
    } else {
        let j = digit_end(r, i + 1);
        if j <= i || j > r.len() {
            Seq::empty()
        } else {
            seq![KanaPieceView::Text(en_digits_kana(r.subrange(i, j)))] + run_from(r, j)
        }
    }
}

/// The pieces of a letter-and-digit run: the run itself when it has no
/// letter.
pub open spec fn run_pieces(r: Seq<char>) -> Seq<KanaPieceView> {
    if !has_ascii_alpha(r) {
        seq![KanaPieceView::Text(r)]
    } else {
        run_from(r, 0)
    }
}

/// The pieces of the text from `i`: other characters kept one by one, runs of
/// ASCII letters and digits split as `run_pieces` says.
pub open spec fn pieces_from(s: Seq<char>, i: int) -> Seq<KanaPieceView>
    decreases s.len() - i,
{
    if i < 0 || i >= s.len() {
        Seq::empty()
    } else if is_ascii_alnum(s[i]) {
        let j = alnum_end(s, i);
        if j <= i || j > s.len() {
            Seq::empty()
        } else {
            run_pieces(s.subrange(i, j)) + pieces_from(s, j)
        }
    } else {
        seq![KanaPieceView::Text(seq![s[i]])] + pieces_from(s, i + 1)
    }
}

/// The plan of a text: nothing for the empty text, the text itself when it
/// holds no ASCII letter, its pieces otherwise.
pub open spec fn kana_plan(s: Seq<char>) -> Seq<KanaPieceView> {
    if s.len() == 0 {
        Seq::empty()
    } else if !has_ascii_alpha(s) {
        seq![KanaPieceView::Text(s)]
    } else {
        pieces_from(s, 0)
    }
}

proof fn lemma_class_end_props(s: Seq<char>, j: int)
    requires
        0 <= j <= s.len(),
    ensures
        j <= alpha_end(s, j) <= s.len(),
        j <= digit_end(s, j) <= s.len(),
        j <= alnum_end(s, j) <= s.len(),
        alpha_end(s, j) < s.len() ==> !is_ascii_alpha(s[alpha_end(s, j)]),
        digit_end(s, j) < s.len() ==> !is_ascii_digit(s[digit_end(s, j)]),
        alnum_end(s, j) < s.len() ==> !is_ascii_alnum(s[alnum_end(s, j)]),
        forall|k: int| j <= k < alnum_end(s, j) ==> is_ascii_alnum(#[trigger] s[k]),
    decreases s.len() - j,
{
    if j < s.len() {
        lemma_class_end_props(s, j + 1);
    }
}

fn has_alpha_chars(s: &Vec<char>) -> (r: bool)
    ensures
        r == has_ascii_alpha(s@),
{
    let mut i: usize = 0;
    while i < s.len()
        invariant
            i <= s.len(),
            forall|k: int| 0 <= k < i ==> !is_ascii_alpha(#[trigger] s@[k]),
        decreases s.len() - i,
    {
        if (s[i] >= 'A' && s[i] <= 'Z') || (s[i] >= 'a' && s[i] <= 'z') {
            return true;
        }
        i = i + 1;
    }
    false
}

fn plan_run(r: &Vec<char>) -> (out: Vec<KanaPiece>)
    ensures
        pieces_view(out@) == run_pieces(r@),
{
    let mut out: Vec<KanaPiece> = Vec::new();
    if !has_alpha_chars(r) {
        out.push(KanaPiece::Text(chars_to_string(r)));
        assert(pieces_view(out@) =~= run_pieces(r@));
        return out;
    }
    let mut i: usize = 0;
    assert(pieces_view(out@) =~= Seq::<KanaPieceView>::empty());
    while i < r.len()
        invariant
            i <= r.len(),
            has_ascii_alpha(r@),
            pieces_view(out@) + run_from(r@, i as int) == run_from(r@, 0),
        decreases r.len() - i,
    {
        let ghost before = pieces_view(out@);
        let start = i;
        proof {
            lemma_class_end_props(r@, i as int);
            lemma_class_end_props(r@, i + 1);
        }
        if (r[i] >= 'A' && r[i] <= 'Z') || (r[i] >= 'a' && r[i] <= 'z') {
            i = i + 1;
            while i < r.len() && ((r[i] >= 'A' && r[i] <= 'Z') || (r[i] >= 'a' && r[i] <= 'z'))
                invariant
                    start < i <= r.len(),
                    alpha_end(r@, start as int) == alpha_end(r@, i as int),
                decreases r.len() - i,
            {
                i = i + 1;
            }
            let w = crate::text::slice_chars(r, start, i);
            if skip_word_chars(&w) {
                out.push(KanaPiece::Text(chars_to_string(&w)));
            } else {
                let n = EN2KANA::normalize_ascii_letters(&w);
                out.push(KanaPiece::Word(chars_to_string(&n)));
            }
        } else {
            i = i + 1;
            while i < r.len() && r[i] >= '0' && r[i] <= '9'
                invariant
                    start < i <= r.len(),
                    digit_end(r@, start + 1) == digit_end(r@, i as int),
                    forall|k: int| start < k < i ==> is_ascii_digit(#[trigger] r@[k]),
                decreases r.len() - i,
            {
                i = i + 1;
            }
            let mut t: Vec<char> = Vec::new();
            let mut k: usize = start;
            while k < i
                invariant
                    start <= k <= i <= r.len(),
                    t@ == en_digits_kana(r@.subrange(start as int, k as int)),
                decreases i - k,
            {
                let ghost pre = r@.subrange(start as int, k as int);
                extend_str(&mut t, EN2KANA::digit_to_kana(r[k]));
                assert(r@.subrange(start as int, k + 1).drop_last() =~= pre);
                k = k + 1;
            }
            out.push(KanaPiece::Text(chars_to_string(&t)));
        }
        assert(pieces_view(out@) =~= before.push(pieces_view(out@).last()));
    }
    assert(pieces_view(out@) + Seq::<KanaPieceView>::empty() =~= pieces_view(out@));
    out
}

/// Splits a text into the pieces that the kana reading works on.
pub fn plan_en2kana(src: &str) -> (out: Vec<KanaPiece>)
    ensures
        pieces_view(out@) == kana_plan(src@),
{
    let s = str_to_chars(src);
    let mut out: Vec<KanaPiece> = Vec::new();
    if s.len() == 0 {
        assert(pieces_view(out@) =~= kana_plan(src@));
        return out;
    }
    if !has_alpha_chars(&s) {
        out.push(KanaPiece::Text(chars_to_string(&s)));
        assert(pieces_view(out@) =~= kana_plan(src@));
        return out;
    }
    let mut i: usize = 0;
    assert(pieces_view(out@) =~= Seq::<KanaPieceView>::empty());
    while i < s.len()
        invariant
            i <= s.len(),
            s@ == src@,
            pieces_view(out@) + pieces_from(s@, i as int) == pieces_from(s@, 0),
        decreases s.len() - i,
    {
        let ghost before = pieces_view(out@);
        proof {
            lemma_class_end_props(s@, i as int);
        }
        if (s[i] >= 'A' && s[i] <= 'Z') || (s[i] >= 'a' && s[i] <= 'z') || (s[i] >= '0' && s[i]
            <= '9') {
            let start = i;
            i = i + 1;
            while i < s.len() && ((s[i] >= 'A' && s[i] <= 'Z') || (s[i] >= 'a' && s[i] <= 'z') || (
            s[i] >= '0' && s[i] <= '9'))
                invariant
                    start < i <= s.len(),
                    alnum_end(s@, start as int) == alnum_end(s@, i as int),
                decreases s.len() - i,
            {
                i = i + 1;
            }
            let run = crate::text::slice_chars(&s, start, i);
            let mut rp = plan_run(&run);
            let ghost rpv = pieces_view(rp@);
            out.append(&mut rp);
            assert(pieces_view(out@) =~= before + rpv);
        } else {
            let mut one: Vec<char> = Vec::new();
            one.push(s[i]);
            out.push(KanaPiece::Text(chars_to_string(&one)));
            assert(pieces_view(out@) =~= before.push(KanaPieceView::Text(seq![s@[i as int]])));
            i = i + 1;
        }
    }
    assert(pieces_view(out@) + Seq::<KanaPieceView>::empty() =~= pieces_view(out@));
    out
}

/// The text of the pieces, each word replaced by the converter's output at
/// the same position.
pub open spec fn kana_join(ps: Seq<KanaPieceView>, outs: Seq<Seq<char>>) -> Seq<char>
    decreases ps.len(),
{
    if ps.len() == 0 {
        Seq::empty()
    } else {
        kana_join(ps.drop_last(), outs) + match ps.last() {
            KanaPieceView::Text(t) => t,
            KanaPieceView::Word(_) => outs[ps.len() - 1],
        }
    }
}

/// Joins the pieces; `outputs[k]` is the converter's reading of piece `k`
/// where that piece is a word, and is not read otherwise.
pub fn join_kana(pieces: &Vec<KanaPiece>, outputs: &Vec<String>) -> (r: String)
    requires
        outputs.len() == pieces.len(),
    ensures
        r@ == kana_join(pieces_view(pieces@), outputs@.map_values(|s: String| s@)),
{
    let ghost ov = outputs@.map_values(|s: String| s@);
    let mut acc: Vec<char> = Vec::new();
    let mut i: usize = 0;
    while i < pieces.len()
        invariant
            i <= pieces.len(),
            outputs.len() == pieces.len(),
            ov == outputs@.map_values(|s: String| s@),
            acc@ == kana_join(pieces_view(pieces@).subrange(0, i as int), ov),
        decreases pieces.len() - i,
    {
        let ghost pre = pieces_view(pieces@).subrange(0, i as int);
        let ghost nxt = pieces_view(pieces@).subrange(0, i + 1);
        assert(nxt.drop_last() =~= pre);
        match &pieces[i] {
            KanaPiece::Text(t) => extend_str(&mut acc, t.as_str()),
            KanaPiece::Word(_) => extend_str(&mut acc, outputs[i].as_str()),
        }
        i = i + 1;
    }
    assert(pieces_view(pieces@).subrange(0, pieces.len() as int) =~= pieces_view(pieces@));
    chars_to_string(&acc)
}

/// Some piece is a word for the converter.
pub open spec fn plan_has_word(ps: Seq<KanaPieceView>) -> bool {
    exists|k: int| 0 <= k < ps.len() && ps[k] is Word
}

pub fn needs_converter(pieces: &Vec<KanaPiece>) -> (r: bool)
    ensures
        r == plan_has_word(pieces_view(pieces@)),
{
    let mut i: usize = 0;
    while i < pieces.len()
        invariant
            i <= pieces.len(),
            forall|k: int| 0 <= k < i ==> !(pieces_view(pieces@)[k] is Word),
        decreases pieces.len() - i,
    {
        match &pieces[i] {
            KanaPiece::Word(_) => {
                assert(pieces_view(pieces@)[i as int] is Word);
                return true;
            },
            KanaPiece::Text(_) => {},
        }
        i = i + 1;
    }
    false
}

/// The kana reading of a text whose plan has no word for the converter;
/// `None` when the converter is needed.
pub fn en2kana_without_converter(src: &str) -> (r: Option<String>)
    ensures
        match r {
            Some(s) => !plan_has_word(kana_plan(src@)) && forall|outs: Seq<Seq<char>>|
                #![trigger kana_join(kana_plan(src@), outs)]
                kana_join(kana_plan(src@), outs) == s@,
            None => plan_has_word(kana_plan(src@)),
        },
{
    let plan = plan_en2kana(src);
    if needs_converter(&plan) {
        return None;
    }
    let mut outs: Vec<String> = Vec::new();
    let mut i: usize = 0;
    while i < plan.len()
        invariant
            i <= plan.len(),
            outs.len() == i,
        decreases plan.len() - i,
    {
        outs.push(String::new());
        i = i + 1;
    }
    let r = join_kana(&plan, &outs);
    proof {
        assert forall|o: Seq<Seq<char>>| #![trigger kana_join(kana_plan(src@), o)]
            kana_join(kana_plan(src@), o) == r@ by {
            lemma_join_no_word(pieces_view(plan@), o, outs@.map_values(|s: String| s@));
        }
    }
    Some(r)
}

/// Without words, the outputs given for the pieces do not matter.
pub proof fn lemma_join_no_word(ps: Seq<KanaPieceView>, a: Seq<Seq<char>>, b: Seq<Seq<char>>)
    requires
        !plan_has_word(ps),
    ensures
        kana_join(ps, a) == kana_join(ps, b),
    decreases ps.len(),
{
    if ps.len() > 0 {
        assert(!plan_has_word(ps.drop_last())) by {
            assert forall|k: int| 0 <= k < ps.drop_last().len() implies !(ps.drop_last()[k] is Word) by {
                assert(ps.drop_last()[k] == ps[k]);
            }
        }
        lemma_join_no_word(ps.drop_last(), a, b);
        assert(!(ps[ps.len() - 1] is Word));
    }
}

proof fn lemma_alnum_end_at(s: Seq<char>, i: int, j: int)
    requires
        0 <= i <= j <= s.len(),
        forall|k: int| i <= k < j ==> is_ascii_alnum(#[trigger] s[k]),
        j == s.len() || !is_ascii_alnum(s[j]),
    ensures
        alnum_end(s, i) == j,
    decreases j - i,
{
    if i < j {
        lemma_alnum_end_at(s, i + 1, j);
    }
}

/// Law: a run of ASCII digits that the reading meets at `i` and that no
/// letter or digit follows (it ends the text, or a character that is neither
/// comes after it) is kept exactly as written: the pieces of the text from
/// `i` are the run itself, then the pieces after it.
pub proof fn lemma_digit_run_kept(s: Seq<char>, i: int, j: int)
    requires
        0 <= i < j <= s.len(),
        forall|k: int| i <= k < j ==> is_ascii_digit(#[trigger] s[k]),
        j == s.len() || !is_ascii_alnum(s[j]),
    ensures
        pieces_from(s, i) == seq![KanaPieceView::Text(s.subrange(i, j))] + pieces_from(s, j),
{
    assert forall|k: int| i <= k < j implies is_ascii_alnum(#[trigger] s[k]) by {
        assert(is_ascii_digit(s[k]));
    }
    lemma_alnum_end_at(s, i, j);
    let r = s.subrange(i, j);
    assert(!has_ascii_alpha(r)) by {
        assert forall|k: int| 0 <= k < r.len() implies !is_ascii_alpha(#[trigger] r[k]) by {
            assert(r[k] == s[i + k]);
            assert(is_ascii_digit(s[i + k]));
        }
    }
    assert(is_ascii_alnum(s[i])) by {
        assert(is_ascii_digit(s[i]));
    }
}

} // verus!
