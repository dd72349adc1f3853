//! The catalog of VOICEVOX speakers and styles, read from a table of the
//! bundled voice models, with lookups by name and by style ID.
use vstd::prelude::*;
use vstd::string::*;
use crate::text::{chars_eq, chars_eq_str, chars_to_string, contains_chars, contains_seq, contains_string, dedup, lemma_take_at_most_push, lowercase_str, parse_u64_chars, parse_unsigned, str_to_chars, strs_view, take_at_most, trim, trim_chars, unicode_lowercase};

verus! {

/// One row of the style table: a style of a speaker, the model file it is in
/// and the style ID that synthesis takes.
pub struct VoiceStyleEntry {
    pub vvm_file: String,
    pub speaker_name: String,
    pub style_name: String,
    pub style_id: u32,
}

/// The values of a [`VoiceStyleEntry`].
pub struct StyleEntry {
    pub vvm_file: Seq<char>,
    pub speaker_name: Seq<char>,
    pub style_name: Seq<char>,
    pub style_id: u32,
}

impl View for VoiceStyleEntry {
    type V = StyleEntry;

    open spec fn view(&self) -> StyleEntry {
        StyleEntry {
            vvm_file: self.vvm_file@,
            speaker_name: self.speaker_name@,
            style_name: self.style_name@,
            style_id: self.style_id,
        }
    }
}

impl VoiceStyleEntry {
    pub fn clone_entry(&self) -> (r: VoiceStyleEntry)
        ensures
            r@ == self@,
    {
        VoiceStyleEntry {
            vvm_file: self.vvm_file.clone(),
            speaker_name: self.speaker_name.clone(),
            style_name: self.style_name.clone(),
            style_id: self.style_id,
        }
    }
}

pub open spec fn entries_view(v: Seq<VoiceStyleEntry>) -> Seq<StyleEntry> {
    v.map_values(|e: VoiceStyleEntry| e@)
}

/// The style table of the bundled voice models, one row per line.
pub const VOICE_STYLE_TABLE: &'static str = r#"
| VVMファイル名 | 話者名 | スタイル名 | スタイルID |
|---|---|---|---|
| 0.vvm | 四国めたん | ノーマル | 2 |
| 0.vvm | 四国めたん | あまあま | 0 |
| 0.vvm | 四国めたん | ツンツン | 6 |
| 0.vvm | 四国めたん | セクシー | 4 |
| 0.vvm | ずんだもん | ノーマル | 3 |
| 0.vvm | ずんだもん | あまあま | 1 |
| 0.vvm | ずんだもん | ツンツン | 7 |
| 0.vvm | ずんだもん | セクシー | 5 |
| 0.vvm | 春日部つむぎ | ノーマル | 8 |
| 0.vvm | 雨晴はう | ノーマル | 10 |
| 1.vvm | 冥鳴ひまり | ノーマル | 14 |
| 2.vvm | 九州そら | ノーマル | 16 |
| 2.vvm | 九州そら | あまあま | 15 |
| 2.vvm | 九州そら | ツンツン | 18 |
| 2.vvm | 九州そら | セクシー | 17 |
| 3.vvm | 波音リツ | ノーマル | 9 |
| 3.vvm | 波音リツ | クイーン | 65 |
| 3.vvm | 中国うさぎ | ノーマル | 61 |
| 3.vvm | 中国うさぎ | おどろき | 62 |
| 3.vvm | 中国うさぎ | こわがり | 63 |
| 3.vvm | 中国うさぎ | へろへろ | 64 |
| 4.vvm | 玄野武宏 | ノーマル | 11 |
| 4.vvm | 剣崎雌雄 | ノーマル | 21 |
| 5.vvm | 四国めたん | ささやき | 36 |
| 5.vvm | 四国めたん | ヒソヒソ | 37 |
| 5.vvm | ずんだもん | ささやき | 22 |
| 5.vvm | ずんだもん | ヒソヒソ | 38 |
| 5.vvm | 九州そら | ささやき | 19 |
| 6.vvm | No.7 | ノーマル | 29 |
| 6.vvm | No.7 | アナウンス | 30 |
| 6.vvm | No.7 | 読み聞かせ | 31 |
| 7.vvm | 後鬼 | 人間ver. | 27 |
| 7.vvm | 後鬼 | ぬいぐるみver. | 28 |
| 8.vvm | WhiteCUL | ノーマル | 23 |
| 8.vvm | WhiteCUL | たのしい | 24 |
| 8.vvm | WhiteCUL | かなしい | 25 |
| 8.vvm | WhiteCUL | びえーん | 26 |
| 9.vvm | 白上虎太郎 | ふつう | 12 |
| 9.vvm | 白上虎太郎 | わーい | 32 |
| 9.vvm | 白上虎太郎 | びくびく | 33 |
| 9.vvm | 白上虎太郎 | おこ | 34 |
| 9.vvm | 白上虎太郎 | びえーん | 35 |
| 10.vvm | 玄野武宏 | 喜び | 39 |
| 10.vvm | 玄野武宏 | ツンギレ | 40 |
| 10.vvm | 玄野武宏 | 悲しみ | 41 |
| 10.vvm | ちび式じい | ノーマル | 42 |
| 11.vvm | 櫻歌ミコ | ノーマル | 43 |
| 11.vvm | 櫻歌ミコ | 第二形態 | 44 |
| 11.vvm | 櫻歌ミコ | ロリ | 45 |
| 11.vvm | ナースロボ＿タイプＴ | ノーマル | 47 |
| 11.vvm | ナースロボ＿タイプＴ | 楽々 | 48 |
| 11.vvm | ナースロボ＿タイプＴ | 恐怖 | 49 |
| 11.vvm | ナースロボ＿タイプＴ | 内緒話 | 50 |
| 12.vvm | †聖騎士 紅桜† | ノーマル | 51 |
| 12.vvm | 雀松朱司 | ノーマル | 52 |
| 12.vvm | 麒ヶ島宗麟 | ノーマル | 53 |
| 13.vvm | 春歌ナナ | ノーマル | 54 |
| 13.vvm | 猫使アル | ノーマル | 55 |
| 13.vvm | 猫使アル | おちつき | 56 |
| 13.vvm | 猫使アル | うきうき | 57 |
| 13.vvm | 猫使ビィ | ノーマル | 58 |
| 13.vvm | 猫使ビィ | おちつき | 59 |
| 13.vvm | 猫使ビィ | 人見知り | 60 |
| 14.vvm | 栗田まろん | ノーマル | 67 |
| 14.vvm | あいえるたん | ノーマル | 68 |
| 14.vvm | 満別花丸 | ノーマル | 69 |
| 14.vvm | 満別花丸 | 元気 | 70 |
| 14.vvm | 満別花丸 | ささやき | 71 |
| 14.vvm | 満別花丸 | ぶりっ子 | 72 |
| 14.vvm | 満別花丸 | ボーイ | 73 |
| 14.vvm | 琴詠ニア | ノーマル | 74 |
| 15.vvm | ずんだもん | ヘロヘロ | 75 |
| 15.vvm | ずんだもん | なみだめ | 76 |
| 15.vvm | 青山龍星 | ノーマル | 13 |
| 15.vvm | 青山龍星 | 熱血 | 81 |
| 15.vvm | 青山龍星 | 不機嫌 | 82 |
| 15.vvm | 青山龍星 | 喜び | 83 |
| 15.vvm | 青山龍星 | しっとり | 84 |
| 15.vvm | 青山龍星 | かなしみ | 85 |
| 15.vvm | 青山龍星 | 囁き | 86 |
| 15.vvm | もち子さん | ノーマル | 20 |
| 15.vvm | もち子さん | セクシー／あん子 | 66 |
| 15.vvm | もち子さん | 泣き | 77 |
| 15.vvm | もち子さん | 怒り | 78 |
| 15.vvm | もち子さん | 喜び | 79 |
| 15.vvm | もち子さん | のんびり | 80 |
| 15.vvm | 小夜/SAYO | ノーマル | 46 |
| 16.vvm | 後鬼 | 人間（怒り）ver. | 87 |
| 16.vvm | 後鬼 | 鬼ver. | 88 |
| 17.vvm | Voidoll | ノーマル | 89 |
| 18.vvm | ぞん子 | ノーマル | 90 |
| 18.vvm | ぞん子 | 低血圧 | 91 |
| 18.vvm | ぞん子 | 覚醒 | 92 |
| 18.vvm | ぞん子 | 実況風 | 93 |
| 18.vvm | 中部つるぎ | ノーマル | 94 |
| 18.vvm | 中部つるぎ | 怒り | 95 |
| 18.vvm | 中部つるぎ | ヒソヒソ | 96 |
| 18.vvm | 中部つるぎ | おどおど | 97 |
| 18.vvm | 中部つるぎ | 絶望と敗北 | 98 |
| 19.vvm | 離途 | ノーマル | 99 |
| 19.vvm | 離途 | シリアス | 101 |
| 19.vvm | 黒沢冴白 | ノーマル | 100 |
| 20.vvm | ユーレイちゃん | ノーマル | 102 |
| 20.vvm | ユーレイちゃん | 甘々 | 103 |
| 20.vvm | ユーレイちゃん | 哀しみ | 104 |
| 20.vvm | ユーレイちゃん | ささやき | 105 |
| 20.vvm | ユーレイちゃん | ツクモちゃん | 106 |
| 21.vvm | 猫使アル | つよつよ | 110 |
| 21.vvm | 猫使アル | へろへろ | 111 |
| 21.vvm | 猫使ビィ | つよつよ | 112 |
| 21.vvm | 東北ずん子 | ノーマル | 107 |
| 21.vvm | 東北きりたん | ノーマル | 108 |
| 21.vvm | 東北イタコ | ノーマル | 109 |
| 22.vvm | あんこもん | ノーマル | 113 |
| 22.vvm | あんこもん | つよつよ | 114 |
| 22.vvm | あんこもん | よわよわ | 115 |
| 22.vvm | あんこもん | けだるげ | 116 |
| 23.vvm | あんこもん | ささやき | 117 |
"#;

/// `s` cut at every `sep`, as `str::split` cuts it: `k` separators give
/// `k + 1` pieces.
pub open spec fn split_seq(s: Seq<char>, sep: char) -> Seq<Seq<char>>
    decreases s.len(),
{
    if s.len() == 0 {
        seq![Seq::<char>::empty()]
    } else {
        let p = split_seq(s.drop_last(), sep);
        if s.last() == sep {
            p.push(Seq::<char>::empty())
        } else {
            p.update(p.len() - 1, p.last().push(s.last()))
        }
    }
}

pub proof fn lemma_split_nonempty(s: Seq<char>, sep: char)
    ensures
        split_seq(s, sep).len() >= 1,
    decreases s.len(),
{
    if s.len() > 0 {
        lemma_split_nonempty(s.drop_last(), sep);
    }
}

/// Cuts `s` at every `sep`.
pub fn split_chars(s: &Vec<char>, sep: char) -> (r: Vec<Vec<char>>)
    ensures
        r@.map_values(|p: Vec<char>| p@) == split_seq(s@, sep),
{
    let mut done: Vec<Vec<char>> = Vec::new();
    let mut cur: Vec<char> = Vec::new();
    let mut i: usize = 0;
    while i < s.len()
        invariant
            i <= s.len(),
            done@.map_values(|p: Vec<char>| p@).push(cur@) == split_seq(s@.subrange(0, i as int), sep),
        decreases s.len() - i,
    {
        let ghost before = s@.subrange(0, i as int);
        let ghost after = s@.subrange(0, i + 1);
        assert(after.drop_last() =~= before);
        proof {
            lemma_split_nonempty(before, sep);
        }
        if s[i] == sep {
            let piece = cur;
            done.push(piece);
            cur = Vec::new();
            assert(done@.map_values(|p: Vec<char>| p@) =~= split_seq(before, sep));
            assert(done@.map_values(|p: Vec<char>| p@).push(cur@) =~= split_seq(after, sep));
        } else {
            let ghost old_done = done@.map_values(|p: Vec<char>| p@);
            cur.push(s[i]);
            assert(done@.map_values(|p: Vec<char>| p@).push(cur@) =~= split_seq(after, sep));
        }
        i = i + 1;
    }
    assert(s@.subrange(0, s.len() as int) =~= s@);
    done.push(cur);
    done
}

/// A style-table row read from one line; `None` for lines that hold no row
/// (headers, the separator row, blank lines, a malformed style ID).
pub open spec fn parse_style_line(line: Seq<char>) -> Option<StyleEntry> {
    let t = trim(line);
    if !(t.len() > 0 && t[0] == '|') {
        None
    } else {
        let cols = split_seq(t, '|').map_values(|p: Seq<char>| trim(p));
        if cols.len() < 6 {
            None
        } else if cols[1].len() == 0 || cols[1] == "---"@ || cols[1] == "VVMファイル名"@ {
            None
        } else {
            match parse_unsigned(cols[4], u32::MAX as nat) {
                None => None,
                Some(id) => Some(
                    StyleEntry {
                        vvm_file: cols[1],
                        speaker_name: cols[2],
                        style_name: cols[3],
                        style_id: id as u32,
                    },
                ),
            }
        }
    }
}

/// The rows of a table given as its lines, in order.
pub open spec fn parse_style_lines(lines: Seq<Seq<char>>) -> Seq<StyleEntry> {
    lines.filter_map(|l: Seq<char>| parse_style_line(l))
}

/// The whole catalog.
pub open spec fn catalog() -> Seq<StyleEntry> {
    parse_style_lines(split_seq(VOICE_STYLE_TABLE@, '\n'))
}


fn trim_all(parts: &Vec<Vec<char>>) -> (r: Vec<Vec<char>>)
    ensures
        r@.map_values(|p: Vec<char>| p@) == parts@.map_values(|p: Vec<char>| p@).map_values(
            |p: Seq<char>| trim(p),
        ),
{
    let mut r: Vec<Vec<char>> = Vec::new();
    let mut i: usize = 0;
    while i < parts.len()
        invariant
            i <= parts.len(),
            r@.len() == i,
            forall|j: int| 0 <= j < i ==> #[trigger] r@[j]@ == trim(parts@[j]@),
        decreases parts.len() - i,
    {
        r.push(trim_chars(&parts[i]));
        i = i + 1;
    }
    assert(r@.map_values(|p: Vec<char>| p@) =~= parts@.map_values(|p: Vec<char>| p@).map_values(
        |p: Seq<char>| trim(p),
    ));
    r
}

/// `str::parse::<u32>` on a character sequence; `None` where it fails.
pub fn parse_u32_chars(s: &Vec<char>) -> (r: Option<u32>)
    ensures
        match r {
            Some(v) => parse_unsigned(s@, u32::MAX as nat) == Some(v as nat),
            None => parse_unsigned(s@, u32::MAX as nat) is None,
        },
{
    match parse_u64_chars(s) {
        Ok(v) => {
            if v <= u32::MAX as u64 {
                Some(v as u32)
            } else {
                None
            }
        },
        Err(_) => None,
    }
}

/// Reads one row of the style table from a line.
pub fn parse_voice_style_line(line: &Vec<char>) -> (r: Option<VoiceStyleEntry>)
    ensures
        match r {
            Some(e) => parse_style_line(line@) == Some(e@),
            None => parse_style_line(line@) is None,
        },
{
    let t = trim_chars(line);
    if !(t.len() > 0 && t[0] == '|') {
        return None;
    }
    let parts = split_chars(&t, '|');
    let cols = trim_all(&parts);
    let ghost cv = split_seq(t@, '|').map_values(|p: Seq<char>| trim(p));
    assert(cols@.map_values(|p: Vec<char>| p@) =~= cv);
    if cols.len() < 6 {
        return None;
    }
    assert(cols@[1]@ == cv[1]);
    assert(cols@[4]@ == cv[4]);
    if cols[1].len() == 0 || chars_eq_str(&cols[1], "---") || chars_eq_str(
        &cols[1],
        "VVMファイル名",
    ) {
        return None;
    }
    match parse_u32_chars(&cols[4]) {
        None => None,
        Some(id) => {
            assert(cols@[2]@ == cv[2]);
            assert(cols@[3]@ == cv[3]);
            Some(
                VoiceStyleEntry {
                    vvm_file: chars_to_string(&cols[1]),
                    speaker_name: chars_to_string(&cols[2]),
                    style_name: chars_to_string(&cols[3]),
                    style_id: id,
                },
            )
        },
    }
}

/// Reads every row of a table given as text.
pub fn parse_style_table(table: &str) -> (r: Vec<VoiceStyleEntry>)
    ensures
        entries_view(r@) == parse_style_lines(split_seq(table@, '\n')),
{
    let chars = str_to_chars(table);
    let lines = split_chars(&chars, '\n');
    let ghost lv = lines@.map_values(|p: Vec<char>| p@);
    let mut r: Vec<VoiceStyleEntry> = Vec::new();
    let mut i: usize = 0;
    while i < lines.len()
        invariant
            i <= lines.len(),
            lv == lines@.map_values(|p: Vec<char>| p@),
            entries_view(r@) == parse_style_lines(lv.subrange(0, i as int)),
        decreases lines.len() - i,
    {
        let ghost pre = lv.subrange(0, i as int);
        let ghost next = lv.subrange(0, i + 1);
        assert(next.drop_last() =~= pre);
        assert(next.last() == lines@[i as int]@);
        match parse_voice_style_line(&lines[i]) {
            Some(e) => {
                r.push(e);
                assert(entries_view(r@) =~= parse_style_lines(next));
            },
            None => {
                assert(entries_view(r@) =~= parse_style_lines(next));
            },
        }
        i = i + 1;
    }
    assert(lv.subrange(0, lines.len() as int) =~= lv);
    r
}

/// All rows of the catalog, in table order.
pub fn entries() -> (r: Vec<VoiceStyleEntry>)
    ensures
        entries_view(r@) == catalog(),
{
    parse_style_table(VOICE_STYLE_TABLE)
}


/// The ideographic space U+3000 turned into an ASCII space.
pub open spec fn widen_space(s: Seq<char>) -> Seq<char> {
    s.map_values(|c: char| if c == '\u{3000}' { ' ' } else { c })
}

/// The key under which names are compared: trimmed, ideographic spaces made
/// ASCII spaces, lower-cased.
pub open spec fn name_key(s: Seq<char>) -> Seq<char> {
    unicode_lowercase(widen_space(trim(s)))
}

/// The comparison key of a name.
pub fn normalize_text(input: &Vec<char>) -> (r: Vec<char>)
    ensures
        r@ == name_key(input@),
{
    let t = trim_chars(input);
    let mut w: Vec<char> = Vec::new();
    let mut i: usize = 0;
    while i < t.len()
        invariant
            i <= t.len(),
            w@ == widen_space(t@.subrange(0, i as int)),
        decreases t.len() - i,
    {
        let c = t[i];
        w.push(if c == '\u{3000}' { ' ' } else { c });
        i = i + 1;
        assert(w@ =~= widen_space(t@.subrange(0, i as int)));
    }
    assert(t@.subrange(0, t.len() as int) =~= t@);
    let ws = chars_to_string(&w);
    let lower = lowercase_str(ws.as_str());
    str_to_chars(lower.as_str())
}

pub fn normalize_str(input: &str) -> (r: Vec<char>)
    ensures
        r@ == name_key(input@),
{
    let v = str_to_chars(input);
    normalize_text(&v)
}

/// Speaker names of the catalog, each once, in order of first appearance.
pub open spec fn catalog_speaker_names() -> Seq<Seq<char>> {
    dedup(catalog().map_values(|e: StyleEntry| e.speaker_name))
}

/// Every distinct speaker name, in table order.
pub fn speaker_names() -> (r: Vec<String>)
    ensures
        strs_view(r@) == catalog_speaker_names(),
{
    let es = entries();
    let ghost names = catalog().map_values(|e: StyleEntry| e.speaker_name);
    let mut out: Vec<String> = Vec::new();
    let mut i: usize = 0;
    while i < es.len()
        invariant
            i <= es.len(),
            entries_view(es@) == catalog(),
            names == catalog().map_values(|e: StyleEntry| e.speaker_name),
            strs_view(out@) == dedup(names.subrange(0, i as int)),
        decreases es.len() - i,
    {
        let ghost pre = names.subrange(0, i as int);
        assert(names.subrange(0, i + 1).drop_last() =~= pre);
        assert(names[i as int] == es@[i as int].speaker_name@);
        if !contains_string(&out, &es[i].speaker_name) {
            out.push(es[i].speaker_name.clone());
        }
        assert(strs_view(out@) =~= dedup(names.subrange(0, i + 1)));
        i = i + 1;
    }
    assert(names.subrange(0, es.len() as int) =~= names);
    out
}

/// The style names of the entries whose speaker has the key `key`.
pub open spec fn style_names_of(es: Seq<StyleEntry>, key: Seq<char>) -> Seq<Seq<char>>
    decreases es.len(),
{
    if es.len() == 0 {
        Seq::empty()
    } else {
        let r = style_names_of(es.drop_last(), key);
        if name_key(es.last().speaker_name) == key {
            r.push(es.last().style_name)
        } else {
            r
        }
    }
}

/// The style names of a speaker, each once, in table order; the speaker is
/// matched by its comparison key.
pub fn styles_for_speaker(speaker: &str) -> (r: Vec<String>)
    ensures
        strs_view(r@) == dedup(style_names_of(catalog(), name_key(speaker@))),
{
    let key = normalize_str(speaker);
    let es = entries();
    let mut out: Vec<String> = Vec::new();
    let mut i: usize = 0;
    while i < es.len()
        invariant
            i <= es.len(),
            entries_view(es@) == catalog(),
            key@ == name_key(speaker@),
            strs_view(out@) == dedup(style_names_of(catalog().subrange(0, i as int), key@)),
        decreases es.len() - i,
    {
        let ghost pre = catalog().subrange(0, i as int);
        let ghost nxt = catalog().subrange(0, i + 1);
        assert(nxt.drop_last() =~= pre);
        assert(nxt.last() == es@[i as int]@);
        let sk = normalize_text(&str_to_chars(es[i].speaker_name.as_str()));
        if chars_eq(&sk, &key) {
            assert(style_names_of(pre, key@).push(es@[i as int].style_name@).drop_last() =~= style_names_of(pre, key@));
            if !contains_string(&out, &es[i].style_name) {
                out.push(es[i].style_name.clone());
            }
        }
        assert(strs_view(out@) =~= dedup(style_names_of(nxt, key@)));
        i = i + 1;
    }
    assert(catalog().subrange(0, es.len() as int) =~= catalog());
    out
}

/// Entry `i` of the catalog is of the given speaker and style, by key.
pub open spec fn entry_matches(i: int, speaker: Seq<char>, style: Seq<char>) -> bool {
    &&& name_key(catalog()[i].speaker_name) == name_key(speaker)
    &&& name_key(catalog()[i].style_name) == name_key(style)
}

/// The style ID of the first entry with the given speaker and style (by key).
pub fn find_style_id(speaker: &str, style: &str) -> (r: Option<u32>)
    ensures
        match r {
            Some(id) => exists|i: int|
                0 <= i < catalog().len() && entry_matches(i, speaker@, style@) && catalog()[i].style_id
                    == id && forall|j: int| 0 <= j < i ==> !entry_matches(j, speaker@, style@),
            None => forall|i: int| 0 <= i < catalog().len() ==> !entry_matches(i, speaker@, style@),
        },
{
    let speaker_key = normalize_str(speaker);
    let style_key = normalize_str(style);
    let es = entries();
    let mut i: usize = 0;
    while i < es.len()
        invariant
            i <= es.len(),
            entries_view(es@) == catalog(),
            speaker_key@ == name_key(speaker@),
            style_key@ == name_key(style@),
            forall|j: int| 0 <= j < i ==> !entry_matches(j, speaker@, style@),
        decreases es.len() - i,
    {
        assert(catalog()[i as int] == es@[i as int]@);
        let a = normalize_text(&str_to_chars(es[i].speaker_name.as_str()));
        let b = normalize_text(&str_to_chars(es[i].style_name.as_str()));
        if chars_eq(&a, &speaker_key) && chars_eq(&b, &style_key) {
            assert(entry_matches(i as int, speaker@, style@));
            return Some(es[i].style_id);
        }
        i = i + 1;
    }
    None
}

/// The first catalog entry with the given style ID.
pub open spec fn first_with_id(id: u32, i: int) -> bool {
    &&& 0 <= i < catalog().len()
    &&& catalog()[i].style_id == id
    &&& forall|j: int| 0 <= j < i ==> catalog()[j].style_id != id
}

fn find_entry_by_id(style_id: u32) -> (r: Option<VoiceStyleEntry>)
    ensures
        match r {
            Some(e) => exists|i: int| first_with_id(style_id, i) && catalog()[i] == e@,
            None => forall|i: int| 0 <= i < catalog().len() ==> catalog()[i].style_id != style_id,
        },
{
    let es = entries();
    let mut i: usize = 0;
    while i < es.len()
        invariant
            i <= es.len(),
            entries_view(es@) == catalog(),
            forall|j: int| 0 <= j < i ==> catalog()[j].style_id != style_id,
        decreases es.len() - i,
    {
        assert(catalog()[i as int] == es@[i as int]@);
        if es[i].style_id == style_id {
            let e = es[i].clone_entry();
            assert(first_with_id(style_id, i as int));
            return Some(e);
        }
        i = i + 1;
    }
    None
}

/// The speaker name of the first entry with the style ID.
pub fn speaker_name_for_id(style_id: u32) -> (r: Option<String>)
    ensures
        match r {
            Some(n) => exists|i: int| first_with_id(style_id, i) && catalog()[i].speaker_name == n@,
            None => forall|i: int| 0 <= i < catalog().len() ==> catalog()[i].style_id != style_id,
        },
{
    match find_entry_by_id(style_id) {
        Some(e) => Some(e.speaker_name),
        None => None,
    }
}

/// The style name of the first entry with the style ID.
pub fn style_name_for_id(style_id: u32) -> (r: Option<String>)
    ensures
        match r {
            Some(n) => exists|i: int| first_with_id(style_id, i) && catalog()[i].style_name == n@,
            None => forall|i: int| 0 <= i < catalog().len() ==> catalog()[i].style_id != style_id,
        },
{
    match find_entry_by_id(style_id) {
        Some(e) => Some(e.style_name),
        None => None,
    }
}

/// The names whose key contains `partial_key`; all of them when it is empty.
pub open spec fn names_matching(ns: Seq<Seq<char>>, partial_key: Seq<char>) -> Seq<Seq<char>>
    decreases ns.len(),
{
    if ns.len() == 0 {
        ns
    } else {
        let r = names_matching(ns.drop_last(), partial_key);
        if partial_key.len() == 0 || contains_seq(name_key(ns.last()), partial_key) {
            r.push(ns.last())
        } else {
            r
        }
    }
}

/// Up to `limit` speaker names whose key contains the key of `partial`.
pub fn suggest_speakers(partial: &str, limit: usize) -> (r: Vec<String>)
    ensures
        strs_view(r@) == take_at_most(
            names_matching(catalog_speaker_names(), name_key(partial@)),
            limit as nat,
        ),
{
    let pk = normalize_str(partial);
    let names = speaker_names();
    let ghost ns = strs_view(names@);
    let mut out: Vec<String> = Vec::new();
    let mut i: usize = 0;
    while i < names.len()
        invariant
            i <= names.len(),
            ns == strs_view(names@),
            pk@ == name_key(partial@),
            strs_view(out@) == take_at_most(names_matching(ns.subrange(0, i as int), pk@), limit as nat),
        decreases names.len() - i,
    {
        let ghost pre = ns.subrange(0, i as int);
        let ghost nxt = ns.subrange(0, i + 1);
        assert(nxt.drop_last() =~= pre);
        assert(nxt.last() == names@[i as int]@);
        let ghost m = names_matching(pre, pk@);
        let key = normalize_text(&str_to_chars(names[i].as_str()));
        if pk.len() == 0 || contains_chars(&key, &pk) {
            proof {
                lemma_take_at_most_push(m, names@[i as int]@, limit as nat);
            }
            if out.len() < limit {
                out.push(names[i].clone());
            }
        }
        assert(strs_view(out@) =~= take_at_most(names_matching(nxt, pk@), limit as nat));
        i = i + 1;
    }
    assert(ns.subrange(0, names.len() as int) =~= ns);
    out
}

/// An entry is kept by `suggest_styles`: of the filtered speaker when there is
/// a filter, and with a style whose key contains the partial key.
pub open spec fn style_suggested(e: StyleEntry, partial_key: Seq<char>, speaker_key: Option<Seq<char>>) -> bool {
    &&& (speaker_key matches Some(k) ==> name_key(e.speaker_name) == k)
    &&& (partial_key.len() == 0 || contains_seq(name_key(e.style_name), partial_key))
}

pub open spec fn styles_matching(
    es: Seq<StyleEntry>,
    partial_key: Seq<char>,
    speaker_key: Option<Seq<char>>,
) -> Seq<StyleEntry>
    decreases es.len(),
{
    if es.len() == 0 {
        es
    } else {
        let r = styles_matching(es.drop_last(), partial_key, speaker_key);
        if style_suggested(es.last(), partial_key, speaker_key) {
            r.push(es.last())
        } else {
            r
        }
    }
}

pub open spec fn option_key(s: Option<&str>) -> Option<Seq<char>> {
    match s {
        Some(x) => Some(name_key(x@)),
        None => None,
    }
}

/// Up to `limit` catalog entries whose style key contains the key of
/// `partial`, of the speaker `speaker_filter` names when it is given.
pub fn suggest_styles(partial: &str, speaker_filter: Option<&str>, limit: usize) -> (r: Vec<
    VoiceStyleEntry,
>)
    ensures
        entries_view(r@) == take_at_most(
            styles_matching(catalog(), name_key(partial@), option_key(speaker_filter)),
            limit as nat,
        ),
{
    let pk = normalize_str(partial);
    let sk: Option<Vec<char>> = match speaker_filter {
        Some(s) => Some(normalize_str(s)),
        None => None,
    };
    let ghost skv = option_key(speaker_filter);
    let es = entries();
    let mut out: Vec<VoiceStyleEntry> = Vec::new();
    let mut i: usize = 0;
    while i < es.len()
        invariant
            i <= es.len(),
            entries_view(es@) == catalog(),
            pk@ == name_key(partial@),
            skv == option_key(speaker_filter),
            match sk {
                Some(k) => skv == Some(k@),
                None => skv is None,
            },
            entries_view(out@) == take_at_most(
                styles_matching(catalog().subrange(0, i as int), pk@, skv),
                limit as nat,
            ),
        decreases es.len() - i,
    {
        let ghost pre = catalog().subrange(0, i as int);
        let ghost nxt = catalog().subrange(0, i + 1);
        assert(nxt.drop_last() =~= pre);
        assert(nxt.last() == es@[i as int]@);
        let speaker_ok = match &sk {
            Some(k) => {
                let a = normalize_text(&str_to_chars(es[i].speaker_name.as_str()));
                chars_eq(&a, k)
            },
            None => true,
        };
        let style_ok = if speaker_ok {
            if pk.len() == 0 {
                true
            } else {
                let b = normalize_text(&str_to_chars(es[i].style_name.as_str()));
                contains_chars(&b, &pk)
            }
        } else {
            false
        };
        if style_ok {
            proof {
                lemma_take_at_most_push(styles_matching(pre, pk@, skv), es@[i as int]@, limit as nat);
            }
            if out.len() < limit {
                out.push(es[i].clone_entry());
            }
        }
        assert(entries_view(out@) =~= take_at_most(styles_matching(nxt, pk@, skv), limit as nat));
        i = i + 1;
    }
    assert(catalog().subrange(0, es.len() as int) =~= catalog());
    out
}

/// A name's key has `partial_key` somewhere in it (or `partial_key` is
/// empty).
pub open spec fn key_has_part(name: Seq<char>, partial_key: Seq<char>) -> bool {
    partial_key.len() == 0 || exists|at: int| crate::text::occurs_at(name_key(name), partial_key, at)
}

proof fn lemma_names_matching_members(ns: Seq<Seq<char>>, pk: Seq<char>)
    ensures
        forall|x: Seq<char>| #[trigger] names_matching(ns, pk).contains(x) ==> ns.contains(x) && key_has_part(x, pk),
        forall|i: int| 0 <= i < ns.len() && key_has_part(ns[i], pk) ==> #[trigger] names_matching(ns, pk).contains(
            ns[i],
        ),
    decreases ns.len(),
{
    if ns.len() > 0 {
        let d = ns.drop_last();
        lemma_names_matching_members(d, pk);
        let m = names_matching(d, pk);
        assert forall|x: Seq<char>| #[trigger] names_matching(ns, pk).contains(x) implies ns.contains(x) && key_has_part(
            x,
            pk,
        ) by {
            if m.contains(x) {
                let j = choose|j: int| 0 <= j < d.len() && d[j] == x;
                assert(ns[j] == x);
            } else {
                assert(names_matching(ns, pk) == m.push(ns.last()));
                let j = choose|j: int| 0 <= j < m.push(ns.last()).len() && m.push(ns.last())[j] == x;
                assert(x == ns.last());
                assert(ns[ns.len() - 1] == x);
            }
        }
        assert forall|i: int| 0 <= i < ns.len() && key_has_part(ns[i], pk) implies #[trigger] names_matching(
            ns,
            pk,
        ).contains(ns[i]) by {
            if i < d.len() {
                assert(d[i] == ns[i]);
                assert(m.contains(d[i]));
                let j = choose|j: int| 0 <= j < m.len() && m[j] == d[i];
                if names_matching(ns, pk) != m {
                    assert(names_matching(ns, pk) == m.push(ns.last()));
                    assert(m.push(ns.last())[j] == m[j]);
                }
            } else {
                assert(ns[i] == ns.last());
                assert(names_matching(ns, pk) == m.push(ns.last()));
                assert(m.push(ns.last())[m.len() as int] == ns.last());
            }
        }
    }
}

/// Law: the speakers suggested for `partial` are catalog speakers whose key
/// has the key of `partial` somewhere in it (not only at its start); when
/// fewer than `limit` are suggested, every such speaker is among them.
pub proof fn lemma_suggested_speakers(partial: Seq<char>, limit: nat)
    ensures
        forall|x: Seq<char>|
            #[trigger] take_at_most(names_matching(catalog_speaker_names(), name_key(partial)), limit).contains(x)
                ==> catalog_speaker_names().contains(x) && key_has_part(x, name_key(partial)),
        take_at_most(names_matching(catalog_speaker_names(), name_key(partial)), limit).len() < limit ==> forall|
            i: int,
        |
            0 <= i < catalog_speaker_names().len() && key_has_part(catalog_speaker_names()[i], name_key(partial))
                ==> #[trigger] take_at_most(names_matching(catalog_speaker_names(), name_key(partial)), limit).contains(
                catalog_speaker_names()[i],
            ),
{
    let ns = catalog_speaker_names();
    let pk = name_key(partial);
    let m = names_matching(ns, pk);
    lemma_names_matching_members(ns, pk);
    let r = take_at_most(m, limit);
    assert forall|x: Seq<char>| #[trigger] r.contains(x) implies ns.contains(x) && key_has_part(x, pk) by {
        let j = choose|j: int| 0 <= j < r.len() && r[j] == x;
        assert(m[j] == x);
        assert(m.contains(x));
    }
    if r.len() < limit {
        assert(r == m);
    }
}

/// Law: the matching names are exactly the names whose key has the partial
/// key somewhere in it, kept in their order (vstd's `Seq::filter`).
pub proof fn lemma_names_matching_filter(ns: Seq<Seq<char>>, pk: Seq<char>)
    ensures
        names_matching(ns, pk) == ns.filter(|x: Seq<char>| key_has_part(x, pk)),
    decreases ns.len(),
{
    reveal(Seq::filter);
    if ns.len() > 0 {
        lemma_names_matching_filter(ns.drop_last(), pk);
    }
}

} // verus!
