//! Discord markup in speech text: links, code, spoilers, command mentions,
//! custom emoji, timestamps, server links, URLs and Markdown line markers are
//! replaced by what should be read aloud. Matching is done with the `regex`
//! crate; what each match is read as is decided here.
use vstd::prelude::*;
use vstd::string::*;
use crate::text::{chars_to_string, contains_chars, contains_seq, decimal, extend_chars, extend_str, parse_unsigned, parse_u64_chars, starts_with_chars, starts_with_seq, str_to_chars, trim, trim_chars, u64_to_decimal};
use crate::kana::{KanaPiece, plan_en2kana, kana_plan, pieces_view, plan_has_word, kana_join, en2kana_without_converter};
use chrono::TimeZone;
use crate::tts::{cap_total, cap_tts_text, shape_tts_chars, shape_tts_text};

verus! {

/// A piece of a text cut by a pattern: text between matches, or a match given
/// by its capture groups (group 0 is the whole match).
pub enum RegexPiece {
    Gap(String),
    Hit(Vec<Option<String>>),
}

pub enum RegexPieceView {
    Gap(Seq<char>),
    Hit(Seq<Option<Seq<char>>>),
}

pub open spec fn groups_view(g: Seq<Option<String>>) -> Seq<Option<Seq<char>>> {
    g.map_values(|o: Option<String>| match o {
        Some(s) => Some(s@),
        None => None,
    })
}

impl View for RegexPiece {
    type V = RegexPieceView;

    open spec fn view(&self) -> RegexPieceView {
        match self {
            RegexPiece::Gap(s) => RegexPieceView::Gap(s@),
            RegexPiece::Hit(g) => RegexPieceView::Hit(groups_view(g@)),
        }
    }
}

pub open spec fn regex_pieces_view(v: Seq<RegexPiece>) -> Seq<RegexPieceView> {
    v.map_values(|p: RegexPiece| p@)
}

/// What the `regex` crate makes of `text` with `pattern`: `None` when the
/// pattern does not compile, otherwise the text cut at the successive
/// non-overlapping matches of `captures_iter`, each match with its groups.
pub uninterp spec fn regex_split(pattern: Seq<char>, text: Seq<char>) -> Option<Seq<RegexPieceView>>;

/// `regex::Regex::new` followed by `Regex::captures_iter`: the text between
/// matches and the capture groups of every match, in order. Nothing about the
/// matching itself is stated beyond its being a function of the pattern and
/// the text.
#[verifier::external_body]
pub(crate) fn regex_pieces(pattern: &str, text: &str) -> (r: Option<Vec<RegexPiece>>)
    ensures
        match r {
            Some(v) => regex_split(pattern@, text@) == Some(regex_pieces_view(v@)),
            None => regex_split(pattern@, text@) is None,
        },
{
    let re = match regex::Regex::new(pattern) {
        Ok(re) => re,
        Err(_) => return None,
    };
    let mut out = Vec::new();
    let mut last = 0usize;
    for caps in re.captures_iter(text) {
        let whole = caps.get_match();
        out.push(RegexPiece::Gap(text[last..whole.start()].to_string()));
        out.push(RegexPiece::Hit(caps.iter().map(|g| g.map(|m| m.as_str().to_string())).collect()));
        last = whole.end();
    }
    out.push(RegexPiece::Gap(text[last..].to_string()));
    Some(out)
}

/// What `chrono` writes for the UNIX time `ts` shown at a fixed offset of
/// `offset_secs` east of UTC with the `strftime` format `fmt`; `None` when the
/// time or the offset is out of range.
pub uninterp spec fn local_time_text(ts: i64, offset_secs: i32, fmt: Seq<char>) -> Option<Seq<char>>;

/// The formats a timestamp is written with; each is made only of the
/// `strftime` items `%Y %m %d %H %M %S` and literal text, which `chrono`
/// renders without failing.
pub open spec fn timestamp_format(f: Seq<char>) -> bool {
    ||| f == "%H時%M分"@
    ||| f == "%H時%M分%S秒"@
    ||| f == "%Y年%m月%d日"@
    ||| f == "%Y年%m月%d日 %H時%M分%S秒"@
    ||| f == "%Y年%m月%d日 %H時%M分"@
}

/// `Utc.timestamp_opt(ts, 0).single()`, shown at `FixedOffset::east_opt` and
/// written with `DateTime::format`. Only that the result is a function of the
/// arguments is stated. The format is one of the timestamp formats: `chrono`
/// fails to render a format with an invalid item, and `to_string` then
/// panics.
#[verifier::external_body]
fn format_local_time(ts: i64, offset_secs: i32, fmt: &str) -> (r: Option<String>)
    requires
        timestamp_format(fmt@),
    ensures
        match r {
            Some(s) => local_time_text(ts, offset_secs, fmt@) == Some(s@),
            None => local_time_text(ts, offset_secs, fmt@) is None,
        },
{
    let offset = chrono::FixedOffset::east_opt(offset_secs)?;
    let dt = chrono::Utc.timestamp_opt(ts, 0).single()?;
    Some(dt.with_timezone(&offset).format(fmt).to_string())
}

/// The markup forms, in the order they are resolved.
#[derive(Clone, Copy)]
pub enum MarkupRule {
    MaskedLink,
    CodeBlock,
    InlineCode,
    Spoiler,
    SlashCommand,
    CustomEmoji,
    Timestamp,
    GuildNav,
    Url,
    Header,
    Subtext,
    Blockquote,
    ListMarker,
}

pub open spec fn rule_pattern(rule: MarkupRule) -> Seq<char> {
    match rule {
        MarkupRule::MaskedLink => r"\[([^\]]+)\]\((https?://[^)\s]+)\)"@,
        MarkupRule::CodeBlock => r"(?s)```.*?```"@,
        MarkupRule::InlineCode => r"`[^`\n]+`"@,
        MarkupRule::Spoiler => r"\|\|(.+?)\|\|"@,
        MarkupRule::SlashCommand => r"</([^:>]+):\d+>"@,
        MarkupRule::CustomEmoji => r"<a?:([A-Za-z0-9_]+):\d+>"@,
        MarkupRule::Timestamp => r"<t:(\d+)(?::([tTdDfFsSR]))?>"@,
        MarkupRule::GuildNav => r"<id:[^>]+>"@,
        MarkupRule::Url => r"https?://\S+"@,
        MarkupRule::Header => r"(?m)^\s{0,3}#{1,3}\s+"@,
        MarkupRule::Subtext => r"(?m)^\s*-#(?:\s+.*)?$"@,
        MarkupRule::Blockquote => r"(?m)^\s*>>?>\s?"@,
        MarkupRule::ListMarker => r"(?m)^\s*(?:[-*]|\d+\.)\s+"@,
    }
}

fn rule_pattern_str(rule: MarkupRule) -> (r: &'static str)
    ensures
        r@ == rule_pattern(rule),
{
    match rule {
        MarkupRule::MaskedLink => r"\[([^\]]+)\]\((https?://[^)\s]+)\)",
        MarkupRule::CodeBlock => r"(?s)```.*?```",
        MarkupRule::InlineCode => r"`[^`\n]+`",
        MarkupRule::Spoiler => r"\|\|(.+?)\|\|",
        MarkupRule::SlashCommand => r"</([^:>]+):\d+>",
        MarkupRule::CustomEmoji => r"<a?:([A-Za-z0-9_]+):\d+>",
        MarkupRule::Timestamp => r"<t:(\d+)(?::([tTdDfFsSR]))?>",
        MarkupRule::GuildNav => r"<id:[^>]+>",
        MarkupRule::Url => r"https?://\S+",
        MarkupRule::Header => r"(?m)^\s{0,3}#{1,3}\s+",
        MarkupRule::Subtext => r"(?m)^\s*-#(?:\s+.*)?$",
        MarkupRule::Blockquote => r"(?m)^\s*>>?>\s?",
        MarkupRule::ListMarker => r"(?m)^\s*(?:[-*]|\d+\.)\s+",
    }
}

/// Group `i` of a match, empty when it did not take part.
pub open spec fn group(gs: Seq<Option<Seq<char>>>, i: int) -> Seq<char> {
    if 0 <= i < gs.len() {
        match gs[i] {
            Some(g) => g,
            None => Seq::empty(),
        }
    } else {
        Seq::empty()
    }
}

pub open spec fn group_opt(gs: Seq<Option<Seq<char>>>, i: int) -> Option<Seq<char>> {
    if 0 <= i < gs.len() {
        gs[i]
    } else {
        None
    }
}

fn group_exec(gs: &Vec<Option<String>>, i: usize) -> (r: Vec<char>)
    ensures
        r@ == group(groups_view(gs@), i as int),
{
    if i < gs.len() {
        match &gs[i] {
            Some(g) => str_to_chars(g.as_str()),
            None => Vec::new(),
        }
    } else {
        Vec::new()
    }
}

/// `label` alone, or `label`, a space and the trimmed name when the trimmed
/// name is not empty.
pub open spec fn labelled(label: Seq<char>, name: Seq<char>) -> Seq<char> {
    if trim(name).len() == 0 {
        label
    } else {
        label + " "@ + trim(name)
    }
}

fn labelled_exec(label: &str, name: &Vec<char>) -> (r: Vec<char>)
    ensures
        r@ == labelled(label@, name@),
{
    let t = trim_chars(name);
    let mut out = str_to_chars(label);
    if t.len() > 0 {
        extend_str(&mut out, " ");
        extend_chars(&mut out, &t);
    }
    out
}

/// Seconds east of UTC of the time zone timestamps are read in (JST).
pub const TIMESTAMP_OFFSET_SECS: i32 = 32400;

/// The `strftime` format for a timestamp style letter.
pub open spec fn style_format(style: Seq<char>) -> Seq<char> {
    if style == "t"@ {
        "%H時%M分"@
    } else if style == "T"@ {
        "%H時%M分%S秒"@
    } else if style == "d"@ || style == "D"@ {
        "%Y年%m月%d日"@
    } else if style == "S"@ {
        "%Y年%m月%d日 %H時%M分%S秒"@
    } else {
        "%Y年%m月%d日 %H時%M分"@
    }
}

fn style_format_exec(style: &Vec<char>) -> (r: &'static str)
    ensures
        r@ == style_format(style@),
{
    if crate::text::chars_eq_str(style, "t") {
        "%H時%M分"
    } else if crate::text::chars_eq_str(style, "T") {
        "%H時%M分%S秒"
    } else if crate::text::chars_eq_str(style, "d") || crate::text::chars_eq_str(style, "D") {
        "%Y年%m月%d日"
    } else if crate::text::chars_eq_str(style, "S") {
        "%Y年%m月%d日 %H時%M分%S秒"
    } else {
        "%Y年%m月%d日 %H時%M分"
    }
}

/// The relative reading of `ts` seen at `now`: the distance in the largest
/// fitting unit (seconds, minutes, hours, days, 30-day months, 365-day years),
/// followed by 後 for the future (or now) and 前 for the past.
pub open spec fn relative_jp(ts: int, now: int) -> Seq<char> {
    let diff = ts - now;
    let abs = if diff < 0 {
        -diff
    } else {
        diff
    };
    let value = if abs < 60 {
        abs
    } else if abs < 3600 {
        abs / 60
    } else if abs < 86400 {
        abs / 3600
    } else if abs < 2592000 {
        abs / 86400
    } else if abs < 31536000 {
        abs / 2592000
    } else {
        abs / 31536000
    };
    let unit = if abs < 60 {
        "秒"@
    } else if abs < 3600 {
        "分"@
    } else if abs < 86400 {
        "時間"@
    } else if abs < 2592000 {
        "日"@
    } else if abs < 31536000 {
        "か月"@
    } else {
        "年"@
    };
    decimal(value as nat) + unit + if diff >= 0 {
        "後"@
    } else {
        "前"@
    }
}

/// The relative reading of a timestamp.
pub fn relative_time_jp(ts: i64, now: i64) -> (r: Vec<char>)
    ensures
        r@ == relative_jp(ts as int, now as int),
{
    let diff: i128 = (ts as i128) - (now as i128);
    let abs: i128 = if diff < 0 {
        -diff
    } else {
        diff
    };
    assert(abs <= 0x1_0000_0000_0000_0000);
    let (value, unit): (i128, &str) = if abs < 60 {
        (abs, "秒")
    } else if abs < 3600 {
        (abs / 60, "分")
    } else if abs < 86400 {
        (abs / 3600, "時間")
    } else if abs < 2592000 {
        (abs / 86400, "日")
    } else if abs < 31536000 {
        (abs / 2592000, "か月")
    } else {
        (abs / 31536000, "年")
    };
    assert(0 <= value <= u64::MAX);
    let mut out = u64_to_decimal(value as u64);
    extend_str(&mut out, unit);
    if diff >= 0 {
        extend_str(&mut out, "後");
    } else {
        extend_str(&mut out, "前");
    }
    out
}

/// The reading of a timestamp mention: its date and time in JST in the form
/// its style asks for, the relative reading for style `R`, and 日時 when the
/// time cannot be read.
pub open spec fn timestamp_reading(gs: Seq<Option<Seq<char>>>, now: i64) -> Seq<char> {
    match parse_unsigned(group(gs, 1), i64::MAX as nat) {
        None => "日時"@,
        Some(ts) => {
            let style = match group_opt(gs, 2) {
                Some(s) => s,
                None => "f"@,
            };
            match local_time_text(ts as i64, TIMESTAMP_OFFSET_SECS, style_format(style)) {
                None => "日時"@,
                Some(text) => if style == "R"@ {
                    relative_jp(ts as int, now as int)
                } else {
                    text
                },
            }
        },
    }
}

fn timestamp_reading_exec(gs: &Vec<Option<String>>, now: i64) -> (r: Vec<char>)
    ensures
        r@ == timestamp_reading(groups_view(gs@), now),
{
    let digits = group_exec(gs, 1);
    let ts: i64 = match parse_u64_chars(&digits) {
        Ok(v) => {
            if v <= i64::MAX as u64 {
                v as i64
            } else {
                return str_to_chars("日時");
            }
        },
        Err(_) => return str_to_chars("日時"),
    };
    let style: Vec<char> = if 2 < gs.len() {
        match &gs[2] {
            Some(s) => str_to_chars(s.as_str()),
            None => str_to_chars("f"),
        }
    } else {
        str_to_chars("f")
    };
    let fmt = style_format_exec(&style);
    assert(timestamp_format(fmt@));
    match format_local_time(ts, TIMESTAMP_OFFSET_SECS, fmt) {
        None => str_to_chars("日時"),
        Some(text) => {
            if crate::text::chars_eq_str(&style, "R") {
                relative_time_jp(ts, now)
            } else {
                str_to_chars(text.as_str())
            }
        },
    }
}

/// What one match of a rule is read as.
pub open spec fn hit_reading(rule: MarkupRule, gs: Seq<Option<Seq<char>>>, now: i64) -> Seq<char> {
    match rule {
        MarkupRule::MaskedLink => group(gs, 1),
        MarkupRule::CodeBlock => "コードブロック"@,
        MarkupRule::InlineCode => "コード"@,
        MarkupRule::Spoiler => "スポイラー"@,
        MarkupRule::SlashCommand => labelled("スラッシュコマンド"@, group(gs, 1)),
        MarkupRule::CustomEmoji => labelled("絵文字"@, group(gs, 1)),
        MarkupRule::Timestamp => timestamp_reading(gs, now),
        MarkupRule::GuildNav => "サーバー内リンク"@,
        MarkupRule::Url => "URL"@,
        _ => ""@,
    }
}

fn hit_reading_exec(rule: MarkupRule, gs: &Vec<Option<String>>, now: i64) -> (r: Vec<char>)
    ensures
        r@ == hit_reading(rule, groups_view(gs@), now),
{
    match rule {
        MarkupRule::MaskedLink => group_exec(gs, 1),
        MarkupRule::CodeBlock => str_to_chars("コードブロック"),
        MarkupRule::InlineCode => str_to_chars("コード"),
        MarkupRule::Spoiler => str_to_chars("スポイラー"),
        MarkupRule::SlashCommand => labelled_exec("スラッシュコマンド", &group_exec(gs, 1)),
        MarkupRule::CustomEmoji => labelled_exec("絵文字", &group_exec(gs, 1)),
        MarkupRule::Timestamp => timestamp_reading_exec(gs, now),
        MarkupRule::GuildNav => str_to_chars("サーバー内リンク"),
        MarkupRule::Url => str_to_chars("URL"),
        _ => str_to_chars(""),
    }
}

/// The text put back together with every match replaced by its reading.
pub open spec fn splice(ps: Seq<RegexPieceView>, rule: MarkupRule, now: i64) -> Seq<char>
    decreases ps.len(),
{
    if ps.len() == 0 {
        Seq::empty()
    } else {
        splice(ps.drop_last(), rule, now) + match ps.last() {
            RegexPieceView::Gap(g) => g,
            RegexPieceView::Hit(gs) => hit_reading(rule, gs, now),
        }
    }
}

/// One rule applied to the whole text; the text unchanged if the pattern did
/// not compile.
pub open spec fn apply_rule(rule: MarkupRule, s: Seq<char>, now: i64) -> Seq<char> {
    match regex_split(rule_pattern(rule), s) {
        Some(ps) => splice(ps, rule, now),
        None => s,
    }
}

/// A rule is tried only on texts that hold the characters its matches start
/// with; Markdown list markers only when the text has a line break or starts
/// with `- ` or `* `.
pub open spec fn rule_applies(rule: MarkupRule, s: Seq<char>) -> bool {
    match rule {
        MarkupRule::MaskedLink => contains_seq(s, "]("@),
        MarkupRule::CodeBlock => contains_seq(s, "```"@),
        MarkupRule::InlineCode => contains_seq(s, "`"@),
        MarkupRule::Spoiler => contains_seq(s, "||"@),
        MarkupRule::SlashCommand => contains_seq(s, "</"@),
        MarkupRule::CustomEmoji => contains_seq(s, "<:"@) || contains_seq(s, "<a:"@),
        MarkupRule::Timestamp => contains_seq(s, "<t:"@),
        MarkupRule::GuildNav => contains_seq(s, "<id:"@),
        MarkupRule::Url => contains_seq(s, "http://"@) || contains_seq(s, "https://"@),
        MarkupRule::Header => contains_seq(s, "#"@),
        MarkupRule::Subtext => contains_seq(s, "-#"@),
        MarkupRule::Blockquote => contains_seq(s, ">"@),
        MarkupRule::ListMarker => contains_seq(s, "\n"@) || starts_with_seq(s, "- "@)
            || starts_with_seq(s, "* "@),
    }
}

fn has(s: &Vec<char>, needle: &str) -> (r: bool)
    ensures
        r == contains_seq(s@, needle@),
{
    contains_chars(s, &str_to_chars(needle))
}

fn rule_applies_exec(rule: MarkupRule, s: &Vec<char>) -> (r: bool)
    ensures
        r == rule_applies(rule, s@),
{
    match rule {
        MarkupRule::MaskedLink => has(s, "]("),
        MarkupRule::CodeBlock => has(s, "```"),
        MarkupRule::InlineCode => has(s, "`"),
        MarkupRule::Spoiler => has(s, "||"),
        MarkupRule::SlashCommand => has(s, "</"),
        MarkupRule::CustomEmoji => has(s, "<:") || has(s, "<a:"),
        MarkupRule::Timestamp => has(s, "<t:"),
        MarkupRule::GuildNav => has(s, "<id:"),
        MarkupRule::Url => has(s, "http://") || has(s, "https://"),
        MarkupRule::Header => has(s, "#"),
        MarkupRule::Subtext => has(s, "-#"),
        MarkupRule::Blockquote => has(s, ">"),
        MarkupRule::ListMarker => has(s, "\n") || starts_with_chars(s, &str_to_chars("- "))
            || starts_with_chars(s, &str_to_chars("* ")),
    }
}

pub open spec fn markup_step(rule: MarkupRule, s: Seq<char>, now: i64) -> Seq<char> {
    if rule_applies(rule, s) {
        apply_rule(rule, s, now)
    } else {
        s
    }
}

/// One markup rule applied to a text, as `markup_step` says.
pub fn markup_step_exec(rule: MarkupRule, s: &Vec<char>, now: i64) -> (r: Vec<char>)
    ensures
        r@ == markup_step(rule, s@, now),
{
    if !rule_applies_exec(rule, s) {
        return crate::text::slice_chars(s, 0, s.len());
    }
    let text = chars_to_string(s);
    match regex_pieces(rule_pattern_str(rule), text.as_str()) {
        Some(p) => splice_markup(rule, &p, now),
        None => crate::text::slice_chars(s, 0, s.len()),
    }
}

/// The text put back together from the pieces a search with the pattern of
/// `rule` cut it into, each match replaced by its reading at time `now`.
pub fn splice_markup(rule: MarkupRule, pieces: &Vec<RegexPiece>, now: i64) -> (r: Vec<char>)
    ensures
        r@ == splice(regex_pieces_view(pieces@), rule, now),
{
    let ghost pv = regex_pieces_view(pieces@);
    let mut out: Vec<char> = Vec::new();
    let mut i: usize = 0;
    while i < pieces.len()
        invariant
            i <= pieces.len(),
            pv == regex_pieces_view(pieces@),
            out@ == splice(pv.subrange(0, i as int), rule, now),
        decreases pieces.len() - i,
    {
        let ghost pre = pv.subrange(0, i as int);
        assert(pv.subrange(0, i + 1).drop_last() =~= pre);
        match &pieces[i] {
            RegexPiece::Gap(g) => extend_str(&mut out, g.as_str()),
            RegexPiece::Hit(gs) => {
                let h = hit_reading_exec(rule, gs, now);
                extend_chars(&mut out, &h);
            },
        }
        i = i + 1;
    }
    assert(pv.subrange(0, pieces.len() as int) =~= pv);
    out
}

/// Every markup form resolved, in order, for a reading at time `now`.
pub open spec fn resolve_markup(s: Seq<char>, now: i64) -> Seq<char> {
    let s1 = markup_step(MarkupRule::MaskedLink, s, now);
    let s2 = markup_step(MarkupRule::CodeBlock, s1, now);
    let s3 = markup_step(MarkupRule::InlineCode, s2, now);
    let s4 = markup_step(MarkupRule::Spoiler, s3, now);
    let s5 = markup_step(MarkupRule::SlashCommand, s4, now);
    let s6 = markup_step(MarkupRule::CustomEmoji, s5, now);
    let s7 = markup_step(MarkupRule::Timestamp, s6, now);
    let s8 = markup_step(MarkupRule::GuildNav, s7, now);
    let s9 = markup_step(MarkupRule::Url, s8, now);
    let s10 = markup_step(MarkupRule::Header, s9, now);
    let s11 = markup_step(MarkupRule::Subtext, s10, now);
    let s12 = markup_step(MarkupRule::Blockquote, s11, now);
    markup_step(MarkupRule::ListMarker, s12, now)
}

pub fn resolve_markup_chars(s: &Vec<char>, now: i64) -> (r: Vec<char>)
    ensures
        r@ == resolve_markup(s@, now),
{
    let s1 = markup_step_exec(MarkupRule::MaskedLink, s, now);
    let s2 = markup_step_exec(MarkupRule::CodeBlock, &s1, now);
    let s3 = markup_step_exec(MarkupRule::InlineCode, &s2, now);
    let s4 = markup_step_exec(MarkupRule::Spoiler, &s3, now);
    let s5 = markup_step_exec(MarkupRule::SlashCommand, &s4, now);
    let s6 = markup_step_exec(MarkupRule::CustomEmoji, &s5, now);
    let s7 = markup_step_exec(MarkupRule::Timestamp, &s6, now);
    let s8 = markup_step_exec(MarkupRule::GuildNav, &s7, now);
    let s9 = markup_step_exec(MarkupRule::Url, &s8, now);
    let s10 = markup_step_exec(MarkupRule::Header, &s9, now);
    let s11 = markup_step_exec(MarkupRule::Subtext, &s10, now);
    let s12 = markup_step_exec(MarkupRule::Blockquote, &s11, now);
    markup_step_exec(MarkupRule::ListMarker, &s12, now)
}

/// The speech text of a message up to the kana reading of ASCII words:
/// markup resolved and the text shaped for the speech engine.
pub open spec fn tts_text_before_kana(input: Seq<char>, now: i64) -> Seq<char> {
    shape_tts_text(resolve_markup(input, now))
}

/// The kana-reading plan of a speech text read at time `now`; the words of
/// the plan go to the English-to-kana converter, and `finish_tts_text` joins
/// and caps the result.
pub fn plan_tts_text(input: &str, now: i64) -> (r: Vec<KanaPiece>)
    ensures
        pieces_view(r@) == kana_plan(tts_text_before_kana(input@, now)),
{
    let v = str_to_chars(input);
    let m = resolve_markup_chars(&v, now);
    let shaped = shape_tts_chars(&m);
    let text = chars_to_string(&shaped);
    plan_en2kana(text.as_str())
}

/// The speech text from its read-out form: cut at the total-length limit.
pub fn finish_tts_text(read: &str) -> (r: String)
    ensures
        r@ == cap_total(read@),
{
    let v = str_to_chars(read);
    let c = cap_tts_text(&v);
    chars_to_string(&c)
}

/// The whole speech text of a message read at `now`, when no ASCII word in it
/// needs the English-to-kana converter; `None` when one does.
pub fn normalize_tts_text_without_converter(input: &str, now: i64) -> (r: Option<String>)
    ensures
        match r {
            Some(s) => !plan_has_word(kana_plan(tts_text_before_kana(input@, now)))
                && s@ == cap_total(kana_join(kana_plan(tts_text_before_kana(input@, now)), Seq::empty())),
            None => plan_has_word(kana_plan(tts_text_before_kana(input@, now))),
        },
{
    let v = str_to_chars(input);
    let m = resolve_markup_chars(&v, now);
    let shaped = shape_tts_chars(&m);
    let text = chars_to_string(&shaped);
    match en2kana_without_converter(text.as_str()) {
        None => None,
        Some(read) => {
            assert(kana_join(kana_plan(text@), Seq::empty()) == read@);
            Some(finish_tts_text(read.as_str()))
        },
    }
}

/// Law: a relative timestamp reading ends in 前 ("ago") exactly when the
/// timestamp is before the time it is read at, and in 後 ("from now")
/// otherwise.
pub proof fn lemma_relative_jp_direction(ts: int, now: int)
    ensures
        relative_jp(ts, now).len() > 0,
        relative_jp(ts, now).last() == (if ts < now {
            '前'
        } else {
            '後'
        }),
        (relative_jp(ts, now).last() == '前') == (ts < now),
{
    reveal_strlit("前");
    reveal_strlit("後");
    let diff = ts - now;
    if diff >= 0 {
        assert("後"@.len() == 1);
        assert("後"@[0] == '後');
    } else {
        assert("前"@.len() == 1);
        assert("前"@[0] == '前');
    }
}

} // verus!
