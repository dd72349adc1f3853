//! Optional extensions of the speech pipeline, switched on by configuration:
//! a light rewrite of Internet slang before reading (`www` laughter and
//! repeated 草).
use vstd::prelude::*;
use vstd::string::*;
use crate::text::{chars_to_string, extend_chars, extend_str, is_whitespace, is_ws, str_to_chars, trim_chars, trim, seq_ascii_lower, to_ascii_lower, chars_eq_str};

verus! {

/// The switches of the extensions.
pub struct ForkExtConfig {
    pub enabled: bool,
    pub text_pipeline_enabled: bool,
}

impl ForkExtConfig {
    /// Everything off.
    pub fn new() -> (r: Self)
        ensures
            !r.enabled && !r.text_pipeline_enabled,
    {
        ForkExtConfig { enabled: false, text_pipeline_enabled: false }
    }

    /// The switches from the values of the environment variables `FORK_EXT_ENABLED` and
    /// `FORK_EXT_TEXT_PIPELINE_ENABLED` (`None` when unset); both default to
    /// off.
    pub fn from_env(enabled: Option<&str>, text_pipeline_enabled: Option<&str>) -> (r: Self)
        ensures
            r.enabled == env_flag(opt_view(enabled), false),
            r.text_pipeline_enabled == env_flag(opt_view(text_pipeline_enabled), false),
    {
        ForkExtConfig {
            enabled: parse_env_bool(enabled, false),
            text_pipeline_enabled: parse_env_bool(text_pipeline_enabled, false),
        }
    }
}

pub open spec fn opt_view(v: Option<&str>) -> Option<Seq<char>> {
    match v {
        Some(s) => Some(s@),
        None => None,
    }
}

/// A boolean setting: `1`, `true`, `yes` or `on` (ASCII case ignored,
/// surrounding whitespace ignored) is on, any other value off, and an unset
/// value `default`.
pub open spec fn env_flag(value: Option<Seq<char>>, default: bool) -> bool {
    match value {
        None => default,
        Some(v) => {
            let n = seq_ascii_lower(trim(v));
            n == "1"@ || n == "true"@ || n == "yes"@ || n == "on"@
        },
    }
}

/// Reads a boolean setting value.
pub fn parse_env_bool(value: Option<&str>, default: bool) -> (r: bool)
    ensures
        r == env_flag(opt_view(value), default),
{
    match value {
        None => default,
        Some(v) => {
            let t = trim_chars(&str_to_chars(v));
            let mut n: Vec<char> = Vec::new();
            let mut i: usize = 0;
            while i < t.len()
                invariant
                    i <= t.len(),
                    n@ == seq_ascii_lower(t@.subrange(0, i as int)),
                decreases t.len() - i,
            {
                n.push(to_ascii_lower(t[i]));
                i = i + 1;
                assert(n@ =~= seq_ascii_lower(t@.subrange(0, i as int)));
            }
            assert(t@.subrange(0, t.len() as int) =~= t@);
            chars_eq_str(&n, "1") || chars_eq_str(&n, "true") || chars_eq_str(&n, "yes")
                || chars_eq_str(&n, "on")
        },
    }
}

/// `w` or `W`, the laughter letter.
pub open spec fn is_w(c: char) -> bool {
    c == 'w' || c == 'W'
}

/// The length of the run of laughter letters that ends the token.
pub open spec fn trailing_w_len(tok: Seq<char>) -> nat
    decreases tok.len(),
{
    if tok.len() > 0 && is_w(tok.last()) {
        1 + trailing_w_len(tok.drop_last())
    } else {
        0
    }
}

/// A token ending in at least two laughter letters after at least one other
/// character (or after a first laughter letter) becomes its stem followed by
/// ` わら`; the stem is everything before the final run, or its first
/// character when the token is laughter letters only.
pub open spec fn laugh_token(tok: Seq<char>) -> Seq<char> {
    let l = trailing_w_len(tok);
    if tok.len() >= 3 && l >= 2 {
        let stem_len = if tok.len() - l >= 1 {
            tok.len() - l
        } else {
            1
        };
        tok.subrange(0, stem_len as int) + " わら"@
    } else {
        tok
    }
}

/// The end of the run of non-whitespace characters that starts at `j`.
pub open spec fn token_end(s: Seq<char>, j: int) -> int
    decreases s.len() - j,
{
    if 0 <= j < s.len() && !is_ws(s[j]) {
        token_end(s, j + 1)
    } else {
        j
    }
}

/// The text from `i` with every whitespace-separated token rewritten by
/// `laugh_token`.
pub open spec fn laugh_from(s: Seq<char>, i: int) -> Seq<char>
    decreases s.len() - i,
{
    if i < 0 || i >= s.len() {
        Seq::empty()
    } else if is_ws(s[i]) {
        seq![s[i]] + laugh_from(s, i + 1)
    } else {
        let j = token_end(s, i);
        if j <= i || j > s.len() {
            Seq::empty()
        } else {
            laugh_token(s.subrange(i, j)) + laugh_from(s, j)
        }
    }
}

/// The end of the run of 草 that starts at `j`.
pub open spec fn grass_end(s: Seq<char>, j: int) -> int
    decreases s.len() - j,
{
    if 0 <= j < s.len() && s[j] == '草' {
        grass_end(s, j + 1)
    } else {
        j
    }
}

/// The text from `i` with every run of two or more 草 made くさ.
pub open spec fn grass_from(s: Seq<char>, i: int) -> Seq<char>
    decreases s.len() - i,
{
    if i < 0 || i >= s.len() {
        Seq::empty()
    } else if s[i] == '草' && grass_end(s, i) >= i + 2 && grass_end(s, i) <= s.len() {
        "くさ"@ + grass_from(s, grass_end(s, i))
    } else {
        seq![s[i]] + grass_from(s, i + 1)
    }
}

/// The slang rewrite: laughter first, then repeated 草.
pub open spec fn slang_rewrite(s: Seq<char>) -> Seq<char> {
    if s.len() == 0 {
        Seq::empty()
    } else {
        grass_from(laugh_from(s, 0), 0)
    }
}

proof fn lemma_run_ends(s: Seq<char>, j: int)
    requires
        0 <= j <= s.len(),
    ensures
        j <= token_end(s, j) <= s.len(),
        j <= grass_end(s, j) <= s.len(),
        forall|k: int| j <= k < token_end(s, j) ==> !is_ws(#[trigger] s[k]),
    decreases s.len() - j,
{
    if j < s.len() {
        lemma_run_ends(s, j + 1);
    }
}

fn trailing_w_count(tok: &Vec<char>) -> (r: usize)
    ensures
        r == trailing_w_len(tok@),
        r <= tok.len(),
{
    let mut n: usize = 0;
    assert(tok@.subrange(0, tok.len() as int) =~= tok@);
    while n < tok.len() && (tok[tok.len() - 1 - n] == 'w' || tok[tok.len() - 1 - n] == 'W')
        invariant
            n <= tok.len(),
            trailing_w_len(tok@) == n + trailing_w_len(tok@.subrange(0, tok.len() - n)),
        decreases tok.len() - n,
    {
        let ghost pre = tok@.subrange(0, tok.len() - n);
        assert(pre.drop_last() =~= tok@.subrange(0, tok.len() - n - 1));
        n = n + 1;
    }
    proof {
        let rest = tok@.subrange(0, tok.len() - n);
        if n < tok.len() {
            assert(rest.last() == tok@[tok.len() - 1 - n]);
        }
    }
    n
}

fn laugh_token_exec(tok: &Vec<char>) -> (r: Vec<char>)
    ensures
        r@ == laugh_token(tok@),
{
    let l = trailing_w_count(tok);
    if tok.len() >= 3 && l >= 2 {
        let stem_len = if tok.len() - l >= 1 {
            tok.len() - l
        } else {
            1
        };
        let mut out = crate::text::slice_chars(tok, 0, stem_len);
        extend_str(&mut out, " わら");
        out
    } else {
        crate::text::slice_chars(tok, 0, tok.len())
    }
}

fn laugh_pass(s: &Vec<char>) -> (r: Vec<char>)
    ensures
        r@ == laugh_from(s@, 0),
{
    let mut out: Vec<char> = Vec::new();
    let mut i: usize = 0;
    while i < s.len()
        invariant
            i <= s.len(),
            out@ + laugh_from(s@, i as int) == laugh_from(s@, 0),
        decreases s.len() - i,
    {
        proof {
            lemma_run_ends(s@, i as int);
        }
        if is_whitespace(s[i]) {
            out.push(s[i]);
            i = i + 1;
        } else {
            let start = i;
            while i < s.len() && !is_whitespace(s[i])
                invariant
                    start <= i <= s.len(),
                    token_end(s@, start as int) == token_end(s@, i as int),
                decreases s.len() - i,
            {
                i = i + 1;
            }
            let tok = crate::text::slice_chars(s, start, i);
            let t = laugh_token_exec(&tok);
            extend_chars(&mut out, &t);
        }
    }
    assert(out@ + Seq::<char>::empty() =~= out@);
    out
}

fn grass_pass(s: &Vec<char>) -> (r: Vec<char>)
    ensures
        r@ == grass_from(s@, 0),
{
    let mut out: Vec<char> = Vec::new();
    let mut i: usize = 0;
    while i < s.len()
        invariant
            i <= s.len(),
            out@ + grass_from(s@, i as int) == grass_from(s@, 0),
        decreases s.len() - i,
    {
        proof {
            lemma_run_ends(s@, i as int);
        }
        if s[i] == '草' {
            let mut j = i;
            while j < s.len() && s[j] == '草'
                invariant
                    i <= j <= s.len(),
                    grass_end(s@, i as int) == grass_end(s@, j as int),
                decreases s.len() - j,
            {
                j = j + 1;
            }
            proof {
                lemma_run_ends(s@, j as int);
            }
            if j - i >= 2 {
                extend_str(&mut out, "くさ");
                i = j;
            } else {
                out.push(s[i]);
                i = i + 1;
            }
        } else {
            out.push(s[i]);
            i = i + 1;
        }
    }
    assert(out@ + Seq::<char>::empty() =~= out@);
    out
}

/// The slang rewrite of a speech text.
pub fn preprocess_tts_text(input: &str) -> (r: String)
    ensures
        r@ == slang_rewrite(input@),
{
    let s = str_to_chars(input);
    if s.len() == 0 {
        return String::new();
    }
    let a = laugh_pass(&s);
    let b = grass_pass(&a);
    chars_to_string(&b)
}

/// A rewrite applied to speech text before reading.
pub trait TtsTextPreprocessor {
    spec fn spec_preprocess(&self, input: Seq<char>) -> Seq<char>;

    fn preprocess(&self, input: &str) -> (r: String)
        ensures
            r@ == self.spec_preprocess(input@),
    ;
}

/// Leaves the text as it is.
pub struct NoopTtsTextPreprocessor;

impl TtsTextPreprocessor for NoopTtsTextPreprocessor {
    open spec fn spec_preprocess(&self, input: Seq<char>) -> Seq<char> {
        input
    }

    fn preprocess(&self, input: &str) -> (r: String) {
        String::from_str(input)
    }
}

/// Applies the slang rewrite.
pub struct ForkTtsTextPreprocessor;

impl TtsTextPreprocessor for ForkTtsTextPreprocessor {
    open spec fn spec_preprocess(&self, input: Seq<char>) -> Seq<char> {
        slang_rewrite(input)
    }

    fn preprocess(&self, input: &str) -> (r: String) {
        preprocess_tts_text(input)
    }
}

/// The preprocessor that the configuration selects.
pub enum SelectedTtsTextPreprocessor {
    Noop(NoopTtsTextPreprocessor),
    Fork(ForkTtsTextPreprocessor),
}

impl TtsTextPreprocessor for SelectedTtsTextPreprocessor {
    open spec fn spec_preprocess(&self, input: Seq<char>) -> Seq<char> {
        match self {
            SelectedTtsTextPreprocessor::Noop(_) => input,
            SelectedTtsTextPreprocessor::Fork(_) => slang_rewrite(input),
        }
    }

    fn preprocess(&self, input: &str) -> (r: String) {
        match self {
            SelectedTtsTextPreprocessor::Noop(p) => p.preprocess(input),
            SelectedTtsTextPreprocessor::Fork(p) => p.preprocess(input),
        }
    }
}

/// The slang rewrite when both switches are on, no rewrite otherwise.
pub fn build_tts_text_preprocessor(config: &ForkExtConfig) -> (r: SelectedTtsTextPreprocessor)
    ensures
        (config.enabled && config.text_pipeline_enabled) <==> r is Fork,
{
    if config.enabled && config.text_pipeline_enabled {
        SelectedTtsTextPreprocessor::Fork(ForkTtsTextPreprocessor)
    } else {
        SelectedTtsTextPreprocessor::Noop(NoopTtsTextPreprocessor)
    }
}

} // verus!
