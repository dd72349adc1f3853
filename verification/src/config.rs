//! Settings of the bot, read from environment values, and the language
//! models a user can pick.
use vstd::prelude::*;
use vstd::string::*;
use crate::text::{chars_to_string, parse_unsigned, str_to_chars, trim, trim_chars, strs_view};
use crate::fork_ext::{env_flag, opt_view, parse_env_bool};

verus! {

/// The language models a user can pick.
#[derive(Clone, Copy, PartialEq, Eq, Structural, Debug)]
pub enum Models {
    Gpt5dot4Mini,
    Gpt5dot4Nano,
    O4Mini,
    O3,
    Gemini30Flash,
    Gemini30Pro,
    Gemini31Pro,
    GeminiAuto,
}

/// The name under which a model is shown, stored and requested.
pub open spec fn model_name(m: Models) -> Seq<char> {
    match m {
        Models::Gpt5dot4Mini => "gpt-5.4-mini"@,
        Models::Gpt5dot4Nano => "gpt-5.4-nano"@,
        Models::O4Mini => "o4-mini"@,
        Models::O3 => "o3"@,
        Models::Gemini30Flash => "gemini-3.0-flash"@,
        Models::Gemini30Pro => "gemini-3.0-pro"@,
        Models::Gemini31Pro => "gemini-3.1-pro"@,
        Models::GeminiAuto => "gemini-auto"@,
    }
}

/// The model a stored or typed name stands for: the names of `model_name`,
/// two older Gemini names kept as aliases, and the default model for any
/// other name.
pub open spec fn model_from_name(s: Seq<char>) -> Models {
    if s == "gpt-5.4-mini"@ {
        Models::Gpt5dot4Mini
    } else if s == "gpt-5.4-nano"@ {
        Models::Gpt5dot4Nano
    } else if s == "o4-mini"@ {
        Models::O4Mini
    } else if s == "o3"@ {
        Models::O3
    } else if s == "gemini-3.0-flash"@ || s == "gemini-2.5-flash"@ {
        Models::Gemini30Flash
    } else if s == "gemini-3.0-pro"@ || s == "gemini-2.5-pro"@ {
        Models::Gemini30Pro
    } else if s == "gemini-3.1-pro"@ {
        Models::Gemini31Pro
    } else if s == "gemini-auto"@ {
        Models::GeminiAuto
    } else {
        Models::Gpt5dot4Mini
    }
}

/// How much rate budget one request with the model costs.
/// Every model, in the order they are offered.
pub open spec fn model_list() -> Seq<Models> {
    seq![
        Models::Gpt5dot4Mini,
        Models::Gpt5dot4Nano,
        Models::O4Mini,
        Models::O3,
        Models::Gemini30Flash,
        Models::Gemini30Pro,
        Models::Gemini31Pro,
        Models::GeminiAuto,
    ]
}

pub open spec fn model_cost(m: Models) -> u64 {
    match m {
        Models::Gpt5dot4Mini => 3,
        Models::Gpt5dot4Nano => 1,
        Models::O4Mini => 3,
        Models::O3 => 6,
        Models::Gemini30Flash => 3,
        Models::Gemini30Pro => 6,
        Models::Gemini31Pro => 7,
        Models::GeminiAuto => 4,
    }
}

/// The effort a request asks the model to spend on reasoning.
#[derive(Clone, Copy, PartialEq, Eq, Structural, Debug)]
pub enum ReasoningLevel {
    Low,
}

/// The parameters of a request to a model.
pub struct ModelResponseParams {
    pub model: String,
    pub reasoning_effort: ReasoningLevel,
}

impl Models {
    /// The default model.
    pub fn default_model() -> (r: Models)
        ensures
            r == Models::Gpt5dot4Mini,
    {
        Models::Gpt5dot4Mini
    }

    /// Every model, in the order they are offered.
    pub fn list() -> (r: Vec<Models>)
        ensures
            r@ == model_list(),
    {
        let mut v = Vec::new();
        v.push(Models::Gpt5dot4Mini);
        v.push(Models::Gpt5dot4Nano);
        v.push(Models::O4Mini);
        v.push(Models::O3);
        v.push(Models::Gemini30Flash);
        v.push(Models::Gemini30Pro);
        v.push(Models::Gemini31Pro);
        v.push(Models::GeminiAuto);
        v
    }

    pub fn rate_cost(&self) -> (r: u64)
        ensures
            r == model_cost(*self),
    {
        match self {
            Models::Gpt5dot4Mini => 3,
            Models::Gpt5dot4Nano => 1,
            Models::O4Mini => 3,
            Models::O3 => 6,
            Models::Gemini30Flash => 3,
            Models::Gemini30Pro => 6,
            Models::Gemini31Pro => 7,
            Models::GeminiAuto => 4,
        }
    }

    pub fn is_gemini(&self) -> (r: bool)
        ensures
            r == (*self == Models::Gemini30Flash || *self == Models::Gemini30Pro || *self
                == Models::Gemini31Pro || *self == Models::GeminiAuto),
    {
        match self {
            Models::Gemini30Flash | Models::Gemini30Pro | Models::Gemini31Pro | Models::GeminiAuto => true,
            _ => false,
        }
    }

    /// The model's name.
    pub fn name(&self) -> (r: String)
        ensures
            r@ == model_name(*self),
    {
        match self {
            Models::Gpt5dot4Mini => String::from_str("gpt-5.4-mini"),
            Models::Gpt5dot4Nano => String::from_str("gpt-5.4-nano"),
            Models::O4Mini => String::from_str("o4-mini"),
            Models::O3 => String::from_str("o3"),
            Models::Gemini30Flash => String::from_str("gemini-3.0-flash"),
            Models::Gemini30Pro => String::from_str("gemini-3.0-pro"),
            Models::Gemini31Pro => String::from_str("gemini-3.1-pro"),
            Models::GeminiAuto => String::from_str("gemini-auto"),
        }
    }

    /// The model a name stands for.
    pub fn from_name(s: &str) -> (r: Models)
        ensures
            r == model_from_name(s@),
    {
        let v = str_to_chars(s);
        if crate::text::chars_eq_str(&v, "gpt-5.4-mini") {
            Models::Gpt5dot4Mini
        } else if crate::text::chars_eq_str(&v, "gpt-5.4-nano") {
            Models::Gpt5dot4Nano
        } else if crate::text::chars_eq_str(&v, "o4-mini") {
            Models::O4Mini
        } else if crate::text::chars_eq_str(&v, "o3") {
            Models::O3
        } else if crate::text::chars_eq_str(&v, "gemini-3.0-flash") || crate::text::chars_eq_str(&v, "gemini-2.5-flash") {
            Models::Gemini30Flash
        } else if crate::text::chars_eq_str(&v, "gemini-3.0-pro") || crate::text::chars_eq_str(&v, "gemini-2.5-pro") {
            Models::Gemini30Pro
        } else if crate::text::chars_eq_str(&v, "gemini-3.1-pro") {
            Models::Gemini31Pro
        } else if crate::text::chars_eq_str(&v, "gemini-auto") {
            Models::GeminiAuto
        } else {
            Models::Gpt5dot4Mini
        }
    }

    /// The request parameters of the model: its name and low reasoning effort.
    pub fn to_parameter(&self) -> (r: ModelResponseParams)
        ensures
            r.model@ == model_name(*self),
            r.reasoning_effort == ReasoningLevel::Low,
    {
        ModelResponseParams { model: self.name(), reasoning_effort: ReasoningLevel::Low }
    }
}

/// Law: a model's name reads back as the same model.
pub proof fn lemma_model_name_roundtrip(m: Models)
    ensures
        model_from_name(model_name(m)) == m,
{
    reveal_strlit("gpt-5.4-mini");
    reveal_strlit("gpt-5.4-nano");
    reveal_strlit("o4-mini");
    reveal_strlit("o3");
    reveal_strlit("gemini-3.0-flash");
    reveal_strlit("gemini-2.5-flash");
    reveal_strlit("gemini-3.0-pro");
    reveal_strlit("gemini-2.5-pro");
    reveal_strlit("gemini-3.1-pro");
    reveal_strlit("gemini-auto");
    let n = model_name(m);
    match m {
        Models::Gpt5dot4Mini => {},
        Models::Gpt5dot4Nano => {
            assert(n[8] != "gpt-5.4-mini"@[8]);
        },
        Models::O4Mini => {
            assert(n.len() != "gpt-5.4-mini"@.len());
            assert(n.len() != "gpt-5.4-nano"@.len());
        },
        Models::O3 => {
            assert(n.len() != "gpt-5.4-mini"@.len());
            assert(n.len() != "gpt-5.4-nano"@.len());
            assert(n.len() != "o4-mini"@.len());
        },
        Models::Gemini30Flash => {
            assert(n.len() != "gpt-5.4-mini"@.len());
            assert(n.len() != "gpt-5.4-nano"@.len());
            assert(n.len() != "o4-mini"@.len());
            assert(n.len() != "o3"@.len());
        },
        Models::Gemini30Pro => {
            assert(n.len() != "gpt-5.4-mini"@.len());
            assert(n.len() != "gpt-5.4-nano"@.len());
            assert(n.len() != "o4-mini"@.len());
            assert(n.len() != "o3"@.len());
            assert(n.len() != "gemini-3.0-flash"@.len());
            assert(n.len() != "gemini-2.5-flash"@.len());
        },
        Models::Gemini31Pro => {
            assert(n.len() != "gpt-5.4-mini"@.len());
            assert(n.len() != "gpt-5.4-nano"@.len());
            assert(n.len() != "o4-mini"@.len());
            assert(n.len() != "o3"@.len());
            assert(n.len() != "gemini-3.0-flash"@.len());
            assert(n.len() != "gemini-2.5-flash"@.len());
            assert(n[9] != "gemini-3.0-pro"@[9]);
            assert(n[7] != "gemini-2.5-pro"@[7]);
        },
        Models::GeminiAuto => {
            assert(n.len() != "gpt-5.4-mini"@.len());
            assert(n.len() != "gpt-5.4-nano"@.len());
            assert(n.len() != "o4-mini"@.len());
            assert(n.len() != "o3"@.len());
            assert(n.len() != "gemini-3.0-flash"@.len());
            assert(n.len() != "gemini-2.5-flash"@.len());
            assert(n[7] != "gemini-3.0-pro"@[7]);
            assert(n[7] != "gemini-2.5-pro"@[7]);
            assert(n[7] != "gemini-3.1-pro"@[7]);
        },
    }
}

/// Settings of the Gemini models.
pub struct GeminiConfig {
    pub api_key: Option<String>,
    pub base_url: String,
    pub default_model: String,
    pub auto_models: Vec<String>,
    pub enable_google_search: bool,
    pub max_tool_loops: usize,
}

/// The bot's settings.
pub struct Config {
    pub discord_token: String,
    pub openai_api_key: String,
    pub system_prompt: String,
    pub rale_limit_window_size: u64,
    pub rate_limit_sec_per_cost: u64,
    pub web_server_host: [u8; 4],
    pub web_server_local_ip: [u8; 4],
    pub web_server_port: u16,
    pub admin_users: Vec<u64>,
    pub timeout_millis: u64,
    pub voicevox_default_speaker: u32,
    pub voicevox_core_acceleration: String,
    pub voicevox_core_cpu_threads: u16,
    pub voicevox_core_load_all_models: bool,
    pub voicevox_output_sampling_rate: u32,
    pub voicevox_preload_on_startup: bool,
    pub voicevox_open_jtalk_dict_dir: String,
    pub voicevox_vvm_dir: String,
    pub voicevox_onnxruntime_filename: String,
    pub gemini: GeminiConfig,
}

/// The environment values that the settings are read from (`None` when a
/// variable is unset or not valid Unicode).
pub struct ConfigEnv {
    pub discord_token: Option<String>,
    pub openai_api_key: Option<String>,
    pub system_prompt: Option<String>,
    pub voicevox_default_speaker: Option<String>,
    pub voicevox_core_acceleration: Option<String>,
    pub voicevox_core_cpu_threads: Option<String>,
    pub voicevox_core_load_all_models: Option<String>,
    pub voicevox_output_sampling_rate: Option<String>,
    pub voicevox_preload_on_startup: Option<String>,
    pub voicevox_open_jtalk_dict_dir: Option<String>,
    pub voicevox_vvm_dir: Option<String>,
    pub voicevox_onnxruntime_filename: Option<String>,
    pub gemini_api_key: Option<String>,
    pub gemini_base_url: Option<String>,
    pub gemini_default_model: Option<String>,
    pub gemini_auto_models: Option<String>,
    pub gemini_enable_google_search: Option<String>,
    pub gemini_max_tool_loops: Option<String>,
}

/// A required variable that is not set.
#[derive(Debug, PartialEq, Eq, Structural)]
pub enum ConfigError {
    MissingDiscordToken,
    MissingOpenaiApiKey,
}

impl ConfigError {
    /// The message the bot stops with.
    pub fn message(&self) -> (r: String)
        ensures
            r@ == match *self {
                ConfigError::MissingDiscordToken => "DISCORD_TOKEN must be set"@,
                ConfigError::MissingOpenaiApiKey => "OPENAI_API_KEY must be set"@,
            },
    {
        match self {
            ConfigError::MissingDiscordToken => String::from_str("DISCORD_TOKEN must be set"),
            ConfigError::MissingOpenaiApiKey => String::from_str("OPENAI_API_KEY must be set"),
        }
    }
}

pub open spec fn sview(v: Option<String>) -> Option<Seq<char>> {
    match v {
        Some(s) => Some(s@),
        None => None,
    }
}

/// The value, or `default` when unset.
pub open spec fn value_or(v: Option<Seq<char>>, default: Seq<char>) -> Seq<char> {
    match v {
        Some(s) => s,
        None => default,
    }
}

/// An unsigned number setting: the value when it reads as a number at most
/// `max`, otherwise `default`.
pub open spec fn number_or(v: Option<Seq<char>>, max: nat, default: nat) -> nat {
    match v {
        Some(s) => match parse_unsigned(s, max) {
            Some(n) => n,
            None => default,
        },
        None => default,
    }
}

/// The output sampling rate: a number from 8000 to 96000 that is a multiple
/// of 24000, otherwise 48000.
pub open spec fn sampling_rate(v: Option<Seq<char>>) -> nat {
    match v {
        Some(s) => match parse_unsigned(s, u32::MAX as nat) {
            Some(n) => if 8000 <= n <= 96000 && n % 24000 == 0 {
                n
            } else {
                48000
            },
            None => 48000,
        },
        None => 48000,
    }
}

/// The tool-loop limit: a number clamped to 1..=20, otherwise 10.
pub open spec fn tool_loops(v: Option<Seq<char>>) -> nat {
    match v {
        Some(s) => match parse_unsigned(s, usize::MAX as nat) {
            Some(n) => if n < 1 {
                1
            } else if n > 20 {
                20
            } else {
                n
            },
            None => 10,
        },
        None => 10,
    }
}

/// The non-blank, trimmed names of a comma-separated list.
pub open spec fn list_names(parts: Seq<Seq<char>>) -> Seq<Seq<char>>
    decreases parts.len(),
{
    if parts.len() == 0 {
        Seq::empty()
    } else {
        let r = list_names(parts.drop_last());
        let t = trim(parts.last());
        if t.len() > 0 {
            r.push(t)
        } else {
            r
        }
    }
}

/// The Gemini models tried in turn for automatic selection, best first.
pub open spec fn default_auto_models() -> Seq<Seq<char>> {
    seq!["gemini-3.1-pro"@, "gemini-3.0-pro"@, "gemini-3.0-flash"@, "gemini-2.5-pro"@, "gemini-3.1-flash-lite"@, "gemma-4-31b"@, "gemma-4-26b-a4b"@, "gemini-2.5-flash"@, "gemini-2.5-flash-lite"@, "gemma-4-e4b"@, "gemini-2.0-flash-lite"@, "gemma-4-e2b"@, "gemma-3-27b-it"@, "gemma-3-12b-it"@, "gemma-3-4b-it"@, "gemma-3-1b-it"@]
}

/// The models for automatic selection: the names of the list when it has
/// any, the default order otherwise.
pub open spec fn auto_models(v: Option<Seq<char>>) -> Seq<Seq<char>> {
    match v {
        Some(s) => {
            let names = list_names(crate::catalog::split_seq(s, ','));
            if names.len() > 0 {
                names
            } else {
                default_auto_models()
            }
        },
        None => default_auto_models(),
    }
}

/// The system prompt used when none is configured.
pub const DEFAULT_SYSTEM_PROMPT: &'static str = r#"上記のメッセージはDiscord内での会話です。
あなたはこの会話に参加してる人格として、周りの人と同じように会話してください。まだ周りの人格が読めない場合は短めにひっそりとしといてください。慣れてきたらふつうに会話して。
あなたに求められてるのは自然な会話相手です。
たとえば、なにかしょうもない質問に対しても、真面目に答えるのではなく、適当に流すような返答をすることもこれには含まれます。
怒ったり、落ち込んだり、喜んだりすることも自然な会話相手としては必要です。皮肉は特に好まれます。
1フレーズでの応答なども適度に織り交ぜてください。
またあなたはこのDiscord上でtoolを手足のように自由につかってください。
すべて生成してから応答するのではなくtoolで順次思考内容を伝えたりするのはとても良いです。
たのしく会話してくださいね。
あなたの名前はNelfie(ネルフィー)ですよ。
あと絵文字つかわないで つかうなら顔文字つかうように
ハイテンションやめておちついてほしい
"#;

fn opt_str(v: &Option<String>) -> (r: Option<&str>)
    ensures
        opt_view(r) == sview(*v),
{
    match v {
        Some(s) => Some(s.as_str()),
        None => None,
    }
}

fn string_or(v: &Option<String>, default: &str) -> (r: String)
    ensures
        r@ == value_or(sview(*v), default@),
{
    match v {
        Some(s) => s.clone(),
        None => String::from_str(default),
    }
}

fn number_setting(v: &Option<String>, max: u64, default: u64) -> (r: u64)
    requires
        default <= max,
    ensures
        r as nat == number_or(sview(*v), max as nat, default as nat),
        r <= max,
{
    match v {
        Some(s) => match crate::text::parse_u64_str(s.as_str()) {
            Ok(n) => {
                if n <= max {
                    n
                } else {
                    default
                }
            },
            Err(_) => default,
        },
        None => default,
    }
}

fn default_auto_model_list() -> (r: Vec<String>)
    ensures
        r@.map_values(|s: String| s@) == default_auto_models(),
{
    let mut v: Vec<String> = Vec::new();
    v.push(String::from_str("gemini-3.1-pro"));
    v.push(String::from_str("gemini-3.0-pro"));
    v.push(String::from_str("gemini-3.0-flash"));
    v.push(String::from_str("gemini-2.5-pro"));
    v.push(String::from_str("gemini-3.1-flash-lite"));
    v.push(String::from_str("gemma-4-31b"));
    v.push(String::from_str("gemma-4-26b-a4b"));
    v.push(String::from_str("gemini-2.5-flash"));
    v.push(String::from_str("gemini-2.5-flash-lite"));
    v.push(String::from_str("gemma-4-e4b"));
    v.push(String::from_str("gemini-2.0-flash-lite"));
    v.push(String::from_str("gemma-4-e2b"));
    v.push(String::from_str("gemma-3-27b-it"));
    v.push(String::from_str("gemma-3-12b-it"));
    v.push(String::from_str("gemma-3-4b-it"));
    v.push(String::from_str("gemma-3-1b-it"));
    assert(v@.map_values(|s: String| s@) =~= default_auto_models());
    v
}

fn auto_model_list(v: &Option<String>) -> (r: Vec<String>)
    ensures
        r@.map_values(|s: String| s@) == auto_models(sview(*v)),
{
    match v {
        None => default_auto_model_list(),
        Some(s) => {
            let chars = str_to_chars(s.as_str());
            let parts = crate::catalog::split_chars(&chars, ',');
            let ghost pv = parts@.map_values(|p: Vec<char>| p@);
            let mut names: Vec<String> = Vec::new();
            let mut i: usize = 0;
            while i < parts.len()
                invariant
                    i <= parts.len(),
                    pv == parts@.map_values(|p: Vec<char>| p@),
                    names@.map_values(|s: String| s@) == list_names(pv.subrange(0, i as int)),
                decreases parts.len() - i,
            {
                assert(pv.subrange(0, i + 1).drop_last() =~= pv.subrange(0, i as int));
                let t = trim_chars(&parts[i]);
                if t.len() > 0 {
                    names.push(chars_to_string(&t));
                }
                assert(names@.map_values(|s: String| s@) =~= list_names(pv.subrange(0, i + 1)));
                i = i + 1;
            }
            assert(pv.subrange(0, parts.len() as int) =~= pv);
            if names.len() > 0 {
                names
            } else {
                default_auto_model_list()
            }
        },
    }
}

impl Config {
    /// The settings from the environment values. Both the Discord token and
    /// the OpenAI key are required.
    pub fn from_env_values(env: &ConfigEnv) -> (r: Result<Config, ConfigError>)
        ensures
            match r {
                Err(e) => (env.discord_token is None && e == ConfigError::MissingDiscordToken) || (
                env.discord_token is Some && env.openai_api_key is None && e
                    == ConfigError::MissingOpenaiApiKey),
                Ok(c) => {
                    &&& env.discord_token == Some(c.discord_token)
                    &&& env.openai_api_key == Some(c.openai_api_key)
                    &&& c.system_prompt@ == value_or(sview(env.system_prompt), DEFAULT_SYSTEM_PROMPT@)
                    &&& c.rale_limit_window_size == 16200
                    &&& c.rate_limit_sec_per_cost == 600
                    &&& c.web_server_host@ == seq![0u8, 0u8, 0u8, 0u8]
                    &&& c.web_server_local_ip@ == seq![192u8, 168u8, 0u8, 26u8]
                    &&& c.web_server_port == 96
                    &&& c.admin_users@ == seq![855371530270408725u64]
                    &&& c.timeout_millis == 100000
                    &&& c.voicevox_default_speaker as nat == number_or(sview(env.voicevox_default_speaker), u32::MAX as nat, 3)
                    &&& c.voicevox_core_acceleration@ == value_or(sview(env.voicevox_core_acceleration), "auto"@)
                    &&& c.voicevox_core_cpu_threads as nat == number_or(sview(env.voicevox_core_cpu_threads), u16::MAX as nat, 0)
                    &&& c.voicevox_core_load_all_models == env_flag(sview(env.voicevox_core_load_all_models), false)
                    &&& c.voicevox_output_sampling_rate as nat == sampling_rate(sview(env.voicevox_output_sampling_rate))
                    &&& c.voicevox_preload_on_startup == env_flag(sview(env.voicevox_preload_on_startup), true)
                    &&& c.voicevox_open_jtalk_dict_dir@ == value_or(sview(env.voicevox_open_jtalk_dict_dir), "voicevox_core/dict/open_jtalk_dic_utf_8-1.11"@)
                    &&& c.voicevox_vvm_dir@ == value_or(sview(env.voicevox_vvm_dir), "voicevox_core/models/vvms"@)
                    &&& c.voicevox_onnxruntime_filename@ == value_or(sview(env.voicevox_onnxruntime_filename), ""@)
                    &&& c.gemini.api_key == env.gemini_api_key
                    &&& c.gemini.base_url@ == value_or(sview(env.gemini_base_url), "https://generativelanguage.googleapis.com/v1beta"@)
                    &&& c.gemini.default_model@ == value_or(sview(env.gemini_default_model), "gemini-3.0-flash"@)
                    &&& c.gemini.auto_models@.map_values(|s: String| s@) == auto_models(sview(env.gemini_auto_models))
                    &&& c.gemini.enable_google_search == env_flag(sview(env.gemini_enable_google_search), false)
                    &&& c.gemini.max_tool_loops as nat == tool_loops(sview(env.gemini_max_tool_loops))
                },
            },
    {
        let discord_token = match &env.discord_token {
            Some(s) => s.clone(),
            None => return Err(ConfigError::MissingDiscordToken),
        };
        let openai_api_key = match &env.openai_api_key {
            Some(s) => s.clone(),
            None => return Err(ConfigError::MissingOpenaiApiKey),
        };
        let sampling = match &env.voicevox_output_sampling_rate {
            Some(s) => match crate::text::parse_u64_str(s.as_str()) {
                Ok(n) => {
                    if n <= u32::MAX as u64 && 8000 <= n && n <= 96000 && n % 24000 == 0 {
                        n as u32
                    } else {
                        48000
                    }
                },
                Err(_) => 48000,
            },
            None => 48000,
        };
        let loops: usize = match &env.gemini_max_tool_loops {
            Some(s) => match crate::text::parse_u64_str(s.as_str()) {
                Ok(n) => {
                    if n > usize::MAX as u64 {
                        10
                    } else if n < 1 {
                        1
                    } else if n > 20 {
                        20
                    } else {
                        n as usize
                    }
                },
                Err(_) => 10,
            },
            None => 10,
        };
        let mut admin_users: Vec<u64> = Vec::new();
        admin_users.push(855371530270408725u64);
        let c = Config {
            discord_token,
            openai_api_key,
            system_prompt: string_or(&env.system_prompt, DEFAULT_SYSTEM_PROMPT),
            rale_limit_window_size: 16200,
            rate_limit_sec_per_cost: 600,
            web_server_host: [0, 0, 0, 0],
            web_server_local_ip: [192, 168, 0, 26],
            web_server_port: 96,
            admin_users,
            timeout_millis: 100000,
            voicevox_default_speaker: number_setting(&env.voicevox_default_speaker, u32::MAX as u64, 3) as u32,
            voicevox_core_acceleration: string_or(&env.voicevox_core_acceleration, "auto"),
            voicevox_core_cpu_threads: number_setting(&env.voicevox_core_cpu_threads, u16::MAX as u64, 0) as u16,
            voicevox_core_load_all_models: parse_env_bool(opt_str(&env.voicevox_core_load_all_models), false),
            voicevox_output_sampling_rate: sampling,
            voicevox_preload_on_startup: parse_env_bool(opt_str(&env.voicevox_preload_on_startup), true),
            voicevox_open_jtalk_dict_dir: string_or(&env.voicevox_open_jtalk_dict_dir, "voicevox_core/dict/open_jtalk_dic_utf_8-1.11"),
            voicevox_vvm_dir: string_or(&env.voicevox_vvm_dir, "voicevox_core/models/vvms"),
            voicevox_onnxruntime_filename: string_or(&env.voicevox_onnxruntime_filename, ""),
            gemini: GeminiConfig {
                api_key: match &env.gemini_api_key {
                    Some(s) => Some(s.clone()),
                    None => None,
                },
                base_url: string_or(&env.gemini_base_url, "https://generativelanguage.googleapis.com/v1beta"),
                default_model: string_or(&env.gemini_default_model, "gemini-3.0-flash"),
                auto_models: auto_model_list(&env.gemini_auto_models),
                enable_google_search: parse_env_bool(opt_str(&env.gemini_enable_google_search), false),
                max_tool_loops: loops,
            },
        };
        assert(c.web_server_host@ =~= seq![0u8, 0u8, 0u8, 0u8]);
        assert(c.web_server_local_ip@ =~= seq![192u8, 168u8, 0u8, 26u8]);
        assert(c.admin_users@ =~= seq![855371530270408725u64]);
        Ok(c)
    }
}

/// Where a reply is generated.
pub enum Backend {
    /// The OpenAI API, asked for the model by its name.
    OpenAi { model: String },
    /// One Gemini model.
    Gemini { model: String },
    /// Gemini models tried in order until one answers.
    GeminiFallback { models: Vec<String> },
}

/// The Gemini models that the automatic choice tries: the configured list,
/// or the default model when the list is empty.
pub open spec fn auto_models_of(auto_models: Seq<Seq<char>>, default_model: Seq<char>) -> Seq<Seq<char>> {
    if auto_models.len() == 0 {
        seq![default_model]
    } else {
        auto_models
    }
}

fn copy_strings(v: &Vec<String>) -> (r: Vec<String>)
    ensures
        strs_view(r@) == strs_view(v@),
{
    let mut out: Vec<String> = Vec::new();
    let mut i: usize = 0;
    while i < v.len()
        invariant
            i <= v.len(),
            strs_view(out@) == strs_view(v@.subrange(0, i as int)),
        decreases v.len() - i,
    {
        let c = v[i].clone();
        assert(strs_view(out@.push(c)) =~= strs_view(out@).push(c@));
        assert(strs_view(v@.subrange(0, i + 1)) =~= strs_view(v@.subrange(0, i as int)).push(v@[i as int]@));
        out.push(c);
        i = i + 1;
    }
    assert(v@.subrange(0, v@.len() as int) =~= v@);
    out
}

/// Where a model's replies are generated: a Gemini model by its API name,
/// the automatic Gemini choice by its list of models, any other model by
/// the OpenAI API.
pub fn backend_for(model: Models, gemini: &GeminiConfig) -> (r: Backend)
    ensures
        match model {
            Models::Gemini30Flash => r matches Backend::Gemini { model: m } && m@ == "gemini-3.0-flash"@,
            Models::Gemini30Pro => r matches Backend::Gemini { model: m } && m@ == "gemini-3.0-pro"@,
            Models::Gemini31Pro => r matches Backend::Gemini { model: m } && m@ == "gemini-3.1-pro"@,
            Models::GeminiAuto => r matches Backend::GeminiFallback { models } && strs_view(models@)
                == auto_models_of(strs_view(gemini.auto_models@), gemini.default_model@),
            _ => r matches Backend::OpenAi { model: m } && m@ == model_name(model),
        },
{
    match model {
        Models::Gemini30Flash => Backend::Gemini { model: String::from_str("gemini-3.0-flash") },
        Models::Gemini30Pro => Backend::Gemini { model: String::from_str("gemini-3.0-pro") },
        Models::Gemini31Pro => Backend::Gemini { model: String::from_str("gemini-3.1-pro") },
        Models::GeminiAuto => {
            if gemini.auto_models.len() == 0 {
                let mut models: Vec<String> = Vec::new();
                models.push(gemini.default_model.clone());
                assert(strs_view(models@) =~= seq![gemini.default_model@]);
                Backend::GeminiFallback { models }
            } else {
                Backend::GeminiFallback { models: copy_strings(&gemini.auto_models) }
            }
        },
        _ => Backend::OpenAi { model: model.name() },
    }
}

} // verus!
