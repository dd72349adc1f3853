//! The settings that the voice system keeps per server and per text channel:
//! the voice configuration of each server, how many messages of a channel
//! may be read at once, and the last reading error of each server.
use vstd::prelude::*;
use vstd::string::*;
use dashmap::DashMap;
use crate::maps::{
    error_text_entries, get_error_text, get_guild_config, get_parallel_count, guild_config_entries,
    insert_error_text, insert_guild_config, insert_parallel_count, new_error_texts, new_guild_configs,
    new_parallel_counts, parallel_count_entries, remove_error_text, remove_parallel_count,
};
use crate::text::{
    chars_to_string, extend_chars, extend_str, str_to_chars, u64_to_decimal, decimal, trim,
    seq_ascii_lower, to_ascii_lower, trim_chars, chars_eq_str,
};

verus! {

broadcast use vstd::std_specs::hash::group_hash_axioms;

/// Messages of a channel are read one at a time unless configured otherwise.
pub const DEFAULT_PARALLEL_READ_COUNT: usize = 1;

/// At most this many messages of a channel are read at once.
pub const MAX_PARALLEL_READ_COUNT: usize = 4;

/// How many reading requests a channel's queue holds.
pub const SEQUENTIAL_QUEUE_CAPACITY: usize = 16;

/// Texts of at least this many characters are read at a raised minimum speed.
pub const LONG_TTS_TEXT_THRESHOLD_CHARS: usize = 64;

/// The voice configuration of a server.
#[derive(Clone, Copy, PartialEq, Eq, Structural, Debug)]
pub struct GuildVoiceConfig {
    pub text_channel_id: Option<u64>,
    pub auto_read: bool,
    pub speaker: u32,
}

/// A requested parallel reading count brought into `1..=4`.
pub open spec fn clamp_parallel(n: int) -> int {
    if n < DEFAULT_PARALLEL_READ_COUNT {
        DEFAULT_PARALLEL_READ_COUNT as int
    } else if n > MAX_PARALLEL_READ_COUNT {
        MAX_PARALLEL_READ_COUNT as int
    } else {
        n
    }
}

pub fn normalize_parallel_count(parallel_count: usize) -> (r: usize)
    ensures
        r == clamp_parallel(parallel_count as int),
        DEFAULT_PARALLEL_READ_COUNT <= r <= MAX_PARALLEL_READ_COUNT,
{
    if parallel_count < DEFAULT_PARALLEL_READ_COUNT {
        DEFAULT_PARALLEL_READ_COUNT
    } else if parallel_count > MAX_PARALLEL_READ_COUNT {
        MAX_PARALLEL_READ_COUNT
    } else {
        parallel_count
    }
}

/// The values of the voice settings.
pub struct VoiceSettingsView {
    pub default_speaker: u32,
    pub guilds: Map<u64, GuildVoiceConfig>,
    pub parallel: Map<u64, usize>,
    pub errors: Map<u64, Seq<char>>,
}

/// The per-server and per-channel voice settings.
pub struct VoiceSettings {
    default_speaker: u32,
    guild_configs: DashMap<u64, GuildVoiceConfig>,
    channel_parallel_counts: DashMap<u64, usize>,
    last_errors: DashMap<u64, String>,
}

impl View for VoiceSettings {
    type V = VoiceSettingsView;

    closed spec fn view(&self) -> VoiceSettingsView {
        VoiceSettingsView {
            default_speaker: self.default_speaker,
            guilds: guild_config_entries(self.guild_configs),
            parallel: parallel_count_entries(self.channel_parallel_counts),
            errors: error_text_entries(self.last_errors),
        }
    }
}

/// The configuration of a server that has none stored.
pub open spec fn default_config(v: VoiceSettingsView) -> GuildVoiceConfig {
    GuildVoiceConfig { text_channel_id: None, auto_read: false, speaker: v.default_speaker }
}

/// The configuration of a server: the stored one, or the default.
pub open spec fn config_of(v: VoiceSettingsView, guild: u64) -> GuildVoiceConfig {
    if v.guilds.contains_key(guild) {
        v.guilds[guild]
    } else {
        default_config(v)
    }
}

/// The settings after the server's speaker is set.
pub open spec fn with_speaker(v: VoiceSettingsView, guild: u64, speaker: u32) -> VoiceSettingsView {
    VoiceSettingsView {
        guilds: v.guilds.insert(guild, GuildVoiceConfig { speaker, ..config_of(v, guild) }),
        ..v
    }
}

/// The settings after automatic reading is switched for a server; the text
/// channel is replaced only when one is given (a new configuration takes it
/// as it is).
pub open spec fn with_auto_read(v: VoiceSettingsView, guild: u64, enabled: bool, text_channel: Option<u64>) -> VoiceSettingsView {
    let cur = config_of(v, guild);
    let cfg = if v.guilds.contains_key(guild) {
        GuildVoiceConfig {
            auto_read: enabled,
            text_channel_id: if text_channel is Some {
                text_channel
            } else {
                cur.text_channel_id
            },
            ..cur
        }
    } else {
        GuildVoiceConfig { text_channel_id: text_channel, auto_read: enabled, ..default_config(v) }
    };
    VoiceSettingsView { guilds: v.guilds.insert(guild, cfg), ..v }
}

/// The parallel reading count of a channel: the stored one, or 1.
pub open spec fn parallel_of(v: VoiceSettingsView, channel: u64) -> usize {
    if v.parallel.contains_key(channel) {
        v.parallel[channel]
    } else {
        DEFAULT_PARALLEL_READ_COUNT
    }
}

/// Every stored parallel count is in `1..=4`.
pub open spec fn parallel_in_range(v: VoiceSettingsView) -> bool {
    forall|c: u64|
        #[trigger] v.parallel.contains_key(c) ==> DEFAULT_PARALLEL_READ_COUNT <= v.parallel[c]
            <= MAX_PARALLEL_READ_COUNT
}

impl VoiceSettings {
    /// Every stored parallel count is in `1..=4`.
    #[verifier::type_invariant]
    spec fn counts_in_range(self) -> bool {
        forall|c: u64|
            #[trigger] parallel_count_entries(self.channel_parallel_counts).contains_key(c)
                ==> DEFAULT_PARALLEL_READ_COUNT <= parallel_count_entries(self.channel_parallel_counts)[c]
                <= MAX_PARALLEL_READ_COUNT
    }

    /// No server or channel settings; servers speak with `default_speaker`.
    pub fn new(default_speaker: u32) -> (r: Self)
        ensures
            r@.default_speaker == default_speaker,
            r@.guilds == Map::<u64, GuildVoiceConfig>::empty(),
            r@.parallel == Map::<u64, usize>::empty(),
            r@.errors == Map::<u64, Seq<char>>::empty(),
            parallel_in_range(r@),
    {
        let r = VoiceSettings {
            default_speaker,
            guild_configs: new_guild_configs(),
            channel_parallel_counts: new_parallel_counts(),
            last_errors: new_error_texts(),
        };
        r
    }

    /// The configuration of a server that has none stored.
    pub fn default_guild_config(&self) -> (r: GuildVoiceConfig)
        ensures
            r == default_config(self@),
    {
        GuildVoiceConfig { text_channel_id: None, auto_read: false, speaker: self.default_speaker }
    }

    /// The configuration of a server.
    pub fn config(&self, guild_id: u64) -> (r: GuildVoiceConfig)
        ensures
            r == config_of(self@, guild_id),
    {
        match get_guild_config(&self.guild_configs, guild_id) {
            Some(c) => c,
            None => self.default_guild_config(),
        }
    }

    /// Sets the speaker of a server.
    pub fn set_speaker(&mut self, guild_id: u64, speaker: u32)
        ensures
            parallel_in_range(final(self)@),
            final(self)@ == with_speaker(old(self)@, guild_id, speaker),
    {
        proof {
            use_type_invariant(&*self);
        }
        let cur = self.config(guild_id);
        let mut guilds = new_guild_configs();
        std::mem::swap(&mut guilds, &mut self.guild_configs);
        insert_guild_config(&mut guilds, guild_id, GuildVoiceConfig { speaker, ..cur });
        self.guild_configs = guilds;
        proof {
            use_type_invariant(&*self);
        }
    }

    /// Switches automatic reading of a server, with the text channel it reads.
    pub fn set_auto_read(&mut self, guild_id: u64, enabled: bool, text_channel: Option<u64>)
        ensures
            parallel_in_range(final(self)@),
            final(self)@ == with_auto_read(old(self)@, guild_id, enabled, text_channel),
    {
        proof {
            use_type_invariant(&*self);
        }
        let cfg = match get_guild_config(&self.guild_configs, guild_id) {
            Some(c) => GuildVoiceConfig {
                auto_read: enabled,
                text_channel_id: if text_channel.is_some() {
                    text_channel
                } else {
                    c.text_channel_id
                },
                ..c
            },
            None => GuildVoiceConfig {
                text_channel_id: text_channel,
                auto_read: enabled,
                ..self.default_guild_config()
            },
        };
        let mut guilds = new_guild_configs();
        std::mem::swap(&mut guilds, &mut self.guild_configs);
        insert_guild_config(&mut guilds, guild_id, cfg);
        self.guild_configs = guilds;
        proof {
            use_type_invariant(&*self);
        }
    }

    /// The parallel reading count stored for a channel, if any.
    pub fn stored_parallel_count(&self, channel_id: u64) -> (r: Option<usize>)
        ensures
            r == (if self@.parallel.contains_key(channel_id) {
                Some(self@.parallel[channel_id])
            } else {
                None
            }),
            r matches Some(n) ==> DEFAULT_PARALLEL_READ_COUNT <= n <= MAX_PARALLEL_READ_COUNT,
    {
        proof {
            use_type_invariant(self);
        }
        get_parallel_count(&self.channel_parallel_counts, channel_id)
    }

    /// Sets the parallel reading count of a channel, brought into `1..=4`,
    /// and returns the count that was stored.
    pub fn set_channel_parallel_count(&mut self, channel_id: u64, parallel_count: usize) -> (r: usize)
        ensures
            parallel_in_range(final(self)@),
            r == clamp_parallel(parallel_count as int),
            final(self)@ == (VoiceSettingsView { parallel: old(self)@.parallel.insert(channel_id, r), ..old(self)@ }),
    {
        proof {
            use_type_invariant(&*self);
        }
        let normalized = normalize_parallel_count(parallel_count);
        let mut counts = new_parallel_counts();
        std::mem::swap(&mut counts, &mut self.channel_parallel_counts);
        insert_parallel_count(&mut counts, channel_id, normalized);
        self.channel_parallel_counts = counts;
        proof {
            use_type_invariant(&*self);
        }
        normalized
    }

    /// Stores the default parallel count for a channel that has none (when its
    /// reading queue is created).
    pub fn ensure_channel_parallel_count(&mut self, channel_id: u64)
        ensures
            parallel_in_range(final(self)@),
            final(self)@ == (if old(self)@.parallel.contains_key(channel_id) {
                old(self)@
            } else {
                VoiceSettingsView {
                    parallel: old(self)@.parallel.insert(channel_id, DEFAULT_PARALLEL_READ_COUNT),
                    ..old(self)@
                }
            }),
    {
        proof {
            use_type_invariant(&*self);
        }
        if get_parallel_count(&self.channel_parallel_counts, channel_id).is_none() {
            let mut counts = new_parallel_counts();
            std::mem::swap(&mut counts, &mut self.channel_parallel_counts);
            insert_parallel_count(&mut counts, channel_id, DEFAULT_PARALLEL_READ_COUNT);
            self.channel_parallel_counts = counts;
        }
        proof {
            use_type_invariant(&*self);
        }
    }

    /// Forgets the parallel count of a channel whose reading queue ended.
    pub fn remove_channel(&mut self, channel_id: u64)
        ensures
            parallel_in_range(final(self)@),
            final(self)@ == (VoiceSettingsView { parallel: old(self)@.parallel.remove(channel_id), ..old(self)@ }),
    {
        proof {
            use_type_invariant(&*self);
        }
        let mut counts = new_parallel_counts();
        std::mem::swap(&mut counts, &mut self.channel_parallel_counts);
        remove_parallel_count(&mut counts, channel_id);
        self.channel_parallel_counts = counts;
        proof {
            use_type_invariant(&*self);
        }
    }

    /// The parallel reading count of a channel.
    pub fn channel_parallel_count(&self, channel_id: u64) -> (r: usize)
        ensures
            r == parallel_of(self@, channel_id),
            DEFAULT_PARALLEL_READ_COUNT <= r <= MAX_PARALLEL_READ_COUNT,
    {
        proof {
            use_type_invariant(self);
        }
        match get_parallel_count(&self.channel_parallel_counts, channel_id) {
            Some(n) => n,
            None => DEFAULT_PARALLEL_READ_COUNT,
        }
    }

    pub fn max_parallel_read_count(&self) -> (r: usize)
        ensures
            r == MAX_PARALLEL_READ_COUNT,
    {
        MAX_PARALLEL_READ_COUNT
    }

    pub fn sequential_queue_capacity(&self) -> (r: usize)
        ensures
            r == SEQUENTIAL_QUEUE_CAPACITY,
    {
        SEQUENTIAL_QUEUE_CAPACITY
    }

    /// The last reading error of a server.
    pub fn last_error(&self, guild_id: u64) -> (r: Option<String>)
        ensures
            match r {
                Some(s) => self@.errors.contains_key(guild_id) && self@.errors[guild_id] == s@,
                None => !self@.errors.contains_key(guild_id),
            },
    {
        get_error_text(&self.last_errors, guild_id)
    }

    /// Records the last reading error of a server.
    pub fn set_last_error(&mut self, guild_id: u64, err: String)
        ensures
            parallel_in_range(final(self)@),
            final(self)@ == (VoiceSettingsView { errors: old(self)@.errors.insert(guild_id, err@), ..old(self)@ }),
    {
        proof {
            use_type_invariant(&*self);
        }
        let mut errors = new_error_texts();
        std::mem::swap(&mut errors, &mut self.last_errors);
        insert_error_text(&mut errors, guild_id, err);
        self.last_errors = errors;
        proof {
            use_type_invariant(&*self);
        }
    }

    /// Forgets the last reading error of a server.
    pub fn clear_last_error(&mut self, guild_id: u64)
        ensures
            parallel_in_range(final(self)@),
            final(self)@ == (VoiceSettingsView { errors: old(self)@.errors.remove(guild_id), ..old(self)@ }),
    {
        proof {
            use_type_invariant(&*self);
        }
        let mut errors = new_error_texts();
        std::mem::swap(&mut errors, &mut self.last_errors);
        remove_error_text(&mut errors, guild_id);
        self.last_errors = errors;
        proof {
            use_type_invariant(&*self);
        }
    }

    /// Forgets every server and channel setting.
    pub fn clear_all(&mut self)
        ensures
            parallel_in_range(final(self)@),
            final(self)@ == (VoiceSettingsView {
                default_speaker: old(self)@.default_speaker,
                guilds: Map::empty(),
                parallel: Map::empty(),
                errors: Map::empty(),
            }),
    {
        proof {
            use_type_invariant(&*self);
        }
        self.channel_parallel_counts = new_parallel_counts();
        self.guild_configs = new_guild_configs();
        self.last_errors = new_error_texts();
        proof {
            use_type_invariant(&*self);
        }
    }

    /// The speaker a request is read with: the requested one, or the server's.
    pub fn resolve_speaker(&self, guild_id: u64, requested: Option<u32>) -> (r: u32)
        ensures
            r == match requested {
                Some(s) => s,
                None => config_of(self@, guild_id).speaker,
            },
    {
        match requested {
            Some(s) => s,
            None => self.config(guild_id).speaker,
        }
    }
}

/// Law: after a server's speaker is set, its configuration has that speaker
/// and keeps its channel and reading switch; other servers are unchanged.
pub proof fn lemma_set_speaker_then_config(v: VoiceSettingsView, guild: u64, speaker: u32, other: u64)
    ensures
        config_of(with_speaker(v, guild, speaker), guild).speaker == speaker,
        config_of(with_speaker(v, guild, speaker), guild).auto_read == config_of(v, guild).auto_read,
        config_of(with_speaker(v, guild, speaker), guild).text_channel_id == config_of(v, guild).text_channel_id,
        other != guild ==> config_of(with_speaker(v, guild, speaker), other) == config_of(v, other),
{
}

/// Law: switching automatic reading with a text channel makes the server
/// read that channel with that switch; without a channel, a server keeps the
/// channel it had.
pub proof fn lemma_set_auto_read_then_config(v: VoiceSettingsView, guild: u64, enabled: bool, channel: Option<u64>)
    ensures
        config_of(with_auto_read(v, guild, enabled, channel), guild).auto_read == enabled,
        channel is Some ==> config_of(with_auto_read(v, guild, enabled, channel), guild).text_channel_id == channel,
        channel is None ==> config_of(with_auto_read(v, guild, enabled, channel), guild).text_channel_id == config_of(v, guild).text_channel_id,
        config_of(with_auto_read(v, guild, enabled, channel), guild).speaker == config_of(v, guild).speaker,
{
}

/// Law: the parallel count a channel reads with is always within `1..=4`
/// once set, and setting it twice with the same request changes nothing.
pub proof fn lemma_parallel_count_range(n: usize)
    ensures
        DEFAULT_PARALLEL_READ_COUNT <= clamp_parallel(n as int) <= MAX_PARALLEL_READ_COUNT,
        clamp_parallel(clamp_parallel(n as int)) == clamp_parallel(n as int),
{
}

/// Texts this long are read at a raised minimum speed.
pub fn is_long_tts_text(text: &str) -> (r: bool)
    ensures
        r == (text@.len() >= LONG_TTS_TEXT_THRESHOLD_CHARS),
{
    text.unicode_len() >= LONG_TTS_TEXT_THRESHOLD_CHARS
}

/// The settings of the speech engine shown in status replies.
pub struct VoiceCoreConfig {
    pub acceleration_mode: String,
    pub cpu_threads: u16,
    pub load_all_models: bool,
    pub output_sampling_rate: u32,
    pub open_jtalk_dict_dir: String,
    pub vvm_dir: String,
    pub onnxruntime_filename: String,
}

/// The acceleration as shown: `auto` (any ASCII case, surrounding whitespace
/// ignored) is shown as CPU mapped from auto, anything else as configured.
pub open spec fn acceleration_label(mode: Seq<char>) -> Seq<char> {
    if seq_ascii_lower(trim(mode)) == "auto"@ {
        "cpu(auto-mapped)"@
    } else {
        mode
    }
}

/// The one-line summary of the speech engine settings.
pub open spec fn core_summary_text(c: VoiceCoreConfig) -> Seq<char> {
    "standalone(acceleration="@ + acceleration_label(c.acceleration_mode@) + ", cpu_threads="@
        + decimal(c.cpu_threads as nat) + ", load_all_models=forced(true), output_sampling_rate="@
        + decimal(c.output_sampling_rate as nat) + ", output_stereo=fixed(false))"@
}

pub fn core_summary(config: &VoiceCoreConfig) -> (r: String)
    ensures
        r@ == core_summary_text(*config),
{
    let t = trim_chars(&str_to_chars(config.acceleration_mode.as_str()));
    let mut low: Vec<char> = Vec::new();
    let mut i: usize = 0;
    while i < t.len()
        invariant
            i <= t.len(),
            low@ == seq_ascii_lower(t@.subrange(0, i as int)),
        decreases t.len() - i,
    {
        low.push(to_ascii_lower(t[i]));
        i = i + 1;
        assert(low@ =~= seq_ascii_lower(t@.subrange(0, i as int)));
    }
    assert(t@.subrange(0, t.len() as int) =~= t@);
    let mut out = str_to_chars("standalone(acceleration=");
    if chars_eq_str(&low, "auto") {
        extend_str(&mut out, "cpu(auto-mapped)");
    } else {
        extend_str(&mut out, config.acceleration_mode.as_str());
    }
    extend_str(&mut out, ", cpu_threads=");
    extend_chars(&mut out, &u64_to_decimal(config.cpu_threads as u64));
    extend_str(&mut out, ", load_all_models=forced(true), output_sampling_rate=");
    extend_chars(&mut out, &u64_to_decimal(config.output_sampling_rate as u64));
    extend_str(&mut out, ", output_stereo=fixed(false))");
    chars_to_string(&out)
}

} // verus!
