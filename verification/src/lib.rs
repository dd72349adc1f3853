//! Verified core of the Nelfie Discord bot: text pipelines for speech, the
//! voice catalog, settings and per-user state, the language-model context and
//! its tools, the rewrite of tool schemas for Gemini, WAV panning, and the
//! decisions the Discord event handlers and commands take.
pub mod text;
pub mod catalog;
pub mod tts;
pub mod kana;
pub mod dict;
pub mod markup;
pub mod fork_ext;
pub mod config;
pub mod voice_state;
pub mod wav;
pub mod tool_args;
pub mod voicevox_tool;
pub mod discord_tool;
pub mod commands;
pub mod events;
pub mod lm_context;
pub mod chat;
pub mod get_time;
pub mod modal_builder;
pub mod latex;
pub mod core_runtime;
pub mod user_store;
pub mod schema;
pub mod playback;
pub mod tool_schema;
pub mod response_loop;
pub mod discord_reply;
pub mod voice_reply;
pub mod maps;
