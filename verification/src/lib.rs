//! Sampling from one of several AI providers, in a configured order.
pub mod actor;
pub mod actor_laws;
pub mod cancellation;
pub mod conversation;
pub mod copilot_headers;
pub mod gemini;
pub mod gemini_build;
pub mod gemini_build_laws;
pub mod gemini_chunk_laws;
pub mod gemini_laws;
pub mod json;
pub mod json_laws;
pub mod lists;
pub mod modal_key_laws;
pub mod modal_laws;
pub mod panel_laws;
pub mod presets;
pub mod providers;
pub mod providers_ext;
pub mod providers_io;
pub mod providers_io_laws;
pub mod providers_keys;
pub mod providers_laws;
pub mod providers_modal;
pub mod providers_panel;
pub mod sampler_config;
pub mod sampling;
pub mod slash_command;
pub mod string_map;
pub mod text;
pub mod text_laws;
pub mod toml_doc;
