//! A status panel for the quotas of several Codex and OpenAI accounts: the profiles, their
//! secrets, the refresh of their quotas, and what the panel shows.
pub mod text;
pub mod percent;
pub mod string_map;
pub mod paths;
pub mod base64url;
pub mod cipher;
pub mod clock;
pub mod commands;
pub mod cli;
pub mod domain;
pub mod config;
pub mod provider_codex;
pub mod provider_openai_api;
pub mod store;
pub mod locations;
pub mod auth;
pub mod doctor;
pub mod refresh;
pub mod refresh_cycle;
pub mod tui;
pub mod tui_render;
