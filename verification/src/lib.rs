use vstd::prelude::*;

pub mod addressing_system;
pub mod aegis;
pub mod agent_extension;
pub mod agent_state;
pub mod aipc_controller;
pub mod api_manager;
pub mod assoc;
pub mod audit_log;
pub mod auto_takeover;
pub mod behavior_monitor;
pub mod auth_system;
pub mod cache_manager;
pub mod clock;
pub mod cognitive_cleaner;
pub mod concurrency;
pub mod data_security;
pub mod config_manager;
pub mod database;
pub mod deepseek;
pub mod distributed;
pub mod emergency_log;
pub mod error;
pub mod event_bus;
pub mod http_server;
pub mod i18n;
pub mod image_generator;
pub mod jarvis;
pub mod lsp_server;
pub mod mcp_server;
pub mod metrics;
pub mod multimodal;
pub mod opencode;
pub mod opencode_connector;
pub mod performance;
pub mod personal_rules;
pub mod plugin_system;
pub mod prompt_manager;
pub mod protocol;
pub mod providers;
pub mod rag_engine;
pub mod rate_limiter;
pub mod text;

verus! {

} // verus!
