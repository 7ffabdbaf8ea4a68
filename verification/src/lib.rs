//! Verified core of the Flow LLM gateway API: agent context management,
//! gateway error handling, session profiles, prompt rollouts, prompt compiler
//! helpers and query construction.

pub mod ids;
pub mod decimal;
pub mod errors;
pub mod messages;
pub mod text;
pub mod context;
pub mod json;
pub mod gateway;
pub mod executor;
pub mod profiles;
pub mod rollouts;
pub mod compiler;
pub mod sql;
pub mod search;
pub mod users;
pub mod replay;
pub mod a2a;
pub mod integrations;
pub mod attachments;
pub mod scores;
pub mod sessions;
pub mod slots;
pub mod playground;
pub mod settings;
pub mod gateway_settings;
pub mod profile_changes;
pub mod metrics;
pub mod proposals;
pub mod agent;
pub mod tasks;
pub mod repair;
pub mod topology;
