//! Mind Wiki: an encrypted wiki behind a key gateway.

pub mod agent;
pub mod browse;
pub mod bundle;
pub mod chat;
pub mod container;
pub mod entry;
pub mod flow;
pub mod gate;
pub mod gateway;
pub mod graph;
pub mod history;
pub mod import;
pub mod ingest;
pub mod laws;
pub mod llm;
pub mod markdown;
pub mod order;
pub mod paths;
pub mod prompts;
pub mod query;
pub mod reply;
pub mod secret;
pub mod settings;
pub mod skills;
pub mod snapshot;
pub mod state;
pub mod text;
pub mod tree;
pub mod upload;
pub mod vault;
