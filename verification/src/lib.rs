pub mod agent;
pub mod config;
pub mod hotreload;
pub mod llm;
pub mod memory;
pub mod pattern;
pub mod security;
pub mod skills;
pub mod text;
