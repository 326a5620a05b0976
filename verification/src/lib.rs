pub mod agent;
pub mod app_spec;
pub mod bench;
pub mod bench_config;
pub mod cli;
pub mod commands;
pub mod config;
pub mod discovery;
pub mod env;
pub mod framework;
pub mod errors;
pub mod mcp;
pub mod parameter;
pub mod scaffold;
pub mod schema;
pub mod sketch;
pub mod tailwind;
pub mod tasks;
pub mod test_report;
pub mod text;
pub mod tools;
pub mod weights;
