//! Homelab automation layer: the configuration, discovery, schema and command
//! planning logic of the `halvor` tool.
pub mod text;
pub mod portainer;
pub mod config;
pub mod envparse;
pub mod env_file;
pub mod schema;
pub mod crypto;
pub mod settings;
pub mod commands;
pub mod migrations;
pub mod discovery;
pub mod agent;
pub mod sync;
pub mod report;
pub mod node_setup;
pub mod maintenance;
pub mod db;
pub mod generated;
pub mod schema_text;
pub mod crud;
pub mod schema_migrations;
pub mod config_report;
pub mod backup_plan;
