//! The tables of the tool's database, one module per table.
pub mod encrypted_env_data;
pub mod settings;
pub mod smb_servers;
pub mod update_history;
