//! A Vagrant-compatible machine manager: action middleware chains, box
//! version handling and the parsing and planning behind its commands.

pub mod action;
pub mod autocomplete;
pub mod box_cmd;
pub mod box_manager;
pub mod cap;
pub mod cloud_cmd;
pub mod docker;
pub mod error;
pub mod init;
pub mod json;
pub mod laws;
pub mod lifecycle;
pub mod list_commands;
pub mod login;
pub mod mutate;
pub mod output;
pub mod package;
pub mod plugin;
pub mod port;
pub mod port_cmd;
pub mod provider;
pub mod powershell;
pub mod status;
pub mod strmap;
pub mod text;
