//! Encrypted volume management: command parsing, mapper naming, target resolution and
//! the decisions of the create, mount and unmount workflows.

pub mod api;
pub mod cli;
pub mod cli_spec;
pub mod commands;
pub mod desktop;
pub mod error;
pub mod help;
pub mod helper;
pub mod inspect;
pub mod linux;
pub mod model;
pub mod mounting;
pub mod mountinfo;
pub mod naming;
pub mod operation;
pub mod output;
pub mod paths;
pub mod preferences;
pub mod session;
pub mod size;
pub mod system;
pub mod text;
pub mod volumes;
pub mod workflow;
