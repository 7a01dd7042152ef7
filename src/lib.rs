//! Orchestration core of a desktop widget host: the supervisor of running
//! widget processes, the lifecycle command router, the in-process capability
//! dispatcher and the autostart change detector.
pub mod text;
pub mod rpc;
pub mod supervisor;
pub mod router;
pub mod ledger;
pub mod autostart;
pub mod ipc;
pub mod exec;
pub mod config;
pub mod cli;
pub mod keybinds;
pub mod validations;
pub mod initial;
