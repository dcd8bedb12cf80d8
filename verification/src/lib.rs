pub mod cli;
pub mod clock;
pub mod config;
pub mod error;
pub mod filters;
pub mod laws;
pub mod lease;
pub mod order;
pub mod pathname;
pub mod paths;
pub mod process;
pub mod project;
pub mod remote;
pub mod service;
pub mod state;
pub mod status;
pub mod text;
pub mod uuids;
pub mod workspace;
