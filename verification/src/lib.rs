pub mod text;
pub mod paths;
pub mod auth;
pub mod error;
pub mod config;
pub mod recent;
pub mod projects;
pub mod users;
pub mod session;
pub mod search;
pub mod vector;
pub mod agent_cli;
pub mod files;
