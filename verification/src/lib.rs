//! Verified core of the Radium command-line tool.
pub mod agents;
pub mod analytics;
pub mod braingrid;
pub mod budget;
pub mod capability;
pub mod chat;
pub mod checkpoint;
pub mod client;
pub mod code;
pub mod colors;
pub mod commands;
pub mod cost;
pub mod craft;
pub mod custom;
pub mod doctor;
pub mod event_renderer;
pub mod hooks;
pub mod init;
pub mod mcp;
pub mod models;
pub mod monitor;
pub mod paths;
pub mod plan;
pub mod playbook;
pub mod policy;
pub mod privacy;
pub mod requirement;
pub mod template;
pub mod text;
