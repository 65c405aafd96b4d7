//! Decision core of a personal assistant daemon: routing, delivery, scheduling,
//! command gating and prompt building, each with a proved contract.

pub mod activity;
pub mod app;
pub mod channels;
pub mod circuit_breaker;
pub mod cli_client;
pub mod cli_server;
pub mod commands;
pub mod config;
pub mod cron;
pub mod db;
pub mod delivery;
pub mod engage;
pub mod json;
pub mod logs;
pub mod mcp;
pub mod protocol;
pub mod providers;
pub mod recovery;
pub mod router;
pub mod runs;
pub mod session;
pub mod text;
pub mod time;
