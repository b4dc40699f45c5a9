//! The values the server sends about itself, as far as the window's logic reads them.
//!
//! These mirror the rows of the server's GUI protocol; the numeric gauges (TPS, CPU load and the
//! like) are floats and stay with the window's rendering code.
use vstd::prelude::*;

verus! {

#[derive(Debug, Clone, Copy, PartialEq, Eq, Structural)]
pub enum LogLevel {
    Trace,
    Debug,
    Info,
    Warn,
    Error,
}

/// A stretch of a log line in one colour; `None` when it carries no colour of its own.
#[derive(Debug, Clone)]
pub struct StyledRun {
    pub text: String,
    pub color: Option<(u8, u8, u8)>,
}

/// One line of server output, numbered in the order the server produced it.
#[derive(Debug, Clone)]
pub struct LogLine {
    pub seq: u64,
    pub level: LogLevel,
    pub target: String,
    pub message: String,
    pub runs: Vec<StyledRun>,
}

#[derive(Debug, Clone, Copy, PartialEq, Eq, Structural)]
pub enum ThemePreference {
    Light,
    Dark,
    System,
}

#[derive(Debug, Clone)]
pub struct PlayerRow {
    pub name: String,
    pub uuid: String,
    /// `java` or `bedrock`.
    pub edition: String,
    pub ping_ms: u32,
    pub dimension: String,
    pub gamemode: String,
    pub online: bool,
    pub online_secs: u64,
    pub operator: bool,
    pub banned: bool,
    pub whitelisted: bool,
}

#[derive(Debug, Clone, Copy, PartialEq, Eq, Structural)]
pub enum PluginKind {
    Wasm,
    Native,
}

#[derive(Debug, Clone)]
pub enum PluginState {
    Loading,
    Loaded,
    /// Loading failed, with the loader's error.
    Failed(String),
    Unloaded,
}

#[derive(Debug, Clone)]
pub struct PluginPermission {
    pub name: String,
    pub description: String,
}

#[derive(Debug, Clone)]
pub struct PluginRow {
    pub name: String,
    pub version: String,
    pub description: String,
    pub authors: Vec<String>,
    pub dependencies: Vec<String>,
    pub permissions: Vec<PluginPermission>,
    pub path: String,
    pub kind: PluginKind,
    pub state: PluginState,
    pub can_unload: bool,
}

#[derive(Debug, Clone)]
pub struct WorldRow {
    pub name: String,
    pub dimension: String,
    pub players: u64,
    pub loaded_chunks: u64,
    pub entities: u64,
    pub time_of_day: i64,
    pub weather: String,
    pub size_bytes: Option<u64>,
}

} // verus!
