//! Verified core of the Pumpkin server's monitoring window: value formatting, console command
//! lines, the launcher's decisions, and the state machines behind each page.
pub mod client;
pub mod command;
pub mod config;
pub mod dev_tools;
pub mod format;
pub mod launcher;
pub mod probe;
pub mod protocol;
pub mod tabs;
pub mod text;
pub mod theme;
pub mod window;
