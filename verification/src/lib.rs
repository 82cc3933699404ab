//! Verified core of a terminal multiplexer's Windows client.
//!
//! The platform half finds the process that a pane shows in the foreground, turns
//! clipboard bitmaps into PNG files, and decides about processes, commands and the
//! clipboard. The remote half reads the command line, prepares a binary and a server on
//! a remote host over ssh, and builds every command and message on the way. The
//! functions here compute and decide; running commands, reading files and calling the
//! system is left to their caller.
pub mod args;
pub mod clipboard;
pub mod commands;
pub mod dib;
pub mod discovery;
pub mod foreground;
pub mod host;
pub mod install;
pub mod manifest;
pub mod prepare;
pub mod process;
pub mod process_tree;
pub mod readiness;
pub mod report;
pub mod server;
pub mod shell;
pub mod ssh;
pub mod table;
pub mod text;
pub mod utf16;
