//! Verified core of `beams`, which shares a local server through a public
//! tunnel: turning user input into tunnel targets, reading what the tunnel
//! tools print, naming and unpacking the tools to download, and the small
//! decision procedures that keep a tunnel session alive.

pub mod archive;
pub mod binary;
pub mod cli;
pub mod error;
pub mod local;
pub mod output;
pub mod parser;
pub mod ready;
pub mod session;
pub mod streak;
pub mod text;
pub mod tunnel;
