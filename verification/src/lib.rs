//! vtd: a push-to-talk voice dictation daemon. The library holds what the
//! daemon decides and computes: its settings from the environment, keyboard
//! detection from the kernel's device listing, the recording state machine,
//! the commands it runs, the installer's files, and the command line.
pub mod cli;
pub mod config;
pub mod daemon;
pub mod install;
pub mod keyboard;
pub mod listing;
pub mod number;
pub mod path;
pub mod text;
pub mod words;
