//! A tiny init process for containers: the rules by which it reads its command line and its
//! configuration, prepares the managed command, and supervises it.

pub mod allow_law;
pub mod args;
pub mod args_law;
pub mod ask_law;
pub mod cleanup_law;
pub mod cli;
pub mod config;
pub mod config_file;
pub mod config_keys;
pub mod config_law;
pub mod config_text;
pub mod context;
pub mod control;
pub mod discovery;
pub mod elf;
pub mod elf_law;
pub mod env_command;
pub mod env_defaults;
pub mod env_law;
pub mod env_signal;
pub mod env_split;
pub mod error;
pub mod expand;
pub mod expand_law;
pub mod explain;
pub mod facts;
pub mod file_law;
pub mod follow;
pub mod follow_law;
pub mod grace_law;
pub mod image_law;
pub mod landlock;
pub mod landlock_law;
pub mod launch;
pub mod launch_law;
pub mod logging;
pub mod options_law;
pub mod platform;
pub mod policy;
pub mod policy_law;
pub mod raw_args;
pub mod reach_law;
pub mod report;
pub mod run_law;
pub mod search_law;
pub mod session;
pub mod shebang;
pub mod shebang_law;
pub mod shown;
pub mod signals;
pub mod supervise;
pub mod supervise_law;
pub mod text;
pub mod text_law;
pub mod told_law;

pub use cli::{Cli, WritePreset, DEFAULT_CONFIG_PATH};
pub use error::{Context, Error};
pub use platform::run;
