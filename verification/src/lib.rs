//! Sampling and derivation of operating-system metrics from the text files of
//! a process-information filesystem.

pub mod cpu;
pub mod error;
pub mod file_utils;
pub mod format;
pub mod linux_parser;
pub mod memory;
pub mod minigrep;
pub mod number;
pub mod process;
pub mod ratio;
pub mod system;
pub mod text;
