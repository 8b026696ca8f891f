//! Core of a git-hook orchestration engine: hook resolution (override merge
//! and default fill), repo hook-map construction, the language-capability
//! contract over toolchain variants, and the batched process runner.

pub mod config;
pub mod hook;
pub mod languages;
pub mod run;
