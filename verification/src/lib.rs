//! A task-runner front end: discovers named tasks across several kinds of
//! project conventions (manifest script blocks, a declarative task file,
//! source files that declare tasks as code, directories of executables),
//! merges them into one namespace, and plans how a requested task is
//! dispatched to the backend that owns it.

pub mod command;
pub mod composer;
pub mod envfile;
pub mod errors;
pub mod jake;
pub mod jsmodel;
pub mod manifest;
pub mod moon;
pub mod npm;
pub mod registry;
pub mod scripts;
pub mod strutil;
pub mod zsh_autocomplete;
