//! A launcher that stands in for a program: it looks up the first argument
//! among the aliases of its configuration and works out which program to
//! run and with which arguments. The library decides; reading the
//! environment and the files, and running the program, is left to the
//! caller.

pub mod config;
pub mod document;
pub mod environment;
pub mod handler;
pub mod paths;
pub mod process;
pub mod text;
