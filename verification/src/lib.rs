//! FirstMate agents run from a home directory on the local machine. This crate decides how such
//! an agent is validated, launched, tracked and stopped; every decision carries a contract that
//! Verus proves.
//!
//! The surrounding program does the input and output: it reads files, runs commands and waits. It
//! hands what it saw to the functions here as plain values, and does what they answer.

// What everything else is written with.
pub mod text;
pub mod encoding;
pub mod path;
pub mod digest;
pub mod json;
pub mod outcome;
pub mod command;

// The directory that an agent runs from, what is installed there, and its part in a stop.
pub mod working_directory;
pub mod bridge;
pub mod lifecycle;
pub mod home_facts;

// The shared Herdr server and the endpoints in it.
pub mod multiplexer;
pub mod identity;
pub mod contract;
pub mod agents;
pub mod broker;
pub mod fleet;
pub mod fleet_laws;
pub mod fleet_facts;

// Herdr by its command line.
pub mod cli;
pub mod cli_laws;
pub mod cli_facts;
pub mod discovery;

// What is said where any of this is refused.
pub mod refusals;
