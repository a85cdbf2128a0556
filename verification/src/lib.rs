//! Decisions of a network-interface configuration daemon, kept apart from
//! the operating system: the library says which command, hook, pause, probe
//! or frame comes next, and the caller carries it out and reports back.
pub mod arp;
pub mod config;
pub mod control;
pub mod hooks;
pub mod interface;
pub mod link;
pub mod orchestrator;
pub mod plan;
pub mod renames;
pub mod report;
pub mod text;
