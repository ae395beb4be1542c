//! Verified core of an Android network-forensics platform: forensic hashing,
//! the hash-chained audit log, capability detection and evidence timelines.

pub mod acquisition;
pub mod adb;
pub mod ai;
pub mod briefing;
pub mod chain;
pub mod commands;
pub mod config;
pub mod confidence;
pub mod correlate;
pub mod custody;
pub mod detector;
pub mod entry;
pub mod error;
pub mod events;
pub mod export;
pub mod hash;
pub mod identity;
pub mod instants;
pub mod json;
pub mod pipeline;
pub mod profiles;
pub mod reporting;
pub mod roles;
pub mod run_control;
pub mod run_records;
pub mod sort;
pub mod startup;
pub mod text;
pub mod timeline;
pub mod types;
pub mod vfs;
pub mod writer;
