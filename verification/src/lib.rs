//! Best-effort lookups of the current cloud profile and cluster context.
//!
//! The crate holds the decisions only. Its callers read the environment and
//! the configuration files and hand the values in; every lookup degrades to
//! an empty field where something is missing or cannot be parsed.
//!
//! * [`aws`] resolves the cloud profile and region.
//! * [`kubernetes`] resolves the cluster context, merged over several
//!   configuration files, and remembers what it resolved.
//! * [`alias`] renames a context or a user through an alias table.
//! * [`cache`] is the bounded store of remembered cluster contexts.
//! * [`text`] holds what the others share on strings.
//!
//! Parsing and matching are left to the `rust-ini`, `yaml-rust`, `regex` and
//! `cached` crates. What is taken for granted of them, without proof, is
//! written down in [`ini_config`], [`yaml`], [`pattern`] and at the head of
//! [`cache`]; everything else is proved from that.

pub mod alias;
pub mod aws;
pub mod cache;
pub mod ini_config;
pub mod kubernetes;
pub mod pattern;
pub mod text;
pub mod yaml;
