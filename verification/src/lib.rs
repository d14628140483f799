//! Core of an overlay-mount game mod manager.
//!
//! A game's installation directory is isolated behind a copy-on-write overlay
//! mount composed from a tree of named mod sets. This crate holds the verified
//! core: the mount state machine that infers the overlay's state from
//! filesystem probes, and the mod-set resolution engine that flattens a
//! possibly-recursive tree of named references into an ordered, deduplicated
//! overlay layer stack, a merged environment, and a merged command list.
//!
//! All filesystem access, process spawning and configuration-file parsing is
//! left to the surrounding program, which hands the results of its probes and
//! reads to the functions here as plain values.

pub mod external_command;
pub mod game;
pub mod mod_set;
pub mod mount_state;
pub mod config;
pub mod env_map;
pub mod overlay;
pub mod strutil;
pub mod transitions;
