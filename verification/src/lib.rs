//! Incremental synchronization and multi-channel notification engine.
//!
//! Several governance and marketplace feeds are watched by the same repeating
//! pattern: periodically fetch the full collection of entities of one type,
//! compare it against the snapshot cached on the previous cycle, announce each
//! newly appeared entity through every enabled channel handler, and persist
//! the fresh collection as the next baseline.
//!
//! This crate verifies that pattern. Fetching and delivery are collaborators
//! at the edges; the engine itself — snapshot store, diff engine, dispatcher,
//! cycle orchestrator and thread-link tracker — is specified and proved here.

pub mod codec;
pub mod cycle;
pub mod diff;
pub mod entity;
pub mod event;
pub mod handler;
pub mod lil_nouns;
pub mod links;
pub mod meta_gov;
pub mod prop_house;
pub mod prop_lot;
pub mod second_market;
pub mod store;
pub mod utils;

pub use entity::Entity;
