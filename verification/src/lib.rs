//! Core logic of a mod manager for a desktop game: discovering installed
//! packages, toggling their activation state, and installing new ones from
//! archives or folders.
//!
//! The load-bearing pieces live here, fully verified:
//! - `manifest`: the tolerant manifest-file parser (`mod_info.json`),
//! - `enabled`: the enabled-set file (`enabled_mods.json`), read and written,
//! - `locate`: the nested-root locator over a modeled directory tree,
//! - `conflict`: the id/path conflict detector,
//! - `pipeline`: the install pipeline as an explicit state machine,
//! - `registry`: the ordered id-to-entry registry and its view state,
//! - `version`: version comparison and the update reconciler.
//!
//! Filesystem, archive extraction, dialogs and the rest of the surrounding
//! application stay outside; they drive the pipeline by performing its
//! requested actions and feeding the outcomes back as events.

pub mod conflict;
pub mod enabled;
pub mod entry;
pub mod locate;
pub mod manifest;
pub mod pipeline;
pub mod registry;
pub mod version;
