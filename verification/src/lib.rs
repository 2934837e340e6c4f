//! Keeps directories linked to backing directories on fast storage.
//!
//! A registry records, for each target directory, the backing directory
//! under a storage root that the target is to be a symbolic link to. A pass
//! over the registry looks at every target, repairs what has drifted and
//! never deletes anything but a link: what is in the way is renamed.
//!
//! The library decides; it does not touch the file system. It hands out
//! requests and takes events, so that every decision is a function of what
//! it was told, and is proved to be the function that the specifications in
//! each module state.
//!
//! - [`path`]: lexical paths and their normal form.
//! - [`names`]: random names for new backing directories.
//! - [`protocol`]: requests and events.
//! - [`registry`]: the registry and its entries.
//! - [`merge`]: the copy of seed data over a backing directory.
//! - [`reconcile`]: the reconciliation of one entry.
//! - [`pass`]: the pass over all entries.
//!
//! The modules whose names end in `_laws` hold what is proved of these for
//! every input.

pub mod merge;
pub mod merge_laws;
pub mod names;
pub mod pass;
pub mod pass_laws;
pub mod path;
pub mod path_laws;
pub mod protocol;
pub mod reconcile;
pub mod reconcile_laws;
pub mod registry;
pub mod registry_laws;
