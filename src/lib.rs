//! Change-triggered, checksum-reconciled synchronisation of save-game
//! directories: archive layout, fingerprints, the version-ledger protocol,
//! the per-item sync session and the change watcher.

pub mod archive;
pub mod catalog;
pub mod codec;
pub mod fingerprint;
pub mod ledger;
pub mod pcgw;
pub mod request;
pub mod restore;
pub mod settings;
pub mod stats;
pub mod steam;
pub mod sync;
pub mod text;
pub mod watcher;
