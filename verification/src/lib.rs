//! Snap sync: state download planning, peer bookkeeping, progress accounting
//! and verification bookkeeping for the snap protocol.

pub mod client;
pub mod clock;
pub mod collector;
pub mod config;
pub mod downloader;
pub mod error;
pub mod example;
pub mod hash;
pub mod header_subscription;
pub mod messages;
pub mod peer_manager;
pub mod progress;
pub mod queue;
pub mod results;
pub mod server;
pub mod sets;
pub mod snap_sync_proper;
pub mod snap_sync_simplified;
pub mod stage;
pub mod state_discovery;
pub mod state_healer;
pub mod state_manager;
pub mod stage_api;
pub mod sync_args;
pub mod task;
pub mod test_utils;
pub mod trie;
pub mod state_verifier;
