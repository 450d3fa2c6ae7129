//! Verified core of a LAN clipboard-sharing service: canonical encodings,
//! signed sync-group manifests, file-bundle manifests, pairing and delivery
//! decisions.

pub mod codec;
pub mod formats;
pub mod crypto;
pub mod text;
pub mod order;
pub mod identity;
pub mod group;
pub mod path;
pub mod files;
pub mod delivery;
pub mod content;
pub mod views;
pub mod pairing;
pub mod cache;
pub mod membership;
pub mod imports;
pub mod confirmation;
pub mod platform;
pub mod monitor;
pub mod receive;
pub mod telemetry;
pub mod peers;
pub mod capture;
pub mod frames;
pub mod outbox;
pub mod blobs;
pub mod runtime;
pub mod ui;
pub mod session;
pub mod discovery;
