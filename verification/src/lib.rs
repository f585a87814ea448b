//! An event-flow engine: producers submit typed data snapshots (`Instance`s)
//! for a named, versioned data stream (`Thing`); the engine decides which
//! downstream flows receive each snapshot, performs weighted canary selection
//! among competing flow definitions, wraps the snapshot in a delivery
//! envelope, and dispatches it to a conversion step, retrying duplicate
//! writes for stateful streams and surfacing permanent failures to an error
//! channel.

pub mod domain;
pub mod text;
pub mod flows;
pub mod cache;
pub mod store;
pub mod sequential;
pub mod timer;
pub mod convert;
pub mod actor;
pub mod meta;
