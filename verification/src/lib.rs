//! Verified core of a device registry explorer.
//!
//! A UI thread submits typed commands (enumerate devices, fetch a device's
//! info, query its registry) to a single worker, which executes them strictly
//! in order against short-lived device connections and hands back typed
//! results. This crate holds the verified logic of that pipeline: the command
//! and result types, the worker's per-command computation, the device roster,
//! and the UI-side state machine that consumes results. The actual transport
//! connections, channels and rendering live outside.

pub mod message;
pub mod props;
pub mod roster;
pub mod shims;
pub mod ui;
pub mod worker;
