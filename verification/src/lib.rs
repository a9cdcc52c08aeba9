//! A multi-segment HTTP download engine core: segment planning, the
//! per-download state machine, progress accounting, the persistence row
//! layout, the live-download registry, and the length-prefixed framing
//! used by the browser bridge.
//!
//! All logic here is verified. The surrounding process (HTTP requests,
//! file writes, the database connection, the async runtime) lives outside
//! this crate and hands plain values in and out.

pub mod client;
pub mod codec;
pub mod errors;
pub mod machine;
pub mod manager;
pub mod planner;
pub mod probe;
pub mod progress;
pub mod record;
pub mod registry;
pub mod status;
pub mod store;
