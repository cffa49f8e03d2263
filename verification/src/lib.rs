//! Scanning the objects of a storage container: every object under a prefix
//! is fetched in full, and the scan either counts the objects or names the
//! first one whose bytes hold a pattern.
//!
//! The library holds the decisions; a driver performs the storage calls and
//! hands back what came of them.
//!
//! - [`request`]: the inbound request, its validation, the listing call.
//! - [`matcher`]: byte-level substring search.
//! - [`outcome`]: what one fetch yields.
//! - [`aggregate`]: the result of a scan and its text.
//! - [`pipeline`]: the state machine that a driver steps through.
//! - [`guarantees`]: what holds of every scan.

pub mod aggregate;
pub mod guarantees;
pub mod matcher;
pub mod outcome;
pub mod pipeline;
pub mod request;
