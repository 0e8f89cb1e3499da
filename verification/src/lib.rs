//! Verified core of a subnet web-service scanner.
//!
//! The library holds the logic of the scan: generating the address range of a
//! subnet, deciding which ports and schemes to probe, extracting a page title
//! from a response body, rendering a result line, and the admission model
//! (permit pool plus token bucket) that bounds the scan's concurrency and
//! rate. The surrounding program performs the network I/O and feeds the
//! outcomes back to these functions.

pub mod aggregate;
pub mod govern;
pub mod pipeline;
pub mod range;
pub mod render;
pub mod title;
