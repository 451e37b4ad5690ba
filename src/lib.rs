//! Zero-overwrite erasure of block devices: device catalog filtering, chunked
//! wipe passes, verification scans, a bounded repair loop and the session that
//! drives them. The library decides; the caller performs the device I/O.
pub mod catalog;
pub mod discovery;
pub mod repair;
pub mod scan;
pub mod session;
pub mod tables;
pub mod wipe;
