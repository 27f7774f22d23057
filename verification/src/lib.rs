//! Vendor, model and temperature of the disks of a host, recovered from what
//! a diagnostics utility prints about them.
//!
//! The library decides and computes; it runs nothing. `devices` reads the
//! listing of block devices, `probe` says which run of the diagnostics
//! utility to make next for a device and when to stop, `extract` recovers
//! vendor, model and temperature from the output of a run, and `report` makes
//! the records and rows of the final report. `document` holds the fields of a
//! structured report as plain values, `json` is the interface to the JSON
//! parser, and `text` the handling of characters underneath.
pub mod devices;
pub mod document;
pub mod extract;
pub mod json;
pub mod probe;
pub mod report;
pub mod text;
