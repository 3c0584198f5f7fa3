//! The text that a run is reported in.

pub mod csv_adapter;
