//! Writes row-shaped records into a columnar file, one row group per batch.
//!
//! The library turns a loose schema description into a column plan,
//! transposes rows into column-major value and definition-level buffers, and
//! hands the encoded bytes to a pull-mode buffer or a push-mode dispatcher.
pub mod arrow;
pub mod batch;
pub mod date;
pub mod engine;
pub mod exporter;
pub mod numeric;
pub mod schema;
pub mod sink;
pub mod writer;
