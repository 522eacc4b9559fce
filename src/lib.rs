//! A small line-oriented configuration format: named tables of `key = value`
//! lines, each value given the most specific scalar type it spells.
//!
//! - `text`: trimming and searching over the characters of a string.
//! - `value`: the five-variant `Value` and the `Kind` a record field asks for.
//! - `coerce`: the ladder boolean, integer, float, character, string. Whether
//!   a character is written bare (`x`) or quoted (`'x'`) is the caller's
//!   choice of `CharPolicy`. A float is kept as the literal's text.
//! - `table`: tables, first-match lookup, and records built from a table.
//! - `scan`: the single pass that turns lines into tables.
//! - `config`: a parsed file, lookup of tables by name (first match), and
//!   records under either policy: `Option` (`table`, `record`) or `Result`
//!   with the reason (`table_strict`, `record_strict`).
//! - `laws`: what holds of every file: order, sealing, dropped lines.
pub mod text;
pub mod value;
pub mod coerce;
pub mod table;
pub mod scan;
pub mod config;
pub mod laws;
