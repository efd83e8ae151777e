//! Small verified text utilities.
//!
//! Two independent, stateless components:
//! - `filter`: select the strings of a collection that contain a given
//!   needle as a contiguous substring, preserving their order;
//! - `bar`: render a fixed-width textual progress bar, a ten-cell interior
//!   of `=` and spaces wrapped in single-character delimiters.

pub mod bar;
pub mod filter;

pub use bar::delim_ok;
pub use bar::render_bar;
pub use filter::contains_substring;
pub use filter::find_contains;
