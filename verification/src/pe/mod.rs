//! The headers of an executable, as far as the table of its sections.

pub mod structures;
