//! The table-name and column-name convention, on a small example table.

pub mod example;
