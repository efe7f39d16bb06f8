//! The bookkeeping of benchmark campaigns.

pub mod aggregate;
pub mod command;
pub mod csv;
pub mod report;
pub mod series;
pub mod stats;
pub mod suite;
pub mod text;
