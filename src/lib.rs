//! Field-aware resolution of series and events: which statement a request
//! needs, and how the rows that come back become typed values.

pub mod plan;
pub mod resolve;
pub mod row;
