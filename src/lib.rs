//! An HTTP load generator's core: run configuration, the decisions of each
//! virtual client's request loop, and the statistics over request outcomes.
pub mod text;
pub mod support;
pub mod benchmark;
pub mod execution;
