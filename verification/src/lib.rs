//! A car wash registry kept in stable memory: centers, vehicles, services and
//! expenses, each in an ordered map of its own, with identifiers drawn from one
//! shared counter.

pub mod codec;
pub mod records;
pub mod registry;
pub mod storage;
