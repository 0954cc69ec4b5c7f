//! Passive network device logging: decoded capture frames are reduced to
//! address observations and kept, one record per IP, in a durable store.

mod text;
pub mod frame;
pub mod record;
pub mod reducer;
mod sql;
pub mod order;
pub mod store;
pub mod capture;
pub mod freshness;
pub mod scan;
pub mod config;
pub mod timestamp;
