//! A persistent product store: an identifier counter and an ordered table of
//! encoded product records, each kept in its own region of stable memory.
pub mod codec;
pub mod record;
pub mod storage;
pub mod service;
