//! The command model: one record per command, built from a request's
//! arguments and applied to the store.

pub mod field_builder;
pub mod ping;
pub mod pong;
pub mod set;
pub mod get;
pub mod delete;
pub mod mget;
pub mod mset;
pub mod lpush;
pub mod rpush;
pub mod lpop;
pub mod rpop;
pub mod llen;
pub mod lrange;
pub mod sadd;
pub mod scard;
pub mod smembers;
