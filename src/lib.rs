//! A CSV plugin: delimited text parsed into rows, rows formatted as delimited
//! text, and delimited text turned into keyed records, behind a small request
//! protocol whose requests and responses are JSON.

pub mod boundary;
pub mod codec;
pub mod dispatch;
pub mod metadata;
pub mod node;
