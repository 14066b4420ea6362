//! A memcached client library.

pub mod async_client;
pub mod big_endian;
pub mod bytes;
pub mod cacheable;
pub mod client;
pub mod connectable;
pub mod connection;
pub mod decimal;
pub mod error;
pub mod exp;
pub mod ffi;
pub mod io;
pub mod lists;
pub mod memcache;
pub mod notation;
pub mod packet;
pub mod pairs;
pub mod protocol;
pub mod reader;
pub mod representation;
pub mod settings;
pub mod setup;
pub mod stream;
pub mod text;
pub mod time;
pub mod tls;
pub mod transitions;
pub mod value;

pub use client::{Client, ClientBuilder, Connectable};
pub use connection::Connection;
pub use error::{ClientError, CommandError, MemcacheError, ParseError, ServerError};
pub use protocol::ascii::Options;
pub use value::{FromMemcacheValue, FromMemcacheValueExt, ToMemcacheValue};
