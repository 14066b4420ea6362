//! The meta-protocol client: typed values and scenarios over protocol-level
//! operations, over commands and responses on the wire.

pub mod base64;
pub mod batch;
pub mod bookkeeping;
pub mod client;
pub mod conduct;
pub mod connection;
pub mod error;
pub mod guarantees;
pub mod many;
pub mod memcache;
pub mod meta_api;
pub mod meta_command;
pub mod operation;
pub mod outcomes;
pub mod pool;
pub mod promises;
pub mod request;
pub mod result;
pub mod roundtrip;
pub mod router;
pub mod scenario;
pub mod semantics;
pub mod sent;
pub mod ttl;
pub mod value;
pub mod verb;
pub mod wire;

pub use client::MetaClientBuilder;
pub use error::Error;
pub use memcache::{ErrorEvent, ErrorKind, MemcacheBuilder};
pub use meta_api::{
    build_arithmetic, build_debug, build_delete, build_get, build_noop, build_set, parse_debug_result,
    parse_meta_result, ArithmeticMode, ArithmeticOptions, DeleteOptions, GetOptions, MetaCommandResult, SetMode,
    SetOptions,
};
pub use meta_command::{MetaCommand, MetaOp, MetaResponse, ReturnCode, MAX_KEY_LENGTH};
pub use operation::{Arithmetic, Delete, Get, Meta, Op, Store};
pub use request::Request;
pub use result::{
    ArithmeticResult, GetResult, GetStatus, ItemMeta, LeaseState, MutationResult, MutationStatus, OpResult,
    ValueState,
};
pub use router::{default_hash_function, Rendezvous, Router, ServerAddress};
pub use scenario::ItemInfo;
pub use semantics::Operation;
pub use ttl::{Freshness, Ttl};
pub use value::{
    Decode, DecodeError, Encode, EncodeError, Encoded, Json, FLAG_BYTES, FLAG_INT, FLAG_JSON, FLAG_STR,
};
