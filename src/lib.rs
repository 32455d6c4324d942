//! HTTP request-handling core: a single-pass HTTP/1.1 request parser that
//! reports byte offsets, a per-method radix-trie router, a middleware
//! pipeline, and the protocol helpers around them (requests and responses,
//! WebSocket frames, HTTP/2 codes, server-sent events, range requests,
//! cookies, authentication, CSRF and JWT tokens, compression, telemetry).
use vstd::prelude::*;

pub mod bytes;
pub mod scan;
pub mod text;
mod clock;

pub mod error;
pub mod method;
pub mod parser;
pub mod router;

pub mod status;
pub mod response;
pub mod request;
pub mod server;
pub mod http2;
pub mod crypto;
pub mod websocket;
pub mod auth;
pub mod cookie;
pub mod proxy;
pub mod security;
pub mod body_limit;
pub mod compress;
pub mod sse;
pub mod range;
pub mod tracing;
pub mod telemetry;
pub mod csrf;
pub mod jwt;
pub mod cache;
pub mod static_files;
pub mod session;
pub mod health;
pub mod cors;
pub mod middleware;

pub use error::Error;
pub use method::Method;
pub use parser::{parse_request, HeaderOffsets, ParsedRequest, MAX_HEADERS};
pub use router::{Match, Router};

verus! {

} // verus!
