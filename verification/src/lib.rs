//! Cross-Origin Resource Sharing (CORS) for actix-web services, with its
//! decisions verified: which requests are preflight requests and how they are
//! answered, which requests are refused, and which CORS headers every other
//! response receives.
//!
//! - `headers`: actix-web's header map as the logic sees it, and the byte-level
//!   rules of header names, header values and methods;
//! - `names`: the header names and fixed values of the CORS protocol;
//! - `bytes`: byte-string helpers (lists, trimming, decimal numbers);
//! - `inner`: the CORS settings and the checks they make of a request;
//! - `middleware`: the middleware's decisions and the response headers;
//! - `laws`: properties that hold for every request and setting.
use vstd::prelude::*;

pub mod bytes;
pub mod headers;
pub mod inner;
pub mod laws;
pub mod middleware;
pub mod names;
