//! An in-process HTTP double: a programmable routing table shared between a
//! configuration handle (the "server") and request handles (the "clients"),
//! so that code written against an HTTP client interface can be exercised
//! without any network I/O.
//!
//! The routing core is a registry of per-path handlers plus an optional
//! default handler. Resolution tries an exact path match first, then the
//! default, and finally falls back to a fixed not-found response.

pub mod handlers;
pub mod message;
pub mod routing;
pub mod server;

pub use handlers::{CountingHandler, ErrorHandler, StatusHandler};
pub use message::{Error, Request, Response, ResponseView};
pub use routing::{HandlerFn, RoutingState};
pub use server::{MockHttpClient, MockHttpServer};
