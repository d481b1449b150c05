//! The two handle types over the shared routing state.
//!
//! A [`MockHttpServer`] is the configuration side: it registers handlers and
//! mints request handles. A [`MockHttpClient`] is the request side: it
//! resolves requests against the same state. Both hold a reference-counted
//! share of one lock-guarded [`RoutingState`]; every registration and every
//! resolution takes the same exclusive lock for its whole duration, so
//! handler invocations are serialized per server instance, and the state
//! lives as long as its longest-lived handle.

use std::sync::Arc;
use vstd::prelude::*;
use vstd::rwlock::RwLock;

use crate::message::{Error, Request, Response};
use crate::routing::{resolve_output, HandlerFn, RoutingState};

verus! {

/// The invariant the shared lock maintains: the routing state stays
/// well-formed, whichever handle last wrote it.
pub open spec fn routing_inv<H>() -> spec_fn(RoutingState<H>) -> bool {
    |s: RoutingState<H>| s.wf()
}

/// Relies on alloc::sync::Arc::clone: the clone is another pointer to the
/// same allocation, so it carries the same value.
#[verifier::external_body]
fn arc_clone<T>(a: &Arc<T>) -> (r: Arc<T>)
    ensures
        r == *a,
{
    Arc::clone(a)
}

/// The configuration handle: registers handlers in the shared routing state
/// and derives request handles that observe the same state.
#[verifier::reject_recursive_types(H)]
pub struct MockHttpServer<H> {
    state: Arc<RwLock<RoutingState<H>, spec_fn(RoutingState<H>) -> bool>>,
}

/// The request handle: resolves requests against the routing state it shares
/// with the server it was derived from.
#[verifier::reject_recursive_types(H)]
pub struct MockHttpClient<H> {
    state: Arc<RwLock<RoutingState<H>, spec_fn(RoutingState<H>) -> bool>>,
}

impl<H: HandlerFn> MockHttpServer<H> {
    /// The handle's lock guards well-formed routing state.
    pub closed spec fn wf(self) -> bool {
        self.state.pred() == routing_inv::<H>()
    }

    /// True when `c` reads and writes the very state this server configures.
    pub closed spec fn shares_state_with(self, c: MockHttpClient<H>) -> bool {
        c.state == self.state
    }

    /// A fresh server over empty routing state: no path handlers, no default.
    pub fn new() -> (s: MockHttpServer<H>)
        ensures
            s.wf(),
    {
        let routes = RoutingState::<H>::new();
        MockHttpServer { state: Arc::new(RwLock::new(routes, Ghost(routing_inv::<H>()))) }
    }

    /// Derives a request handle over the identical underlying state, not a
    /// copy: registrations made after the call stay visible through it.
    pub fn client(&self) -> (c: MockHttpClient<H>)
        requires
            self.wf(),
        ensures
            c.wf(),
            self.shares_state_with(c),
    {
        MockHttpClient { state: arc_clone(&self.state) }
    }

    /// Stores or replaces the default handler in the shared state, under the
    /// exclusive lock; visible to every handle sharing this server's state.
    pub fn handle_default(&self, default_handler: H)
        requires
            self.wf(),
    {
        let (mut routes, lock_handle) = self.state.acquire_write();
        routes.set_default(default_handler);
        lock_handle.release_write(routes);
    }

    /// Stores or replaces the handler for the exact path string `path` in
    /// the shared state, under the exclusive lock; the last registration for
    /// a path wins, and every handle sharing this server's state sees it.
    pub fn handle_path(&self, path: String, handler: H)
        requires
            self.wf(),
    {
        let (mut routes, lock_handle) = self.state.acquire_write();
        routes.set_path_handler(path, handler);
        lock_handle.release_write(routes);
    }
}

impl<H: HandlerFn> MockHttpClient<H> {
    /// The handle's lock guards well-formed routing state.
    pub closed spec fn wf(self) -> bool {
        self.state.pred() == routing_inv::<H>()
    }

    /// Resolves `req` against the shared routing state, holding the
    /// exclusive lock from lookup through handler invocation. The result is
    /// the resolution of `req` against the routing state as some well-formed
    /// registry and default — the ones the lock held when it was acquired;
    /// under concurrent use another handle may write between two sends.
    pub fn send(&self, req: Request) -> (r: Result<Response, Error>)
        requires
            self.wf(),
        ensures
            exists|pre: RoutingState<H>|
                pre.wf() && crate::message::result_view(r) == resolve_output(
                    pre.routes(),
                    pre.fallback(),
                    req@,
                ),
    {
        let (mut routes, lock_handle) = self.state.acquire_write();
        let ghost pre = routes;
        let r = routes.resolve(&req);
        lock_handle.release_write(routes);
        proof {
            assert(pre.wf() && crate::message::result_view(r) == resolve_output(
                pre.routes(),
                pre.fallback(),
                req@,
            ));
        }
        r
    }
}

} // verus!
