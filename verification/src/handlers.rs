//! Ready-made handlers: a fixed-status responder, a stateful counter, and a
//! handler that fails with a chosen error.
//!
//! Each implements [`HandlerFn`], so each states exactly what one invocation
//! returns and how it moves the handler's captured state.

use vstd::prelude::*;

use crate::message::{status_only_view, Error, Request, Response, ResponseView};
use crate::routing::{iter_post, iter_resolve_post_map, resolve_output, HandlerFn};

verus! {

/// Responds to every request with a fixed status and an empty body.
#[derive(Debug)]
pub struct StatusHandler {
    pub status: u16,
}

impl HandlerFn for StatusHandler {
    open spec fn post(self, path: Seq<char>) -> StatusHandler {
        self
    }

    open spec fn output(self, path: Seq<char>) -> Result<ResponseView, Seq<char>> {
        Ok(status_only_view(self.status))
    }

    fn call(&mut self, req: &Request) -> (r: Result<Response, Error>) {
        Ok(Response::new(self.status))
    }
}

/// The decimal digits of `n`, most significant first.
pub open spec fn spec_decimal(n: nat) -> Seq<u8>
    decreases n,
{
    if n < 10 {
        seq![(48 + n) as u8]
    } else {
        spec_decimal(n / 10).push((48 + n % 10) as u8)
    }
}

/// Appends the decimal digits of `n` to `out`.
fn push_decimal(n: u64, out: &mut Vec<u8>)
    ensures
        final(out)@ == old(out)@ + spec_decimal(n as nat),
    decreases n,
{
    if n < 10 {
        out.push(48 + n as u8);
        assert(final(out)@ =~= old(out)@ + spec_decimal(n as nat));
    } else {
        push_decimal(n / 10, out);
        out.push(48 + (n % 10) as u8);
        assert(final(out)@ =~= old(out)@ + spec_decimal(n as nat));
    }
}

/// The decimal digits of `n`, most significant first, as bytes.
pub fn u64_to_decimal(n: u64) -> (r: Vec<u8>)
    ensures
        r@ == spec_decimal(n as nat),
{
    let mut out: Vec<u8> = Vec::new();
    push_decimal(n, &mut out);
    assert(out@ =~= spec_decimal(n as nat));
    out
}

/// The counter value after one more invocation; the count wraps around at
/// the largest representable value rather than overflow.
pub open spec fn wrap_inc(c: u64) -> u64 {
    if c == u64::MAX {
        0
    } else {
        (c + 1) as u64
    }
}

/// Counts its invocations: each call increments the captured counter and
/// responds with status 200 and the new count, in decimal, as the body.
#[derive(Debug)]
pub struct CountingHandler {
    pub count: u64,
}

impl HandlerFn for CountingHandler {
    open spec fn post(self, path: Seq<char>) -> CountingHandler {
        CountingHandler { count: wrap_inc(self.count) }
    }

    open spec fn output(self, path: Seq<char>) -> Result<ResponseView, Seq<char>> {
        Ok(ResponseView { status: 200, body: spec_decimal(wrap_inc(self.count) as nat) })
    }

    fn call(&mut self, req: &Request) -> (r: Result<Response, Error>) {
        self.count = if self.count == u64::MAX {
            0
        } else {
            self.count + 1
        };
        let body = u64_to_decimal(self.count);
        Ok(Response::with_body(200, body))
    }
}

/// Fails every request with a fixed error message, passed on verbatim.
#[derive(Debug)]
pub struct ErrorHandler {
    pub message: String,
}

impl HandlerFn for ErrorHandler {
    open spec fn post(self, path: Seq<char>) -> ErrorHandler {
        self
    }

    open spec fn output(self, path: Seq<char>) -> Result<ResponseView, Seq<char>> {
        Err(self.message@)
    }

    fn call(&mut self, req: &Request) -> (r: Result<Response, Error>) {
        Err(Error { message: self.message.clone() })
    }
}

/// A counter that started at `count` and was invoked `n` more times without
/// wrapping stands at `count + n`.
pub proof fn lemma_counter_counts(h: CountingHandler, path: Seq<char>, n: nat)
    requires
        h.count + n <= u64::MAX,
    ensures
        iter_post(h, path, n) == (CountingHandler { count: (h.count + n) as u64 }),
    decreases n,
{
    if n > 0 {
        lemma_counter_counts(h, path, (n - 1) as nat);
    }
}

/// A counting handler registered for `path` observes every sequential
/// resolution of that path: the result of the resolution after `k` earlier
/// ones carries status 200 and the decimal count `k + 1` above the starting
/// count — no invocation is lost or duplicated.
pub proof fn lemma_counter_observes_every_call(
    m: Map<Seq<char>, CountingHandler>,
    d: Option<CountingHandler>,
    path: Seq<char>,
    k: nat,
)
    requires
        m.contains_key(path),
        m[path].count + k < u64::MAX,
    ensures
        resolve_output(iter_resolve_post_map(m, path, k), d, path) == Ok::<
            ResponseView,
            Seq<char>,
        >(ResponseView { status: 200, body: spec_decimal((m[path].count + k + 1) as nat) }),
{
    crate::routing::lemma_sequential_invocations(m, path, k);
    lemma_counter_counts(m[path], path, k);
}

} // verus!
