//! The routing core: the registry of per-path handlers plus an optional
//! default handler, and the resolution policy over it.
//!
//! Resolution tries an exact match on the request path first, then the
//! default handler, and finally synthesizes the fixed not-found response.
//! A matched handler is invoked exactly once and its result — success or
//! error — is returned verbatim.

use vstd::prelude::*;

use crate::message::{not_found_view, result_view, Error, Request, Response, ResponseView};

verus! {

/// The contract a registered handler satisfies.
///
/// A handler is a stateful callable: given a request it produces a response
/// or an error, and may mutate its own captured state. Both effects are
/// functions of the handler state and the request path alone: `post` names
/// the state after an invocation and `output` the produced result, and
/// `call` is held to both.
pub trait HandlerFn: Sized {
    /// The handler state after one invocation on a request to `path`.
    spec fn post(self, path: Seq<char>) -> Self;

    /// The result one invocation on a request to `path` produces.
    spec fn output(self, path: Seq<char>) -> Result<ResponseView, Seq<char>>;

    /// Invokes the handler once on `req`.
    fn call(&mut self, req: &Request) -> (r: Result<Response, Error>)
        ensures
            *final(self) == old(self).post(req@),
            result_view(r) == old(self).output(req@),
    ;
}

/// True when no two entries of `s` carry the same path.
pub open spec fn unique_keys<H>(s: Seq<(String, H)>) -> bool {
    forall|i: int, j: int| 0 <= i < j < s.len() ==> s[i].0@ != s[j].0@
}

/// The mapping from path to handler that a sequence of entries represents;
/// a later entry for the same path wins.
pub open spec fn seq_to_map<H>(s: Seq<(String, H)>) -> Map<Seq<char>, H>
    decreases s.len(),
{
    if s.len() == 0 {
        Map::empty()
    } else {
        seq_to_map(s.drop_last()).insert(s.last().0@, s.last().1)
    }
}

/// The registry of handlers: at most one handler per exact path string,
/// plus an optional default used when no path matches.
pub struct RoutingState<H> {
    default_handler: Option<H>,
    path_handlers: Vec<(String, H)>,
}

impl<H> RoutingState<H> {
    /// At most one entry per path, so the entry list represents a map.
    pub closed spec fn wf(self) -> bool {
        unique_keys(self.path_handlers@)
    }

    /// The registered path-to-handler mapping.
    pub closed spec fn routes(self) -> Map<Seq<char>, H> {
        seq_to_map(self.path_handlers@)
    }

    /// The registered default handler, if any.
    pub closed spec fn fallback(self) -> Option<H> {
        self.default_handler
    }
}

/// The result resolution produces on a request to `path` against the
/// registry `m` with default `d`: the result of the path's own handler if
/// one is registered, else the result of the default handler if one is set,
/// else the fixed not-found response — never an error of the core's own.
pub open spec fn resolve_output<H: HandlerFn>(
    m: Map<Seq<char>, H>,
    d: Option<H>,
    path: Seq<char>,
) -> Result<ResponseView, Seq<char>> {
    if m.contains_key(path) {
        m[path].output(path)
    } else {
        match d {
            Some(h) => h.output(path),
            None => Ok(not_found_view()),
        }
    }
}

/// The registry after resolution: only the invoked path handler (if any)
/// has advanced to its post state.
pub open spec fn resolve_post_map<H: HandlerFn>(
    m: Map<Seq<char>, H>,
    path: Seq<char>,
) -> Map<Seq<char>, H> {
    if m.contains_key(path) {
        m.insert(path, m[path].post(path))
    } else {
        m
    }
}

/// The default handler after resolution: advanced to its post state exactly
/// when it was the one invoked.
pub open spec fn resolve_post_default<H: HandlerFn>(
    m: Map<Seq<char>, H>,
    d: Option<H>,
    path: Seq<char>,
) -> Option<H> {
    if m.contains_key(path) {
        d
    } else {
        match d {
            Some(h) => Some(h.post(path)),
            None => None,
        }
    }
}

proof fn lemma_seq_to_map_contains<H>(s: Seq<(String, H)>, k: Seq<char>)
    ensures
        seq_to_map(s).contains_key(k) <==> (exists|i: int| 0 <= i < s.len() && s[i].0@ == k),
    decreases s.len(),
{
    if s.len() > 0 {
        lemma_seq_to_map_contains(s.drop_last(), k);
        if s.last().0@ == k {
            assert(s[s.len() - 1].0@ == k);
        } else if seq_to_map(s).contains_key(k) {
            let i = choose|i: int| 0 <= i < s.drop_last().len() && s.drop_last()[i].0@ == k;
            assert(s[i].0@ == k);
        } else if exists|i: int| 0 <= i < s.len() && s[i].0@ == k {
            let i = choose|i: int| 0 <= i < s.len() && s[i].0@ == k;
            assert(s.drop_last()[i].0@ == k);
        }
    }
}

proof fn lemma_seq_to_map_value<H>(s: Seq<(String, H)>, i: int)
    requires
        unique_keys(s),
        0 <= i < s.len(),
    ensures
        seq_to_map(s).contains_key(s[i].0@),
        seq_to_map(s)[s[i].0@] == s[i].1,
    decreases s.len(),
{
    if i < s.len() - 1 {
        assert(unique_keys(s.drop_last())) by {
            assert(forall|x: int, y: int|
                0 <= x < y < s.drop_last().len() ==> s.drop_last()[x].0@ != s.drop_last()[y].0@);
        }
        lemma_seq_to_map_value(s.drop_last(), i);
        assert(s.drop_last()[i] == s[i]);
        assert(s[i].0@ != s.last().0@);
    }
}

proof fn lemma_seq_to_map_update<H>(s: Seq<(String, H)>, i: int, p: (String, H))
    requires
        unique_keys(s),
        0 <= i < s.len(),
        p.0@ == s[i].0@,
    ensures
        unique_keys(s.update(i, p)),
        seq_to_map(s.update(i, p)) == seq_to_map(s).insert(p.0@, p.1),
    decreases s.len(),
{
    let t = s.update(i, p);
    assert(unique_keys(t)) by {
        assert(forall|x: int, y: int| 0 <= x < y < t.len() ==> t[x].0@ != t[y].0@) by {
            assert(forall|x: int| 0 <= x < t.len() ==> t[x].0@ == s[x].0@);
        }
    }
    if i == s.len() - 1 {
        assert(t.drop_last() =~= s.drop_last());
        assert(seq_to_map(t) == seq_to_map(s.drop_last()).insert(p.0@, p.1));
        assert(seq_to_map(s).insert(p.0@, p.1) =~= seq_to_map(s.drop_last()).insert(
            p.0@,
            p.1,
        )) by {
            assert(s.last().0@ == p.0@);
        }
    } else {
        assert(unique_keys(s.drop_last())) by {
            assert(forall|x: int, y: int|
                0 <= x < y < s.drop_last().len() ==> s.drop_last()[x].0@ != s.drop_last()[y].0@);
        }
        assert(t.drop_last() =~= s.drop_last().update(i, p));
        lemma_seq_to_map_update(s.drop_last(), i, p);
        assert(t.last() == s.last());
        assert(seq_to_map(t) == seq_to_map(s.drop_last()).insert(p.0@, p.1).insert(
            s.last().0@,
            s.last().1,
        ));
        assert(p.0@ != s.last().0@) by {
            assert(s[i].0@ != s[s.len() - 1].0@);
        }
        assert(seq_to_map(s.drop_last()).insert(p.0@, p.1).insert(s.last().0@, s.last().1)
            =~= seq_to_map(s.drop_last()).insert(s.last().0@, s.last().1).insert(p.0@, p.1));
    }
}

proof fn lemma_seq_to_map_push<H>(s: Seq<(String, H)>, p: (String, H))
    requires
        unique_keys(s),
        forall|j: int| 0 <= j < s.len() ==> s[j].0@ != p.0@,
    ensures
        unique_keys(s.push(p)),
        seq_to_map(s.push(p)) == seq_to_map(s).insert(p.0@, p.1),
{
    let t = s.push(p);
    assert(unique_keys(t)) by {
        assert(forall|x: int, y: int| 0 <= x < y < t.len() ==> t[x].0@ != t[y].0@) by {
            assert(forall|x: int| 0 <= x < s.len() ==> t[x] == s[x]);
            assert(t[t.len() - 1] == p);
        }
    }
    assert(t.drop_last() =~= s);
    assert(t.last() == p);
}

impl<H: HandlerFn> RoutingState<H> {
    /// An empty registry: no path handlers and no default.
    pub fn new() -> (s: RoutingState<H>)
        ensures
            s.wf(),
            s.routes() == Map::<Seq<char>, H>::empty(),
            s.fallback() is None,
    {
        RoutingState { default_handler: None, path_handlers: Vec::new() }
    }

    /// Stores or replaces the default handler; path registrations are
    /// untouched.
    pub fn set_default(&mut self, handler: H)
        requires
            old(self).wf(),
        ensures
            final(self).wf(),
            final(self).routes() == old(self).routes(),
            final(self).fallback() == Some(handler),
    {
        self.default_handler = Some(handler);
    }

    /// True when a default handler is set. Handlers are opaque behavior, so
    /// introspection tells no more of the default than its presence.
    pub fn has_default(&self) -> (r: bool)
        ensures
            r == (self.fallback() is Some),
    {
        self.default_handler.is_some()
    }

    /// The paths with a handler of their own: exactly the keys of the
    /// registry, each once, in storage order.
    pub fn registered_paths(&self) -> (r: Vec<String>)
        requires
            self.wf(),
        ensures
            forall|i: int| 0 <= i < r@.len() ==> self.routes().contains_key(r@[i]@),
            forall|k: Seq<char>|
                self.routes().contains_key(k) ==> exists|i: int|
                    0 <= i < r@.len() && r@[i]@ == k,
            forall|i: int, j: int| 0 <= i < j < r@.len() ==> r@[i]@ != r@[j]@,
    {
        let n = self.path_handlers.len();
        let mut out: Vec<String> = Vec::new();
        let mut k: usize = 0;
        while k < n
            invariant
                n == self.path_handlers@.len(),
                k <= n,
                out@.len() == k,
                forall|i: int| 0 <= i < k ==> out@[i]@ == self.path_handlers@[i].0@,
            decreases n - k,
        {
            out.push(self.path_handlers[k].0.clone());
            k = k + 1;
        }
        proof {
            assert forall|i: int| 0 <= i < out@.len() implies self.routes().contains_key(
                out@[i]@,
            ) by {
                lemma_seq_to_map_contains(self.path_handlers@, out@[i]@);
            }
            assert forall|q: Seq<char>| self.routes().contains_key(q) implies exists|i: int|
                0 <= i < out@.len() && out@[i]@ == q by {
                lemma_seq_to_map_contains(self.path_handlers@, q);
                let j = choose|j: int|
                    0 <= j < self.path_handlers@.len() && self.path_handlers@[j].0@ == q;
                assert(out@[j]@ == q);
            }
        }
        out
    }

    /// Index of the entry registered for `path`, if there is one.
    fn find_index(&self, path: &String) -> (r: Option<usize>)
        ensures
            match r {
                Some(i) => i < self.path_handlers@.len() && self.path_handlers@[i as int].0@
                    == path@,
                None => forall|j: int|
                    0 <= j < self.path_handlers@.len() ==> self.path_handlers@[j].0@ != path@,
            },
    {
        let n = self.path_handlers.len();
        let mut k: usize = 0;
        while k < n
            invariant
                n == self.path_handlers@.len(),
                k <= n,
                forall|j: int| 0 <= j < k ==> self.path_handlers@[j].0@ != path@,
            decreases n - k,
        {
            if self.path_handlers[k].0 == *path {
                return Some(k);
            }
            k = k + 1;
        }
        None
    }

    /// Stores or replaces the handler for the exact path string `path`; the
    /// last registration for a path wins, and the default is untouched.
    pub fn set_path_handler(&mut self, path: String, handler: H)
        requires
            old(self).wf(),
        ensures
            final(self).wf(),
            final(self).routes() == old(self).routes().insert(path@, handler),
            final(self).fallback() == old(self).fallback(),
    {
        let found = self.find_index(&path);
        match found {
            Some(i) => {
                let ghost s = self.path_handlers@;
                let entry = &mut self.path_handlers[i];
                *entry = (path, handler);
                proof {
                    lemma_seq_to_map_update(s, i as int, self.path_handlers@[i as int]);
                }
            },
            None => {
                let ghost s = self.path_handlers@;
                self.path_handlers.push((path, handler));
                proof {
                    lemma_seq_to_map_push(s, self.path_handlers@.last());
                }
            },
        }
    }

    /// Resolves `req`: invokes the handler registered for the request path
    /// if there is one, else the default handler if one is set, else returns
    /// the fixed not-found response. The invoked handler's result is passed
    /// on verbatim, and only that handler's state advances.
    pub fn resolve(&mut self, req: &Request) -> (r: Result<Response, Error>)
        requires
            old(self).wf(),
        ensures
            final(self).wf(),
            result_view(r) == resolve_output(
                old(self).routes(),
                old(self).fallback(),
                req@,
            ),
            final(self).routes() == resolve_post_map(old(self).routes(), req@),
            final(self).fallback() == resolve_post_default(
                old(self).routes(),
                old(self).fallback(),
                req@,
            ),
    {
        let found = self.find_index(req.path());
        match found {
            Some(i) => {
                let ghost s = self.path_handlers@;
                proof {
                    lemma_seq_to_map_value(s, i as int);
                }
                let entry = &mut self.path_handlers[i];
                let r = entry.1.call(req);
                proof {
                    lemma_seq_to_map_update(s, i as int, self.path_handlers@[i as int]);
                }
                r
            },
            None => {
                proof {
                    lemma_seq_to_map_contains(self.path_handlers@, req@);
                }
                match &mut self.default_handler {
                    Some(d) => d.call(req),
                    None => Ok(Response::not_found()),
                }
            },
        }
    }
}

/// A path-specific handler takes strict precedence over the default: on a
/// registered path, resolution returns exactly that handler's result,
/// whatever default handler is set — or none at all.
pub proof fn lemma_path_handler_precedence<H: HandlerFn>(
    m: Map<Seq<char>, H>,
    d1: Option<H>,
    d2: Option<H>,
    path: Seq<char>,
)
    requires
        m.contains_key(path),
    ensures
        resolve_output(m, d1, path) == m[path].output(path),
        resolve_output(m, d1, path) == resolve_output(m, d2, path),
{
}

/// On a path with no handler of its own, resolution returns exactly the
/// default handler's result when a default is set.
pub proof fn lemma_default_handler_used<H: HandlerFn>(
    m: Map<Seq<char>, H>,
    h: H,
    path: Seq<char>,
)
    requires
        !m.contains_key(path),
    ensures
        resolve_output(m, Some(h), path) == h.output(path),
{
}

/// On a path matching neither a handler of its own nor a default, resolution
/// succeeds with the not-found response; it never produces an error.
pub proof fn lemma_unmatched_is_not_found<H: HandlerFn>(m: Map<Seq<char>, H>, path: Seq<char>)
    requires
        !m.contains_key(path),
    ensures
        resolve_output(m, None::<H>, path) == Ok::<ResponseView, Seq<char>>(not_found_view()),
        resolve_output(m, None::<H>, path) is Ok,
{
}

/// Registering a second handler for the same path replaces the first:
/// resolution after both registrations uses only the newest handler.
pub proof fn lemma_last_registration_wins<H: HandlerFn>(
    m: Map<Seq<char>, H>,
    d: Option<H>,
    path: Seq<char>,
    h1: H,
    h2: H,
)
    ensures
        resolve_output(m.insert(path, h1).insert(path, h2), d, path) == h2.output(path),
        resolve_post_map(m.insert(path, h1).insert(path, h2), path) == m.insert(
            path,
            h1,
        ).insert(path, h2).insert(path, h2.post(path)),
{
}

/// The handler state after `n` invocations on requests to `path`.
pub open spec fn iter_post<H: HandlerFn>(h: H, path: Seq<char>, n: nat) -> H
    decreases n,
{
    if n == 0 {
        h
    } else {
        iter_post(h, path, (n - 1) as nat).post(path)
    }
}

/// The registry after `n` sequential resolutions of requests to `path`.
pub open spec fn iter_resolve_post_map<H: HandlerFn>(
    m: Map<Seq<char>, H>,
    path: Seq<char>,
    n: nat,
) -> Map<Seq<char>, H>
    decreases n,
{
    if n == 0 {
        m
    } else {
        resolve_post_map(iter_resolve_post_map(m, path, (n - 1) as nat), path)
    }
}

/// A handler registered for `path` observes every one of `n` sequential
/// resolutions of that path, with no lost or duplicated invocation: its
/// state advances through `post` exactly `n` times, and every other
/// registration is untouched.
pub proof fn lemma_sequential_invocations<H: HandlerFn>(
    m: Map<Seq<char>, H>,
    path: Seq<char>,
    n: nat,
)
    requires
        m.contains_key(path),
    ensures
        iter_resolve_post_map(m, path, n).contains_key(path),
        iter_resolve_post_map(m, path, n)[path] == iter_post(m[path], path, n),
        forall|q: Seq<char>|
            q != path ==> (iter_resolve_post_map(m, path, n).contains_key(q)
                <==> m.contains_key(q)),
        forall|q: Seq<char>|
            q != path && m.contains_key(q) ==> iter_resolve_post_map(m, path, n)[q] == m[q],
    decreases n,
{
    if n > 0 {
        lemma_sequential_invocations(m, path, (n - 1) as nat);
    }
}

} // verus!
