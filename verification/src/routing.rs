//! Route definitions and the process-wide route registry.
//!
//! The application installs an ordered, immutable [`RoutingDefinitionTable`]
//! at startup. The [`DynamicRouteService`] owns the only state shared across
//! connections: a cache mapping each already-resolved route path to the
//! address of the handler constructed for it, and the handlers themselves,
//! each wrapped in a supervising construct with its own strictly-ordered
//! inbound queue. Resolution requests are processed one at a time (the
//! service is reached only through `&mut self`), so two connections racing on
//! the same unresolved path can never both construct a handler: the whole
//! step taken by one request is [`resolve_rel`], and the second request finds
//! the first one's cache entry.
use crate::messages::{BoxAddr, BoxMsg};
use vstd::prelude::*;

verus! {

/// Marker for the application-owned shared state behind a route. Its
/// semantics belong entirely to the application installing the route; the
/// core only wraps it in a supervising construct and addresses it.
pub trait SharedLiveState {

}

/// An ordered rule of the route definition table: given a route path it
/// either declines or produces a freshly constructed live-state object.
pub trait RoutingEntry: Sized {
    /// The application state this matcher constructs on accept.
    type State: SharedLiveState;

    /// Which route paths this matcher accepts. The default leaves it
    /// unspecified; a verified matcher overrides it with its own rule.
    open spec fn accepts(&self, path: Seq<char>) -> bool {
        vstd::pervasive::arbitrary()
    }

    /// The state this matcher constructs for an accepted path. The default
    /// leaves it unspecified; a verified matcher overrides it.
    open spec fn make(&self, path: Seq<char>) -> Self::State {
        vstd::pervasive::arbitrary()
    }

    /// Return `None` if the route string is not handled, otherwise a fresh
    /// live-state object. Evaluation is side-effect-free: construction
    /// happens only on accept.
    fn handle(&self, path: &str) -> (r: Option<Self::State>)
        ensures
            r == (if self.accepts(path@) {
                Some(self.make(path@))
            } else {
                None::<Self::State>
            }),
    ;
}

/// An ordered, cloneable collection of route matchers, built once by the
/// application at startup and read-only thereafter. Matchers need not be
/// mutually exclusive: resolution walks the table in order and the first
/// accepting matcher wins.
#[derive(Clone)]
pub struct RoutingDefinitionTable<E> {
    pub routes: Vec<E>,
}

impl<E: RoutingEntry> RoutingDefinitionTable<E> {
    /// An empty table: no route resolves.
    pub fn new() -> (r: Self)
        ensures
            r.routes@.len() == 0,
    {
        RoutingDefinitionTable { routes: Vec::new() }
    }

    /// Adds a route handler to the routing table.
    pub fn with_entry(self, routing_entry: E) -> (r: Self)
        ensures
            r.routes@ == self.routes@.push(routing_entry),
    {
        let mut table = self;
        table.routes.push(routing_entry);
        table
    }
}

impl<E: RoutingEntry> Default for RoutingDefinitionTable<E> {
    /// An empty table, as [`RoutingDefinitionTable::new`] builds it.
    fn default() -> (r: Self)
        ensures
            r.routes@.len() == 0,
    {
        RoutingDefinitionTable { routes: Vec::new() }
    }
}

/// The index of the first matcher at or after `k` that accepts `path`.
pub open spec fn first_accepting_from<E: RoutingEntry>(
    routes: Seq<E>,
    path: Seq<char>,
    k: int,
) -> Option<int>
    decreases routes.len() - k,
{
    if k < 0 || k >= routes.len() {
        None
    } else if routes[k].accepts(path) {
        Some(k)
    } else {
        first_accepting_from(routes, path, k + 1)
    }
}

/// The index of the first matcher of the table that accepts `path`: ordering
/// is the tie-break between overlapping matchers.
pub open spec fn first_accepting<E: RoutingEntry>(routes: Seq<E>, path: Seq<char>) -> Option<
    int,
> {
    first_accepting_from(routes, path, 0)
}

/// The address cached for `path` by the first cache entry at or after `k`.
pub open spec fn cached_from(
    cache: Seq<(Seq<char>, BoxAddr)>,
    path: Seq<char>,
    k: int,
) -> Option<BoxAddr>
    decreases cache.len() - k,
{
    if k < 0 || k >= cache.len() {
        None
    } else if cache[k].0 == path {
        Some(cache[k].1)
    } else {
        cached_from(cache, path, k + 1)
    }
}

/// A handler wrapped for supervision: the application's live state plus the
/// strictly-ordered inbound queue that its address feeds.
struct SharedLiveStateActor<S> {
    live_state: S,
    mailbox: Vec<BoxMsg>,
}

/// The process-wide route registry service: the single serialized owner of
/// the route-path cache and of the supervised handlers. One instance serves
/// the whole process; connections never reach into it directly.
pub struct DynamicRouteService<E: RoutingEntry> {
    alive_routes: Vec<(String, BoxAddr)>,
    actors: Vec<SharedLiveStateActor<E::State>>,
}

/// One full resolution step of the registry: what `pre` resolving `path`
/// against `table` leaves behind (`post`) and returns (`r`). A cache hit
/// returns the cached address and changes nothing; a miss constructs the
/// state of the first accepting matcher, appends it with an empty inbound
/// queue, caches its fresh address, and returns that address; with no
/// accepting matcher nothing changes and nothing is returned.
pub open spec fn resolve_rel<E: RoutingEntry>(
    pre: DynamicRouteService<E>,
    path: Seq<char>,
    table: RoutingDefinitionTable<E>,
    post: DynamicRouteService<E>,
    r: Option<BoxAddr>,
) -> bool {
    match pre.cached_addr(path) {
        Some(a) => post == pre && r == Some(a),
        None => match first_accepting(table.routes@, path) {
            Some(k) => {
                let a = BoxAddr(pre.states().len() as usize);
                &&& r == Some(a)
                &&& post.cache() == pre.cache().push((path, a))
                &&& post.states() == pre.states().push(table.routes@[k].make(path))
                &&& post.inboxes() == pre.inboxes().push(Seq::<Seq<char>>::empty())
            },
            None => post == pre && r == None::<BoxAddr>,
        },
    }
}

impl<E: RoutingEntry> DynamicRouteService<E> {
    /// The cache of already-resolved routes: pairs of route path and handler
    /// address, oldest first.
    pub closed spec fn cache(self) -> Seq<(Seq<char>, BoxAddr)> {
        self.alive_routes@.map_values(|p: (String, BoxAddr)| (p.0@, p.1))
    }

    /// The live states of the handlers constructed so far, in construction
    /// order; an address names its handler by position in this sequence.
    pub closed spec fn states(self) -> Seq<E::State> {
        self.actors@.map_values(|a: SharedLiveStateActor<E::State>| a.live_state)
    }

    /// The inbound queue of each handler, in arrival order.
    pub closed spec fn inboxes(self) -> Seq<Seq<Seq<char>>> {
        self.actors@.map_values(
            |a: SharedLiveStateActor<E::State>| a.mailbox@.map_values(|m: BoxMsg| m@),
        )
    }

    /// The address cached for `path`, if resolution already constructed a
    /// handler for it.
    pub open spec fn cached_addr(self, path: Seq<char>) -> Option<BoxAddr> {
        cached_from(self.cache(), path, 0)
    }

    /// Well-formedness: at most one cache entry per route path, and every
    /// cached address names an existing handler.
    pub open spec fn wf(self) -> bool {
        &&& forall|k: int|
            0 <= k < self.cache().len() ==> (#[trigger] self.cache()[k]).1.0
                < self.states().len()
        &&& forall|k1: int, k2: int|
            0 <= k1 < k2 < self.cache().len() ==> (#[trigger] self.cache()[k1]).0 != (
            #[trigger] self.cache()[k2]).0
    }

    /// A fresh registry: nothing resolved, no handlers.
    pub fn new() -> (r: Self)
        ensures
            r.cache().len() == 0,
            r.states().len() == 0,
            r.inboxes().len() == 0,
            r.wf(),
    {
        DynamicRouteService { alive_routes: Vec::new(), actors: Vec::new() }
    }

    /// How many routes have been resolved so far.
    pub fn route_count(&self) -> (n: usize)
        ensures
            n == self.cache().len(),
    {
        self.alive_routes.len()
    }

    /// How many handlers have been constructed so far.
    pub fn actor_count(&self) -> (n: usize)
        ensures
            n == self.states().len(),
    {
        self.actors.len()
    }

    /// The live state of the handler an address names.
    pub fn live_state(&self, addr: &BoxAddr) -> (r: Option<&E::State>)
        ensures
            match r {
                Some(s) => addr.0 < self.states().len() && *s == self.states()[addr.0 as int],
                None => addr.0 >= self.states().len(),
            },
    {
        if addr.0 < self.actors.len() {
            let s = &self.actors[addr.0].live_state;
            proof {
                assert(self.states()[addr.0 as int] == self.actors@[addr.0 as int].live_state);
            }
            Some(s)
        } else {
            None
        }
    }

    /// Finds the actor that is responsible for handling this route: the
    /// cached address on a hit, a freshly constructed and cached handler when
    /// the table accepts the path, nothing otherwise. This is the one
    /// serialized step every resolution request takes.
    pub fn handle(&mut self, path: &str, table: &RoutingDefinitionTable<E>) -> (r: Option<
        BoxAddr,
    >)
        requires
            old(self).wf(),
        ensures
            final(self).wf(),
            resolve_rel(*old(self), path@, *table, *final(self), r),
    {
        // First check if the route is already alive.
        let path_string: String = path.to_owned();
        let n = self.alive_routes.len();
        let mut k: usize = 0;
        while k < n
            invariant
                *self == *old(self),
                old(self).wf(),
                n == self.alive_routes@.len(),
                path_string@ == path@,
                k <= n,
                cached_from(self.cache(), path@, 0) == cached_from(self.cache(), path@, k as int),
            decreases n - k,
        {
            proof {
                assert(self.cache()[k as int] == (self.alive_routes@[k as int].0@,
                self.alive_routes@[k as int].1));
            }
            if self.alive_routes[k].0 == path_string {
                let a = self.alive_routes[k].1;
                proof {
                    assert(cached_from(self.cache(), path@, k as int) == Some(a));
                }
                return Some(a);
            }
            proof {
                assert(cached_from(self.cache(), path@, k as int) == cached_from(
                    self.cache(),
                    path@,
                    k as int + 1,
                ));
            }
            k = k + 1;
        }
        proof {
            assert(cached_from(self.cache(), path@, n as int) is None);
            assert(old(self).cached_addr(path@) is None);
        }
        // Walk the table in order; the first accepting matcher constructs.
        let m = table.routes.len();
        let mut t: usize = 0;
        while t < m
            invariant
                *self == *old(self),
                old(self).wf(),
                old(self).cached_addr(path@) is None,
                m == table.routes@.len(),
                path_string@ == path@,
                t <= m,
                first_accepting(table.routes@, path@) == first_accepting_from(
                    table.routes@,
                    path@,
                    t as int,
                ),
            decreases m - t,
        {
            match table.routes[t].handle(path) {
                Some(x) => {
                    proof {
                        assert(first_accepting_from(table.routes@, path@, t as int) == Some(
                            t as int,
                        ));
                    }
                    let id = self.actors.len();
                    let addr = BoxAddr(id);
                    self.actors.push(SharedLiveStateActor { live_state: x, mailbox: Vec::new() });
                    self.alive_routes.push((path_string, addr));
                    proof {
                        let pre = *old(self);
                        assert(id == pre.states().len());
                        assert(self.cache() =~= pre.cache().push((path@, addr)));
                        assert(self.states() =~= pre.states().push(
                            table.routes@[t as int].make(path@),
                        ));
                        assert(self.inboxes() =~~= pre.inboxes().push(Seq::<Seq<char>>::empty()));
                        lemma_cached_from_none_all(pre.cache(), path@, 0);
                        assert forall|j1: int, j2: int|
                            0 <= j1 < j2 < self.cache().len() implies (
                        #[trigger] self.cache()[j1]).0 != (#[trigger] self.cache()[j2]).0 by {
                            if j2 < pre.cache().len() {
                                assert(pre.cache()[j1].0 != pre.cache()[j2].0);
                            } else {
                                assert(self.cache()[j2].0 == path@);
                                assert(self.cache()[j1] == pre.cache()[j1]);
                            }
                        }
                    }
                    return Some(addr);
                },
                None => {
                    proof {
                        assert(first_accepting_from(table.routes@, path@, t as int)
                            == first_accepting_from(table.routes@, path@, t as int + 1));
                    }
                },
            }
            t = t + 1;
        }
        proof {
            assert(first_accepting(table.routes@, path@) is None);
        }
        None
    }

    /// Enqueue one envelope for the handler `addr` names. Delivery is
    /// order-preserving: the envelope goes to the back of that handler's
    /// queue and no other queue changes. An address naming no handler is
    /// refused and nothing changes.
    pub fn deliver(&mut self, addr: &BoxAddr, msg: BoxMsg) -> (ok: bool)
        ensures
            ok == (addr.0 < old(self).inboxes().len()),
            ok ==> final(self).cache() == old(self).cache() && final(self).states() == old(
                self,
            ).states() && final(self).inboxes() == old(self).inboxes().update(
                addr.0 as int,
                old(self).inboxes()[addr.0 as int].push(msg@),
            ),
            !ok ==> *final(self) == *old(self),
            old(self).wf() ==> final(self).wf(),
    {
        if addr.0 < self.actors.len() {
            let ghost pre = *self;
            self.actors[addr.0].mailbox.push(msg);
            proof {
                assert(self.cache() =~= pre.cache());
                assert(self.states() =~= pre.states());
                assert(self.inboxes() =~~= pre.inboxes().update(
                    addr.0 as int,
                    pre.inboxes()[addr.0 as int].push(msg@),
                ));
            }
            true
        } else {
            false
        }
    }

    /// Hand the handler `addr` names its oldest pending envelope, in the
    /// order the envelopes were enqueued. Nothing is pending, or the address
    /// names no handler: nothing changes.
    pub fn take_next(&mut self, addr: &BoxAddr) -> (r: Option<BoxMsg>)
        ensures
            match r {
                Some(msg) => {
                    &&& addr.0 < old(self).inboxes().len()
                    &&& old(self).inboxes()[addr.0 as int].len() > 0
                    &&& msg@ == old(self).inboxes()[addr.0 as int][0]
                    &&& final(self).cache() == old(self).cache()
                    &&& final(self).states() == old(self).states()
                    &&& final(self).inboxes() == old(self).inboxes().update(
                        addr.0 as int,
                        old(self).inboxes()[addr.0 as int].drop_first(),
                    )
                },
                None => {
                    &&& *final(self) == *old(self)
                    &&& (addr.0 < old(self).inboxes().len() ==> old(
                        self,
                    ).inboxes()[addr.0 as int].len() == 0)
                },
            },
            old(self).wf() ==> final(self).wf(),
    {
        if addr.0 < self.actors.len() {
            if self.actors[addr.0].mailbox.len() > 0 {
                let ghost pre = *self;
                let msg = self.actors[addr.0].mailbox.remove(0);
                proof {
                    assert(msg@ == pre.inboxes()[addr.0 as int][0]);
                    assert(self.cache() =~= pre.cache());
                    assert(self.states() =~= pre.states());
                    assert(pre.actors@[addr.0 as int].mailbox@.remove(0) =~= pre.actors@[addr.0 as int].mailbox@.drop_first());
                    assert(self.inboxes() =~~= pre.inboxes().update(
                        addr.0 as int,
                        pre.inboxes()[addr.0 as int].drop_first(),
                    ));
                }
                Some(msg)
            } else {
                None
            }
        } else {
            None
        }
    }
}

impl<E: RoutingEntry> Default for DynamicRouteService<E> {
    /// A fresh registry, as [`DynamicRouteService::new`] builds it.
    fn default() -> (r: Self)
        ensures
            r.cache().len() == 0,
            r.states().len() == 0,
            r.inboxes().len() == 0,
            r.wf(),
    {
        DynamicRouteService { alive_routes: Vec::new(), actors: Vec::new() }
    }
}

/// A cache in which lookup from `k` on finds nothing holds no key `path` at
/// or after `k`.
proof fn lemma_cached_from_none_all(cache: Seq<(Seq<char>, BoxAddr)>, path: Seq<char>, k: int)
    requires
        0 <= k,
        cached_from(cache, path, k) is None,
    ensures
        forall|j: int| k <= j < cache.len() ==> (#[trigger] cache[j]).0 != path,
    decreases cache.len() - k,
{
    if k < cache.len() {
        lemma_cached_from_none_all(cache, path, k + 1);
    }
}

/// Appending a fresh entry for a path that was not cached makes lookup of
/// that path find exactly the fresh entry.
proof fn lemma_cached_after_push(
    cache: Seq<(Seq<char>, BoxAddr)>,
    path: Seq<char>,
    a: BoxAddr,
    k: int,
)
    requires
        0 <= k <= cache.len(),
        cached_from(cache, path, k) is None,
    ensures
        cached_from(cache.push((path, a)), path, k) == Some(a),
    decreases cache.len() - k,
{
    if k < cache.len() {
        lemma_cached_after_push(cache, path, a, k + 1);
    } else {
        assert(cache.push((path, a))[k].0 == path);
    }
}

/// A table in which no matcher at or after `k` accepts `path` yields no
/// first acceptor from `k` on.
proof fn lemma_no_acceptor_from<E: RoutingEntry>(routes: Seq<E>, path: Seq<char>, k: int)
    requires
        0 <= k,
        forall|j: int| k <= j < routes.len() ==> !(#[trigger] routes[j]).accepts(path),
    ensures
        first_accepting_from(routes, path, k) is None,
    decreases routes.len() - k,
{
    if k < routes.len() {
        lemma_no_acceptor_from(routes, path, k + 1);
    }
}

/// Law: when the first matcher of the table accepts a path that is not yet
/// cached, resolution constructs exactly that matcher's state — whatever any
/// later matcher would have produced, ordering is the tie-break.
pub proof fn lemma_first_match_wins<E: RoutingEntry>(
    pre: DynamicRouteService<E>,
    path: Seq<char>,
    table: RoutingDefinitionTable<E>,
    post: DynamicRouteService<E>,
    r: Option<BoxAddr>,
)
    requires
        pre.cached_addr(path) is None,
        resolve_rel(pre, path, table, post, r),
        table.routes@.len() > 0,
        table.routes@[0].accepts(path),
    ensures
        r == Some(BoxAddr(pre.states().len() as usize)),
        post.states() == pre.states().push(table.routes@[0].make(path)),
{
    assert(first_accepting(table.routes@, path) == Some(0int));
}

/// Law: resolving a path no matcher accepts returns "not found" and leaves
/// the registry exactly as it was — in particular the cache is never
/// populated, however often the resolution is repeated.
pub proof fn lemma_unresolvable_unchanged<E: RoutingEntry>(
    pre: DynamicRouteService<E>,
    path: Seq<char>,
    table: RoutingDefinitionTable<E>,
    post: DynamicRouteService<E>,
    r: Option<BoxAddr>,
)
    requires
        pre.cached_addr(path) is None,
        forall|j: int| 0 <= j < table.routes@.len() ==> !(#[trigger] table.routes@[j]).accepts(path),
        resolve_rel(pre, path, table, post, r),
    ensures
        r is None,
        post == pre,
{
    lemma_no_acceptor_from(table.routes@, path, 0);
}

/// One resolution step keeps the registry well-formed: there stays at most
/// one cache entry per distinct route path, each naming an existing handler.
pub proof fn lemma_resolve_preserves_wf<E: RoutingEntry>(
    pre: DynamicRouteService<E>,
    path: Seq<char>,
    table: RoutingDefinitionTable<E>,
    post: DynamicRouteService<E>,
    r: Option<BoxAddr>,
)
    requires
        pre.wf(),
        resolve_rel(pre, path, table, post, r),
    ensures
        post.wf(),
{
    match pre.cached_addr(path) {
        Some(_) => {},
        None => match first_accepting(table.routes@, path) {
            Some(_) => {
                lemma_cached_from_none_all(pre.cache(), path, 0);
                assert forall|j1: int, j2: int|
                    0 <= j1 < j2 < post.cache().len() implies (#[trigger] post.cache()[j1]).0 != (
                #[trigger] post.cache()[j2]).0 by {
                    if j2 < pre.cache().len() {
                        assert(pre.cache()[j1].0 != pre.cache()[j2].0);
                    } else {
                        assert(post.cache()[j2].0 == path);
                        assert(post.cache()[j1] == pre.cache()[j1]);
                    }
                }
            },
            None => {},
        },
    }
}

/// Law: once a resolution request for a path has succeeded, every later
/// request for the same path returns the very same address and leaves the
/// registry untouched — concurrent first requests, processed one at a time,
/// can never construct a second handler.
pub proof fn lemma_resolve_once<E: RoutingEntry>(
    pre: DynamicRouteService<E>,
    path: Seq<char>,
    table: RoutingDefinitionTable<E>,
    mid: DynamicRouteService<E>,
    r1: Option<BoxAddr>,
    post: DynamicRouteService<E>,
    r2: Option<BoxAddr>,
)
    requires
        pre.wf(),
        resolve_rel(pre, path, table, mid, r1),
        resolve_rel(mid, path, table, post, r2),
        r1 is Some,
    ensures
        r2 == r1,
        post == mid,
{
    match pre.cached_addr(path) {
        Some(_) => {},
        None => {
            let a = BoxAddr(pre.states().len() as usize);
            lemma_cached_after_push(pre.cache(), path, a, 0);
            assert(mid.cached_addr(path) == Some(a));
        },
    }
}

/// A chain of resolution steps for a path that is already cached under `a`
/// answers every request with `a` and moves the registry nowhere.
proof fn lemma_resolved_stays<E: RoutingEntry>(
    regs: Seq<DynamicRouteService<E>>,
    results: Seq<Option<BoxAddr>>,
    path: Seq<char>,
    table: RoutingDefinitionTable<E>,
    a: BoxAddr,
)
    requires
        regs.len() == results.len() + 1,
        forall|k: int|
            0 <= k < results.len() ==> resolve_rel(
                regs[k],
                path,
                table,
                regs[k + 1],
                #[trigger] results[k],
            ),
        regs[0].cached_addr(path) == Some(a),
    ensures
        forall|k: int| 0 <= k < results.len() ==> #[trigger] results[k] == Some(a),
        regs.last() == regs[0],
    decreases results.len(),
{
    if results.len() == 0 {
    } else {
        assert(resolve_rel(regs[0], path, table, regs[1], results[0]));
        let regs_t = regs.drop_first();
        let results_t = results.drop_first();
        assert forall|k: int| 0 <= k < results_t.len() implies resolve_rel(
            regs_t[k],
            path,
            table,
            regs_t[k + 1],
            #[trigger] results_t[k],
        ) by {
            assert(resolve_rel(regs[k + 1], path, table, regs[k + 2], results[k + 1]));
        }
        lemma_resolved_stays(regs_t, results_t, path, table, a);
        assert forall|k: int| 0 <= k < results.len() implies results[k] == Some(a) by {
            if k > 0 {
                assert(results_t[k - 1] == Some(a));
            }
        }
        assert(regs.last() == regs_t.last());
    }
}

/// Law: a sequence of resolution requests for one yet-unresolved path, taken
/// one at a time, constructs exactly one handler, and every request is
/// answered with the same address as the first.
pub proof fn lemma_single_construction<E: RoutingEntry>(
    regs: Seq<DynamicRouteService<E>>,
    results: Seq<Option<BoxAddr>>,
    path: Seq<char>,
    table: RoutingDefinitionTable<E>,
)
    requires
        regs.len() == results.len() + 1,
        results.len() >= 1,
        regs[0].cached_addr(path) is None,
        forall|k: int|
            0 <= k < results.len() ==> resolve_rel(
                regs[k],
                path,
                table,
                regs[k + 1],
                #[trigger] results[k],
            ),
        results[0] is Some,
    ensures
        forall|k: int| 0 <= k < results.len() ==> #[trigger] results[k] == results[0],
        regs.last().states().len() == regs[0].states().len() + 1,
{
    let a = BoxAddr(regs[0].states().len() as usize);
    assert(resolve_rel(regs[0], path, table, regs[1], results[0]));
    assert(results[0] == Some(a));
    assert(regs[1].states().len() == regs[0].states().len() + 1);
    lemma_cached_after_push(regs[0].cache(), path, a, 0);
    assert(regs[1].cached_addr(path) == Some(a));
    let regs_t = regs.drop_first();
    let results_t = results.drop_first();
    assert forall|k: int| 0 <= k < results_t.len() implies resolve_rel(
        regs_t[k],
        path,
        table,
        regs_t[k + 1],
        #[trigger] results_t[k],
    ) by {
        assert(resolve_rel(regs[k + 1], path, table, regs[k + 2], results[k + 1]));
    }
    lemma_resolved_stays(regs_t, results_t, path, table, a);
    assert forall|k: int| 0 <= k < results.len() implies #[trigger] results[k] == results[0] by {
        if k > 0 {
            assert(results_t[k - 1] == Some(a));
        }
    }
    assert(regs.last() == regs_t.last());
}

} // verus!
