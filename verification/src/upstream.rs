//! Upstream targets, tenants, the round-robin fallback pool and the
//! selector that picks an upstream for each request.

use vstd::prelude::*;

use crate::matching::{or_hit, GefyraRequest, MatchOrCondition, RequestView, RuleView};

verus! {

/// The network destination a matched request is forwarded to: an address,
/// whether to speak TLS to it, and the SNI to present.
#[derive(Debug)]
pub struct GefyraPeer {
    pub address: String,
    pub use_tls: bool,
    pub sni: String,
}

/// The mathematical content of a [`GefyraPeer`].
pub struct PeerView {
    pub address: Seq<char>,
    pub use_tls: bool,
    pub sni: Seq<char>,
}

impl View for GefyraPeer {
    type V = PeerView;

    open spec fn view(&self) -> PeerView {
        PeerView { address: self.address@, use_tls: self.use_tls, sni: self.sni@ }
    }
}

impl Clone for GefyraPeer {
    /// The clone describes the same destination.
    fn clone(&self) -> (r: Self)
        ensures
            r@ == self@,
    {
        GefyraPeer {
            address: self.address.clone(),
            use_tls: self.use_tls,
            sni: self.sni.clone(),
        }
    }
}

/// One tenant: a routing key, the upstream target its requests go to, and
/// the rule set that decides which requests are its.
#[derive(Debug)]
pub struct GefyraClient {
    pub key: String,
    pub peer: GefyraPeer,
    pub matching_rules: MatchOrCondition,
}

/// The mathematical content of a [`GefyraClient`].
pub struct ClientView {
    pub key: Seq<char>,
    pub peer: PeerView,
    pub rules: Seq<Seq<RuleView>>,
}

impl View for GefyraClient {
    type V = ClientView;

    open spec fn view(&self) -> ClientView {
        ClientView { key: self.key@, peer: self.peer@, rules: self.matching_rules@ }
    }
}

/// Whether the tenant's rule set hits the request.
pub open spec fn client_hit(c: ClientView, req: crate::matching::RequestView) -> bool {
    or_hit(c.rules, req)
}

/// The fallback pool is configured but holds no backend; selection treats
/// this as no upstream being available.
#[derive(Debug)]
pub struct EmptyPool;

/// No tenant matched the request and no fallback backend exists: a
/// per-request, recoverable failure the proxy engine answers with an
/// upstream-error response.
#[derive(Debug)]
pub struct NoUpstreamAvailable;

/// The round-robin pool of fallback backends: an ordered backend list, the
/// TLS settings to reach them with, and an atomic cursor bumped once per
/// pick. The list and settings never change after construction, so the
/// cursor is the only shared mutable state on the request path.
#[derive(Debug)]
pub struct BackendPool {
    backends: Vec<String>,
    use_tls: bool,
    sni: String,
    cursor: core::sync::atomic::AtomicUsize,
}

/// The mathematical content of a [`BackendPool`]: everything but the
/// cursor, whose value depends on the calls made so far.
pub struct PoolView {
    pub backends: Seq<Seq<char>>,
    pub use_tls: bool,
    pub sni: Seq<char>,
}

impl View for BackendPool {
    type V = PoolView;

    closed spec fn view(&self) -> PoolView {
        PoolView {
            backends: self.backends@.map_values(|s: String| s@),
            use_tls: self.use_tls,
            sni: self.sni@,
        }
    }
}

/// The backend slot a cursor value `ticket` selects: its index in the list.
pub open spec fn cursor_slot(p: PoolView, ticket: nat) -> int
    recommends
        p.backends.len() > 0,
{
    (ticket % p.backends.len()) as int
}

/// The upstream the pool answers with for cursor value `ticket`.
pub open spec fn spec_pick(p: PoolView, ticket: nat) -> PeerView
    recommends
        p.backends.len() > 0,
{
    PeerView { address: p.backends[cursor_slot(p, ticket)], use_tls: p.use_tls, sni: p.sni }
}

impl BackendPool {
    /// Builds a pool over `backends`, in order, reached with the given TLS
    /// settings; the cursor starts at zero.
    pub fn new(backends: Vec<String>, use_tls: bool, sni: String) -> (r: BackendPool)
        ensures
            r@ == (PoolView {
                backends: backends@.map_values(|s: String| s@),
                use_tls,
                sni: sni@,
            }),
    {
        BackendPool { backends, use_tls, sni, cursor: core::sync::atomic::AtomicUsize::new(0) }
    }

    /// How many backends the pool holds.
    pub fn len(&self) -> (r: usize)
        ensures
            r == self@.backends.len(),
    {
        self.backends.len()
    }

    /// The upstream for cursor value `ticket`: round-robin indexing into
    /// the backend list, failing only on an empty pool.
    pub fn pick(&self, ticket: usize) -> (r: Result<GefyraPeer, EmptyPool>)
        ensures
            r is Ok <==> self@.backends.len() > 0,
            r matches Ok(peer) ==> peer@ == spec_pick(self@, ticket as nat),
    {
        let n = self.backends.len();
        if n == 0 {
            Err(EmptyPool)
        } else {
            let idx = ticket % n;
            Ok(
                GefyraPeer {
                    address: self.backends[idx].clone(),
                    use_tls: self.use_tls,
                    sni: self.sni.clone(),
                },
            )
        }
    }

    /// The next backend in round-robin order: bumps the shared cursor and
    /// picks with the value it had. Concurrent callers interleave freely,
    /// so all that is promised of the result is that it is the pick of some
    /// cursor value; it fails only on an empty pool, and never blocks.
    pub fn next(&self) -> (r: Result<GefyraPeer, EmptyPool>)
        ensures
            r is Ok <==> self@.backends.len() > 0,
            r matches Ok(peer) ==> exists|t: nat| peer@ == spec_pick(self@, t),
    {
        let ticket = self.cursor.fetch_add(1, core::sync::atomic::Ordering::Relaxed);
        let r = self.pick(ticket);
        proof {
            if r is Ok {
                assert(r->Ok_0@ == spec_pick(self@, ticket as nat));
            }
        }
        r
    }
}

/// How often `x` occurs in `s`.
pub open spec fn count_hits(s: Seq<int>, x: int) -> nat
    decreases s.len(),
{
    if s.len() == 0 {
        0
    } else {
        count_hits(s.drop_last(), x) + (if s.last() == x {
            1nat
        } else {
            0nat
        })
    }
}

/// The backend slots the pool answers with over `count` consecutive cursor
/// values starting at `start`.
pub open spec fn slot_seq(p: PoolView, start: nat, count: nat) -> Seq<int> {
    Seq::new(count, |i: int| cursor_slot(p, (start + i) as nat))
}

proof fn lemma_count_hits_absent(s: Seq<int>, x: int)
    requires
        forall|i: int| 0 <= i < s.len() ==> s[i] != x,
    ensures
        count_hits(s, x) == 0,
    decreases s.len(),
{
    if s.len() > 0 {
        lemma_count_hits_absent(s.drop_last(), x);
    }
}

proof fn lemma_count_hits_unique(s: Seq<int>, x: int, w: int)
    requires
        0 <= w < s.len(),
        s[w] == x,
        forall|i: int| 0 <= i < s.len() && s[i] == x ==> i == w,
    ensures
        count_hits(s, x) == 1,
    decreases s.len(),
{
    if w == s.len() - 1 {
        assert(forall|i: int| 0 <= i < s.drop_last().len() ==> s.drop_last()[i] != x);
        lemma_count_hits_absent(s.drop_last(), x);
    } else {
        assert(s.last() != x);
        lemma_count_hits_unique(s.drop_last(), x, w);
    }
}

proof fn lemma_count_hits_add(a: Seq<int>, b: Seq<int>, x: int)
    ensures
        count_hits(a + b, x) == count_hits(a, x) + count_hits(b, x),
    decreases b.len(),
{
    if b.len() == 0 {
        assert(a + b =~= a);
    } else {
        assert((a + b).drop_last() =~= a + b.drop_last());
        assert((a + b).last() == b.last());
        lemma_count_hits_add(a, b.drop_last(), x);
    }
}

/// Round-robin fairness over one revolution: a pool of `n` backends
/// answers any `n` consecutive cursor values with every backend slot
/// exactly once, wherever the cursor starts.
pub proof fn lemma_round_robin_fairness(p: PoolView, start: nat)
    requires
        p.backends.len() > 0,
    ensures
        forall|slot: int|
            0 <= slot < p.backends.len() ==> count_hits(
                slot_seq(p, start, p.backends.len()),
                slot,
            ) == 1,
{
    let n = p.backends.len();
    let s = slot_seq(p, start, n);
    assert forall|slot: int| 0 <= slot < n implies count_hits(s, slot) == 1 by {
        let r = start % n;
        vstd::arithmetic::div_mod::lemma_mod_decreases(start, n);
        let w: int = if slot >= r { slot - r } else { slot - r + n as int };
        assert(s[w] == slot) by {
            lemma_slot_of_offset(p, start, w as nat);
            assert((r + w) % (n as int) == slot) by {
                if slot >= r {
                    vstd::arithmetic::div_mod::lemma_small_mod(slot as nat, n);
                } else {
                    vstd::arithmetic::div_mod::lemma_mod_add_multiples_vanish(
                        slot as int,
                        n as int,
                    );
                    vstd::arithmetic::div_mod::lemma_small_mod(slot as nat, n);
                }
            }
        }
        assert forall|i: int| 0 <= i < s.len() && s[i] == slot implies i == w by {
            lemma_slot_of_offset(p, start, i as nat);
            lemma_slot_of_offset(p, start, w as nat);
            assert((r + i) % (n as int) == (r + w) % (n as int));
            lemma_mod_injective_in_window(r + i, r + w, n as int);
        }
        lemma_count_hits_unique(s, slot, w);
    }
}

/// The slot for the cursor value `start + i` is `(start % n + i) % n`.
proof fn lemma_slot_of_offset(p: PoolView, start: nat, i: nat)
    requires
        p.backends.len() > 0,
    ensures
        cursor_slot(p, (start + i) as nat) == ((start as int % p.backends.len() as int)
            + i as int) % (p.backends.len() as int),
{
    let n = p.backends.len() as int;
    vstd::arithmetic::div_mod::lemma_fundamental_div_mod(start as int, n);
    let q = start as int / n;
    let r = start as int % n;
    vstd::arithmetic::div_mod::lemma_mod_multiples_vanish(q, r + i as int, n);
    assert(start as int + i as int == q * n + (r + i as int)) by {
        vstd::arithmetic::mul::lemma_mul_is_commutative(q, n);
    }
}

/// Two values within `n` of one another with equal remainders mod `n` are
/// equal.
proof fn lemma_mod_injective_in_window(a: int, b: int, n: int)
    requires
        n > 0,
        0 <= a,
        0 <= b,
        a - b < n,
        b - a < n,
        a % n == b % n,
    ensures
        a == b,
{
    vstd::arithmetic::div_mod::lemma_fundamental_div_mod(a, n);
    vstd::arithmetic::div_mod::lemma_fundamental_div_mod(b, n);
    let qa = a / n;
    let qb = b / n;
    let r = a % n;
    assert(qa == qb) by (nonlinear_arith)
        requires
            a == n * qa + r,
            b == n * qb + r,
            a - b < n,
            b - a < n,
            n > 0,
    ;
}

/// Round-robin fairness over any whole number of revolutions: over
/// `k * n` consecutive cursor values a pool of `n` backends answers with
/// every backend slot exactly `k` times — also the shape taken by
/// concurrent callers, whose cursor values are consecutive because the
/// cursor is bumped atomically.
pub proof fn lemma_round_robin_fairness_repeated(p: PoolView, start: nat, k: nat)
    requires
        p.backends.len() > 0,
    ensures
        forall|slot: int|
            0 <= slot < p.backends.len() ==> #[trigger] count_hits(
                slot_seq(p, start, (k * p.backends.len()) as nat),
                slot,
            ) == k,
    decreases k,
{
    let n = p.backends.len();
    if k == 0 {
        assert forall|slot: int| 0 <= slot < n implies #[trigger] count_hits(
            slot_seq(p, start, (k * n) as nat),
            slot,
        ) == k by {
            assert(k * n == 0) by (nonlinear_arith)
                requires
                    k == 0,
            ;
            assert(slot_seq(p, start, (k * n) as nat).len() == 0);
        }
    } else {
        let km1 = (k - 1) as nat;
        lemma_round_robin_fairness_repeated(p, start, km1);
        lemma_round_robin_fairness(p, (start + km1 * n) as nat);
        assert(k * n == km1 * n + n) by (nonlinear_arith)
            requires
                km1 + 1 == k,
        ;
        assert forall|slot: int| 0 <= slot < n implies #[trigger] count_hits(
            slot_seq(p, start, (k * n) as nat),
            slot,
        ) == k by {
            assert(slot_seq(p, start, (k * n) as nat) =~= slot_seq(p, start, (km1 * n) as nat)
                + slot_seq(p, (start + km1 * n) as nat, n));
            lemma_count_hits_add(
                slot_seq(p, start, (km1 * n) as nat),
                slot_seq(p, (start + km1 * n) as nat, n),
                slot,
            );
        }
    }
}


/// Where a selection came from: the tenant at an index of the registry, or
/// the cluster-fallback pool. This identity is what each selection reports
/// for observability.
#[derive(Debug)]
pub enum SelectionSource {
    Client { index: usize },
    ClusterFallback,
}

/// One selection: the upstream to forward to, and whose it is.
#[derive(Debug)]
pub struct Selection {
    pub peer: GefyraPeer,
    pub source: SelectionSource,
}

/// The routing core: the ordered, immutable tenant registry and the
/// optional round-robin fallback pool, shared read-only across requests.
pub struct Carrier2 {
    pub gefyra_clients: Vec<GefyraClient>,
    pub cluster_upstream: Option<BackendPool>,
}

/// The mathematical content of a [`Carrier2`].
pub struct CarrierView {
    pub clients: Seq<ClientView>,
    pub cluster_upstream: Option<PoolView>,
}

impl View for Carrier2 {
    type V = CarrierView;

    open spec fn view(&self) -> CarrierView {
        CarrierView {
            clients: self.gefyra_clients@.map_values(|c: GefyraClient| c@),
            cluster_upstream: match self.cluster_upstream {
                Option::Some(p) => Option::Some(p@),
                Option::None => Option::None,
            },
        }
    }
}

/// The index of the first tenant at or after `i` whose rule set hits the
/// request, if any: the registry's order is the tie-break between tenants.
pub open spec fn spec_first_hit(clients: Seq<ClientView>, req: RequestView, i: int) -> Option<int>
    decreases clients.len() - i,
{
    if i >= clients.len() {
        Option::None
    } else if client_hit(clients[i], req) {
        Option::Some(i)
    } else {
        spec_first_hit(clients, req, i + 1)
    }
}

impl Carrier2 {
    /// Selects the upstream for one request: the target of the first tenant
    /// in registration order whose rule set hits; else the next backend of
    /// the fallback pool, round-robin; else no upstream is available. The
    /// result names the tenant index or the fallback, for the caller's
    /// per-selection observability event.
    pub fn upstream_peer(&self, req: &GefyraRequest) -> (r: Result<Selection, NoUpstreamAvailable>)
        ensures
            r is Ok <==> (spec_first_hit(self@.clients, req@, 0) is Some || (
            self@.cluster_upstream matches Some(pool) && pool.backends.len() > 0)),
            r matches Ok(sel) ==> match sel.source {
                SelectionSource::Client { index } => {
                    &&& spec_first_hit(self@.clients, req@, 0) == Some(index as int)
                    &&& sel.peer@ == self@.clients[index as int].peer
                },
                SelectionSource::ClusterFallback => {
                    &&& spec_first_hit(self@.clients, req@, 0) is None
                    &&& self@.cluster_upstream matches Some(pool) && pool.backends.len() > 0
                        && (exists|t: nat| sel.peer@ == spec_pick(pool, t))
                },
            },
    {
        let n = self.gefyra_clients.len();
        let mut i: usize = 0;
        while i < n
            invariant
                i <= n,
                n == self.gefyra_clients@.len(),
                self@.clients.len() == n,
                spec_first_hit(self@.clients, req@, 0) == spec_first_hit(
                    self@.clients,
                    req@,
                    i as int,
                ),
            decreases n - i,
        {
            let client = &self.gefyra_clients[i];
            if client.matching_rules.is_hit(req) {
                assert(self@.clients[i as int] == self.gefyra_clients@[i as int]@);
                return Ok(
                    Selection {
                        peer: client.peer.clone(),
                        source: SelectionSource::Client { index: i },
                    },
                );
            }
            assert(self@.clients[i as int] == self.gefyra_clients@[i as int]@);
            i += 1;
        }
        match &self.cluster_upstream {
            Option::Some(pool) => match pool.next() {
                Ok(peer) => Ok(Selection { peer, source: SelectionSource::ClusterFallback }),
                Err(_) => Err(NoUpstreamAvailable),
            },
            Option::None => Err(NoUpstreamAvailable),
        }
    }
}

/// The first hit is never later than any hit: what `spec_first_hit`
/// returns is a hit, and no earlier tenant hits.
pub proof fn lemma_first_hit_is_first(clients: Seq<ClientView>, req: RequestView, i: int)
    requires
        0 <= i <= clients.len(),
    ensures
        spec_first_hit(clients, req, i) matches Some(w) ==> {
            &&& i <= w < clients.len()
            &&& client_hit(clients[w], req)
            &&& forall|j: int| i <= j < w ==> !client_hit(#[trigger] clients[j], req)
        },
        spec_first_hit(clients, req, i) is None ==> forall|j: int|
            i <= j < clients.len() ==> !client_hit(#[trigger] clients[j], req),
    decreases clients.len() - i,
{
    if i < clients.len() && !client_hit(clients[i], req) {
        lemma_first_hit_is_first(clients, req, i + 1);
    }
}

/// First-registered wins: when the tenants at `i` and `j` both match the
/// request, selection settles on a tenant no later than `i`, so the later
/// of two matching tenants is shadowed by the earlier.
pub proof fn lemma_first_registered_wins(
    clients: Seq<ClientView>,
    req: RequestView,
    i: int,
    j: int,
)
    requires
        0 <= i < j < clients.len(),
        client_hit(clients[i], req),
        client_hit(clients[j], req),
    ensures
        spec_first_hit(clients, req, 0) matches Some(w) && w <= i,
{
    lemma_first_hit_is_first(clients, req, 0);
    if spec_first_hit(clients, req, 0) is None {
        assert(!client_hit(clients[i], req));
    }
    let w = spec_first_hit(clients, req, 0)->Some_0;
    if w > i {
        assert(!client_hit(clients[i], req));
    }
}

/// A registry whose tenants all carry empty rule sets matches no request,
/// so selection falls through to the pool — and, with no pool configured,
/// to the explicit no-upstream failure.
pub proof fn lemma_all_rule_sets_empty_no_hit(clients: Seq<ClientView>, req: RequestView)
    requires
        forall|k: int| 0 <= k < clients.len() ==> #[trigger] clients[k].rules.len() == 0,
    ensures
        spec_first_hit(clients, req, 0) is None,
{
    lemma_first_hit_is_first(clients, req, 0);
    let fh = spec_first_hit(clients, req, 0);
    if fh is Some {
        let w = fh->Some_0;
        assert(clients[w].rules.len() == 0);
        crate::matching::lemma_empty_rule_set_never_hits(req);
        assert(clients[w].rules =~= Seq::<Seq<RuleView>>::empty());
    }
}

} // verus!
