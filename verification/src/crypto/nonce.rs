//! Nonce registry with time-limited entries, for replay defense: a nonce
//! seen within the time-to-live is rejected.

use vstd::prelude::*;
use crate::strmap::StrMap;

verus! {

#[verifier::external_type_specification]
#[verifier::external_body]
pub struct ExInstant(std::time::Instant);

/// `Instant::now`: the current reading of the monotonic clock.
#[verifier::external_body]
pub(crate) fn instant_now() -> std::time::Instant {
    std::time::Instant::now()
}

/// `Instant::saturating_duration_since` in nanoseconds: the time from
/// `earlier` to `later` (zero if `later` comes first).
#[verifier::external_body]
pub(crate) fn nanos_between(earlier: &std::time::Instant, later: &std::time::Instant) -> u128 {
    later.saturating_duration_since(*earlier).as_nanos()
}

/// Expired entries are swept at most this often (30 s, in nanoseconds).
pub const CLEANUP_INTERVAL_NS: u128 = 30_000_000_000;

/// Time from `then` to `now`, zero if `now` comes first.
pub open spec fn elapsed(now: u128, then: u128) -> u128 {
    if now >= then { (now - then) as u128 } else { 0 }
}

/// Nonce `n` is recorded in `m` and has not yet expired at `now`.
pub open spec fn is_live(m: Map<Seq<char>, u128>, n: Seq<char>, now: u128, ttl: u128) -> bool {
    m.dom().contains(n) && elapsed(now, m[n]) < ttl
}

/// The entries of `m` that have not expired at `now`.
pub open spec fn unexpired(m: Map<Seq<char>, u128>, now: u128, ttl: u128) -> Map<Seq<char>, u128> {
    m.restrict(m.dom().filter(|k: Seq<char>| elapsed(now, m[k]) < ttl))
}

/// Registry that tracks seen nonces with their time of first sight.
pub struct NonceRegistry {
    nonces: StrMap<u128>,
    last_cleanup: u128,
    ttl: u128,
    origin: std::time::Instant,
    last_now: u128,
}

impl NonceRegistry {
    /// Nonces by the time (ns since the registry was created) they were recorded.
    pub closed spec fn entries(&self) -> Map<Seq<char>, u128> {
        self.nonces@
    }

    /// Time of the last sweep of expired entries.
    pub closed spec fn last_swept(&self) -> u128 {
        self.last_cleanup
    }

    /// Time-to-live of an entry, in nanoseconds.
    pub closed spec fn ttl_ns(&self) -> u128 {
        self.ttl
    }

    /// The latest time the registry's clock has shown a check (ns since it
    /// was created).
    pub closed spec fn clock(&self) -> u128 {
        self.last_now
    }

    /// The invariant of the underlying map.
    pub closed spec fn wf(&self) -> bool {
        self.nonces.wf()
    }

    /// `new` is `old` after checking nonce `n` at time `now`, with answer `r`.
    pub open spec fn checked(old: &NonceRegistry, new: &NonceRegistry, n: Seq<char>, now: u128, r: bool) -> bool {
        let sweep = elapsed(now, old.last_swept()) > CLEANUP_INTERVAL_NS;
        let kept = if sweep { unexpired(old.entries(), now, old.ttl_ns()) } else { old.entries() };
        &&& r == !is_live(old.entries(), n, now, old.ttl_ns())
        &&& new.entries() == if r { kept.insert(n, now) } else { kept }
        &&& new.last_swept() == if sweep { now } else { old.last_swept() }
        &&& new.ttl_ns() == old.ttl_ns()
    }

    /// An empty registry whose entries live `ttl_secs` seconds.
    pub fn new(ttl_secs: u64) -> (r: Self)
        ensures
            r.wf(),
            r.entries() == Map::<Seq<char>, u128>::empty(),
            r.last_swept() == 0,
            r.ttl_ns() == ttl_secs * 1_000_000_000,
            r.clock() == 0,
    {
        NonceRegistry {
            nonces: StrMap::new(),
            last_cleanup: 0,
            ttl: ttl_secs as u128 * 1_000_000_000,
            origin: instant_now(),
            last_now: 0,
        }
    }

    /// Checks nonce `nonce` at time `now` (ns since the registry was
    /// created): true and recorded if it is fresh, false if it is a replay.
    pub fn check_and_insert_at(&mut self, nonce: &str, now: u128) -> (r: bool)
        requires
            old(self).wf(),
        ensures
            final(self).wf(),
            NonceRegistry::checked(old(self), final(self), nonce@, now, r),
            final(self).clock() == if now > old(self).clock() { now } else { old(self).clock() },
    {
        if now > self.last_now {
            self.last_now = now;
        }
        let ttl = self.ttl;
        let ghost old_entries = self.nonces@;
        let last = self.last_cleanup;
        let since = if now >= last { now - last } else { 0 };
        if since > CLEANUP_INTERVAL_NS {
            let keep = |t: &u128| -> (b: bool)
                ensures
                    b == (elapsed(now, *t) < ttl),
                {
                    let age = if now >= *t { now - *t } else { 0 };
                    age < ttl
                };
            self.nonces.retain(keep, Ghost(|t: u128| elapsed(now, t) < ttl));
            self.last_cleanup = now;
            assert(self.nonces@ =~= unexpired(old_entries, now, ttl));
        }
        let live = match self.nonces.get(nonce) {
            Some(t) => {
                let age = if now >= *t { now - *t } else { 0 };
                age < ttl
            },
            None => false,
        };
        if live {
            return false;
        }
        self.nonces.insert(nonce, now);
        true
    }

    /// Checks nonce `nonce` against the clock: true and recorded if it is
    /// fresh, false if it was seen within the time-to-live. The time of the
    /// check is the clock's reading, which never goes back (std documents
    /// `Instant` as monotonic; a reading behind the last one is taken as the
    /// last one).
    pub fn check_and_insert(&mut self, nonce: &str) -> (r: bool)
        requires
            old(self).wf(),
        ensures
            final(self).wf(),
            final(self).clock() >= old(self).clock(),
            NonceRegistry::checked(old(self), final(self), nonce@, final(self).clock(), r),
    {
        let now = self.now();
        self.check_and_insert_at(nonce, now)
    }

    /// The current time on the registry's clock (ns since it was created),
    /// never behind the time of the last check.
    pub fn now(&self) -> (t: u128)
        ensures
            t >= self.clock(),
    {
        let reading = nanos_between(&self.origin, &instant_now());
        if reading > self.last_now {
            reading
        } else {
            self.last_now
        }
    }

    /// Number of tracked nonces.
    pub fn len(&self) -> (n: usize)
        requires
            self.wf(),
        ensures
            n == self.entries().dom().len(),
    {
        self.nonces.len()
    }

    /// Whether no nonce is tracked.
    pub fn is_empty(&self) -> (b: bool)
        requires
            self.wf(),
        ensures
            b == (self.entries().dom().len() == 0),
    {
        self.len() == 0
    }
}

/// Replay defense: once a nonce has been accepted at time `t1`, checking
/// it again at any time `t2` from `t1` until the time-to-live has passed
/// rejects it.
pub proof fn lemma_replay_rejected(
    r0: &NonceRegistry,
    r1: &NonceRegistry,
    r2: &NonceRegistry,
    n: Seq<char>,
    t1: u128,
    t2: u128,
    b2: bool,
)
    requires
        NonceRegistry::checked(r0, r1, n, t1, true),
        NonceRegistry::checked(r1, r2, n, t2, b2),
        t1 <= t2,
        t2 - t1 < r0.ttl_ns(),
    ensures
        !b2,
        r2.entries() == if elapsed(t2, r1.last_swept()) > CLEANUP_INTERVAL_NS {
            unexpired(r1.entries(), t2, r1.ttl_ns())
        } else {
            r1.entries()
        },
{
    assert(r1.entries().dom().contains(n));
    assert(r1.entries()[n] == t1);
}

/// A nonce never seen before is accepted, and recorded at the time of the check.
pub proof fn lemma_fresh_accepted(r0: &NonceRegistry, r1: &NonceRegistry, n: Seq<char>, t: u128, b: bool)
    requires
        NonceRegistry::checked(r0, r1, n, t, b),
        !r0.entries().dom().contains(n),
    ensures
        b,
        r1.entries().dom().contains(n),
        r1.entries()[n] == t,
{
}

proof fn lemma_checks_prefix(regs: Seq<NonceRegistry>, ns: Seq<Seq<char>>, ts: Seq<u128>, rs: Seq<bool>, k: int)
    requires
        regs.len() == ns.len() + 1,
        ts.len() == ns.len(),
        rs.len() == ns.len(),
        regs[0].entries() == Map::<Seq<char>, u128>::empty(),
        forall|i: int| 0 <= i < ns.len() ==> NonceRegistry::checked(&#[trigger] regs[i], &regs[i + 1], ns[i], ts[i], rs[i]),
        forall|i: int, j: int| 0 <= i <= j < ts.len() ==> ts[i] <= ts[j],
        ns.len() > 0 ==> ts[ns.len() - 1] - ts[0] < regs[0].ttl_ns(),
        0 <= k <= ns.len(),
    ensures
        regs[k].entries().dom() == ns.take(k).to_set(),
        regs[k].ttl_ns() == regs[0].ttl_ns(),
        forall|key: Seq<char>| #[trigger] regs[k].entries().dom().contains(key) ==> ts[0] <= regs[k].entries()[key]
            && regs[k].entries()[key] <= ts[k - 1],
        forall|i: int| 0 <= i < k ==> rs[i] == !ns.take(i).contains(#[trigger] ns[i]),
    decreases k,
{
    if k == 0 {
        assert(ns.take(0).to_set() =~= Set::<Seq<char>>::empty());
    } else {
        lemma_checks_prefix(regs, ns, ts, rs, k - 1);
        let before = regs[k - 1];
        let m = before.entries();
        let now = ts[k - 1];
        let ttl = before.ttl_ns();
        let n = ns[k - 1];
        assert(NonceRegistry::checked(&regs[k - 1], &regs[k], ns[k - 1], ts[k - 1], rs[k - 1]));
        assert(ts[k - 1] <= ts[ns.len() - 1]);
        assert forall|key: Seq<char>| m.dom().contains(key) implies elapsed(now, m[key]) < ttl by {
            assert(ts[k - 2] <= ts[k - 1]);
        }
        assert(unexpired(m, now, ttl) =~= m);
        assert(is_live(m, n, now, ttl) == m.dom().contains(n));
        assert(ns.take(k) =~= ns.take(k - 1).push(n));
        ns.take(k - 1).lemma_push_to_set_commute(n);
        assert(ns.take(k).to_set() =~= ns.take(k - 1).to_set().insert(n));
        assert(ns.take(k - 1).to_set().contains(n) == ns.take(k - 1).contains(n));
        assert(regs[k].entries().dom() =~= ns.take(k).to_set());
        assert forall|key: Seq<char>| #[trigger] regs[k].entries().dom().contains(key) implies ts[0]
            <= regs[k].entries()[key] && regs[k].entries()[key] <= ts[k - 1] by {
            if key != n || !rs[k - 1] {
                assert(m.dom().contains(key));
                if k >= 2 {
                    assert(ts[k - 2] <= ts[k - 1]);
                }
            }
        }
    }
}

/// Replay defense over a run of checks: on a registry that starts empty,
/// when every check happens within one time-to-live of the first, each
/// nonce is accepted exactly when it was not checked before, and the
/// registry then holds each nonce checked so far, once.
pub proof fn lemma_checks_within_ttl(regs: Seq<NonceRegistry>, ns: Seq<Seq<char>>, ts: Seq<u128>, rs: Seq<bool>)
    requires
        regs.len() == ns.len() + 1,
        ts.len() == ns.len(),
        rs.len() == ns.len(),
        regs[0].entries() == Map::<Seq<char>, u128>::empty(),
        forall|i: int| 0 <= i < ns.len() ==> NonceRegistry::checked(&#[trigger] regs[i], &regs[i + 1], ns[i], ts[i], rs[i]),
        forall|i: int, j: int| 0 <= i <= j < ts.len() ==> ts[i] <= ts[j],
        ns.len() > 0 ==> ts[ns.len() - 1] - ts[0] < regs[0].ttl_ns(),
    ensures
        forall|i: int| 0 <= i < ns.len() ==> rs[i] == !ns.take(i).contains(#[trigger] ns[i]),
        regs[ns.len() as int].entries().dom() == ns.to_set(),
{
    lemma_checks_prefix(regs, ns, ts, rs, ns.len() as int);
    assert(ns.take(ns.len() as int) =~= ns);
}

} // verus!
