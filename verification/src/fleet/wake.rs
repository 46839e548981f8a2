//! The wake daemon's decisions: which messages wake which agent, and how
//! often an agent may be woken.

use vstd::prelude::*;
use crate::crypto::nonce::{elapsed, instant_now, nanos_between};
use crate::strmap::StrMap;
use crate::text::str_eq;

verus! {

/// The least time between two wakes of an agent, in nanoseconds (30 s).
pub const WAKE_COOLDOWN_NS: u128 = 30_000_000_000;

/// Message intents that wake their recipient.
pub open spec fn wakeable_intent(intent: Seq<char>) -> bool {
    intent == "Request"@ || intent == "Discuss"@ || intent == "request"@ || intent == "discuss"@
}

/// Whether a message with this intent wakes its recipient.
pub fn is_wakeable(intent: &str) -> (b: bool)
    ensures
        b == wakeable_intent(intent@),
{
    str_eq(intent, "Request") || str_eq(intent, "Discuss") || str_eq(intent, "request") || str_eq(intent, "discuss")
}

/// The text that wakes an agent about a message.
pub fn wake_text(from: &str, subject: &str) -> (r: String)
    ensures
        r@ == "You have a new message from "@ + from@ + ": "@ + subject@ + ". Call check_messages to read and respond."@,
{
    let mut r = String::from_str("You have a new message from ");
    r.append(from);
    r.append(": ");
    r.append(subject);
    r.append(". Call check_messages to read and respond.");
    r
}

/// An agent of the fleet manifest: its name, wake port and whether its
/// session launch is skipped.
pub struct ManifestAgent {
    pub name: String,
    pub wake_port: Option<u16>,
    pub skip_session_launch: Option<bool>,
}

/// An agent can be woken when it has a wake port and its session is launched.
pub open spec fn wakeable_agent(a: ManifestAgent) -> bool {
    a.wake_port is Some && !(a.skip_session_launch == Some(true))
}

/// The wake port of each agent that can be woken (a name listed twice
/// keeps its last entry that can be woken).
pub fn wake_ports(agents: &Vec<ManifestAgent>) -> (r: StrMap<u16>)
    ensures
        r.wf(),
        forall|n: Seq<char>| #[trigger] r@.dom().contains(n) <==> exists|i: int|
            0 <= i < agents@.len() && agents@[i].name@ == n && wakeable_agent(agents@[i]),
        forall|n: Seq<char>| #[trigger] r@.dom().contains(n) ==> exists|i: int|
            0 <= i < agents@.len() && agents@[i].name@ == n && wakeable_agent(agents@[i]) && agents@[i].wake_port
                == Some(r@[n]),
{
    let mut r: StrMap<u16> = StrMap::new();
    let mut i: usize = 0;
    while i < agents.len()
        invariant
            r.wf(),
            i <= agents@.len(),
            forall|n: Seq<char>| #[trigger] r@.dom().contains(n) <==> exists|j: int|
                0 <= j < i && agents@[j].name@ == n && wakeable_agent(agents@[j]),
            forall|n: Seq<char>| #[trigger] r@.dom().contains(n) ==> exists|j: int|
                0 <= j < i && agents@[j].name@ == n && wakeable_agent(agents@[j]) && agents@[j].wake_port == Some(r@[n]),
        decreases agents@.len() - i,
    {
        let a = &agents[i];
        let skip = match a.skip_session_launch {
            Some(b) => b,
            None => false,
        };
        match a.wake_port {
            Some(p) => {
                if !skip {
                    r.insert(a.name.as_str(), p);
                    proof {
                        assert(wakeable_agent(agents@[i as int]));
                    }
                }
            },
            None => {},
        }
        i = i + 1;
    }
    r
}

/// When each agent was last woken.
pub struct WakeTracker {
    last_wake: StrMap<u128>,
    origin: std::time::Instant,
}

impl WakeTracker {
    /// When each agent was last woken (ns since the tracker was made).
    pub closed spec fn wakes(&self) -> Map<Seq<char>, u128> {
        self.last_wake@
    }

    pub closed spec fn wf(&self) -> bool {
        self.last_wake.wf()
    }

    /// Whether `agent` may be woken at `now`: never woken, or woken more
    /// than the cooldown before.
    pub open spec fn may_wake(&self, agent: Seq<char>, now: u128) -> bool {
        !self.wakes().dom().contains(agent) || elapsed(now, self.wakes()[agent]) > WAKE_COOLDOWN_NS
    }

    pub fn new() -> (t: Self)
        ensures
            t.wf(),
            t.wakes() == Map::<Seq<char>, u128>::empty(),
    {
        WakeTracker { last_wake: StrMap::new(), origin: instant_now() }
    }

    /// The current time, in ns since the tracker was made.
    pub fn now(&self) -> u128 {
        nanos_between(&self.origin, &instant_now())
    }

    /// Whether `agent` may be woken at `now`.
    pub fn should_wake_at(&self, agent: &str, now: u128) -> (b: bool)
        requires
            self.wf(),
        ensures
            b == self.may_wake(agent@, now),
    {
        match self.last_wake.get(agent) {
            Some(t) => {
                let e: u128 = if now >= *t { now - *t } else { 0 };
                e > WAKE_COOLDOWN_NS
            },
            None => true,
        }
    }

    /// Whether `agent` may be woken now.
    pub fn should_wake(&self, agent: &str) -> (b: bool)
        requires
            self.wf(),
        ensures
            exists|now: u128| b == self.may_wake(agent@, now),
    {
        let now = self.now();
        self.should_wake_at(agent, now)
    }

    /// Records that `agent` was woken at `now`.
    pub fn mark_woken_at(&mut self, agent: &str, now: u128)
        requires
            old(self).wf(),
        ensures
            final(self).wf(),
            final(self).wakes() == old(self).wakes().insert(agent@, now),
    {
        self.last_wake.insert(agent, now);
    }

    /// Records that `agent` was woken now.
    pub fn mark_woken(&mut self, agent: &str)
        requires
            old(self).wf(),
        ensures
            final(self).wf(),
            exists|now: u128| final(self).wakes() == old(self).wakes().insert(agent@, now),
    {
        let now = self.now();
        self.mark_woken_at(agent, now);
    }
}

/// Decides about a message to `to` with `intent` at time `now`: the port to
/// wake `to` on, when the intent wakes, `to` has a wake port and is not
/// cooling down (and then the wake is recorded); `None` otherwise.
pub fn wake_decision(tracker: &mut WakeTracker, ports: &StrMap<u16>, to: &str, intent: &str, now: u128) -> (r: Option<u16>)
    requires
        old(tracker).wf(),
        ports.wf(),
    ensures
        final(tracker).wf(),
        match r {
            Some(p) => wakeable_intent(intent@) && ports@.dom().contains(to@) && ports@[to@] == p && old(
                tracker,
            ).may_wake(to@, now) && final(tracker).wakes() == old(tracker).wakes().insert(to@, now),
            None => !(wakeable_intent(intent@) && ports@.dom().contains(to@) && old(tracker).may_wake(to@, now))
                && final(tracker).wakes() == old(tracker).wakes(),
        },
{
    if !is_wakeable(intent) {
        return None;
    }
    match ports.get(to) {
        Some(p) => {
            if tracker.should_wake_at(to, now) {
                tracker.mark_woken_at(to, now);
                Some(*p)
            } else {
                None
            }
        },
        None => None,
    }
}

/// An agent just woken is not woken again within the cooldown.
pub proof fn lemma_no_wake_within_cooldown(t0: WakeTracker, t1: WakeTracker, agent: Seq<char>, woken_at: u128, now: u128)
    requires
        t1.wakes() == t0.wakes().insert(agent, woken_at),
        woken_at <= now <= woken_at + WAKE_COOLDOWN_NS,
    ensures
        !t1.may_wake(agent, now),
{
}

} // verus!
