//! The council observer's decisions: when to wake an agent with unread
//! messages, when to back off, and when a session counts as stale.

use vstd::prelude::*;
use crate::crypto::nonce::{elapsed, instant_now, nanos_between};
use crate::strmap::StrMap;
use crate::text::{
    contains_spec, contains_str, decimal_spec, decimal_u64, lines, lines_spec, occurs_at, split_whitespace, starts_with_str,
    string_of, to_chars, trim, trim_spec, words_spec,
};

verus! {

/// The longest cooldown between two wakes of an agent, in seconds.
pub const MAX_BACKOFF_SECS: u64 = 900;

/// After this many consecutive stale cycles the observer stops waking.
pub const CIRCUIT_BREAKER_THRESHOLD: u32 = 5;

/// After this many consecutive stale cycles, a graceful shutdown is asked.
pub const GRACEFUL_THRESHOLD: u32 = 5;

/// After this many consecutive stale cycles, the session is force-healed.
pub const FORCE_THRESHOLD: u32 = 7;

/// 2 to the power `k`.
pub open spec fn pow2(k: nat) -> nat
    decreases k,
{
    if k == 0 {
        1
    } else {
        2 * pow2((k - 1) as nat)
    }
}

/// The backoff multiplier at a backoff level: doubling per level, capped at 64.
pub open spec fn multiplier(level: u32) -> nat {
    pow2(if level < 6 { level as nat } else { 6 })
}

/// The cooldown in seconds at a backoff level, for a base interval: the base
/// times the multiplier, at most `MAX_BACKOFF_SECS`.
pub open spec fn cooldown_secs(base: u64, level: u32) -> int {
    let b = base * multiplier(level);
    if b > MAX_BACKOFF_SECS { MAX_BACKOFF_SECS as int } else { b as int }
}

/// Per-agent wake cooldowns with exponential backoff.
pub struct CooldownTracker {
    last_wake: StrMap<u128>,
    backoff_level: StrMap<u32>,
    base_secs: u64,
    origin: std::time::Instant,
}

impl CooldownTracker {
    /// When each agent was last woken (ns since the tracker was made).
    pub closed spec fn wakes(&self) -> Map<Seq<char>, u128> {
        self.last_wake@
    }

    /// The backoff level of each agent that has one.
    pub closed spec fn levels(&self) -> Map<Seq<char>, u32> {
        self.backoff_level@
    }

    /// The base interval, in seconds.
    pub closed spec fn base(&self) -> u64 {
        self.base_secs
    }

    pub closed spec fn wf(&self) -> bool {
        self.last_wake.wf() && self.backoff_level.wf()
    }

    /// The backoff level of `agent` (0 when it has none).
    pub open spec fn level_of(&self, agent: Seq<char>) -> u32 {
        if self.levels().dom().contains(agent) { self.levels()[agent] } else { 0 }
    }

    /// A tracker with no wakes and no backoff.
    pub fn new(poll_interval_secs: u64) -> (t: Self)
        ensures
            t.wf(),
            t.wakes() == Map::<Seq<char>, u128>::empty(),
            t.levels() == Map::<Seq<char>, u32>::empty(),
            t.base() == poll_interval_secs,
    {
        CooldownTracker {
            last_wake: StrMap::new(),
            backoff_level: StrMap::new(),
            base_secs: poll_interval_secs,
            origin: instant_now(),
        }
    }

    /// The backoff level of `agent` (0 when it has none).
    pub fn backoff_level(&self, agent: &str) -> (l: u32)
        requires
            self.wf(),
        ensures
            l == self.level_of(agent@),
    {
        match self.backoff_level.get(agent) {
            Some(l) => *l,
            None => 0,
        }
    }

    /// The cooldown of `agent`, in seconds.
    pub fn cooldown_for(&self, agent: &str) -> (c: u64)
        requires
            self.wf(),
            self.base() * multiplier(self.level_of(agent@)) <= u64::MAX,
        ensures
            c == cooldown_secs(self.base(), self.level_of(agent@)),
    {
        let level = self.backoff_level(agent);
        let capped: u32 = if level < 6 { level } else { 6 };
        let mut m: u64 = 1;
        let mut k: u32 = 0;
        while k < capped
            invariant
                k <= capped <= 6,
                m == pow2(k as nat),
                capped == (if level < 6 { level } else { 6 }),
            decreases capped - k,
        {
            proof {
                reveal_with_fuel(pow2, 6);
                assert(m <= 32) by {
                    if k == 0 {
                    } else if k == 1 {
                    } else if k == 2 {
                    } else if k == 3 {
                    } else if k == 4 {
                    } else {
                    }
                }
            }
            m = m * 2;
            k = k + 1;
        }
        assert(m == multiplier(level));
        let b = self.base_secs * m;
        if b > MAX_BACKOFF_SECS {
            MAX_BACKOFF_SECS
        } else {
            b
        }
    }

    /// Whether `agent` was woken less than its cooldown before `now` (ns
    /// since the tracker was made).
    pub open spec fn cooling_down_at(&self, agent: Seq<char>, now: u128) -> bool {
        self.wakes().dom().contains(agent) && elapsed(now, self.wakes()[agent]) < cooldown_secs(self.base(),
            self.level_of(agent)) * 1_000_000_000
    }

    /// Whether `agent` is still cooling down at time `now`.
    pub fn is_cooling_down_at(&self, agent: &str, now: u128) -> (b: bool)
        requires
            self.wf(),
            self.base() * multiplier(self.level_of(agent@)) <= u64::MAX,
        ensures
            b == self.cooling_down_at(agent@, now),
    {
        match self.last_wake.get(agent) {
            Some(t) => {
                let e: u128 = if now >= *t { now - *t } else { 0 };
                let c = self.cooldown_for(agent) as u128;
                e < c * 1_000_000_000
            },
            None => false,
        }
    }

    /// The current time, in ns since the tracker was made.
    pub fn now(&self) -> u128 {
        nanos_between(&self.origin, &instant_now())
    }

    /// Whether `agent` is still cooling down now.
    pub fn is_cooling_down(&self, agent: &str) -> (b: bool)
        requires
            self.wf(),
            self.base() * multiplier(self.level_of(agent@)) <= u64::MAX,
        ensures
            exists|now: u128| b == self.cooling_down_at(agent@, now),
    {
        let now = self.now();
        self.is_cooling_down_at(agent, now)
    }

    /// Records that `agent` was woken at time `now`.
    pub fn mark_woken_at(&mut self, agent: &str, now: u128)
        requires
            old(self).wf(),
        ensures
            final(self).wf(),
            final(self).wakes() == old(self).wakes().insert(agent@, now),
            final(self).levels() == old(self).levels(),
            final(self).base() == old(self).base(),
    {
        self.last_wake.insert(agent, now);
    }

    /// Records that `agent` was woken now.
    pub fn mark_woken(&mut self, agent: &str)
        requires
            old(self).wf(),
        ensures
            final(self).wf(),
            exists|now: u128| final(self).wakes() == old(self).wakes().insert(agent@, now),
            final(self).levels() == old(self).levels(),
            final(self).base() == old(self).base(),
    {
        let now = self.now();
        self.mark_woken_at(agent, now);
    }

    /// The agent responded: its backoff goes back to zero.
    pub fn reset_backoff(&mut self, agent: &str)
        requires
            old(self).wf(),
        ensures
            final(self).wf(),
            final(self).wakes() == old(self).wakes(),
            final(self).levels() == old(self).levels().remove(agent@),
            final(self).base() == old(self).base(),
    {
        self.backoff_level.remove(agent);
    }

    /// The agent did not respond: its backoff level goes up by one.
    pub fn increase_backoff(&mut self, agent: &str)
        requires
            old(self).wf(),
            old(self).level_of(agent@) < u32::MAX,
        ensures
            final(self).wf(),
            final(self).wakes() == old(self).wakes(),
            final(self).levels() == old(self).levels().insert(agent@, (old(self).level_of(agent@) + 1) as u32),
            final(self).base() == old(self).base(),
    {
        let l = self.backoff_level(agent);
        self.backoff_level.insert(agent, l + 1);
    }
}

/// How stale a session is.
#[derive(Debug, Clone, Copy, PartialEq, Eq, Structural)]
pub enum HealPhase {
    /// Not stale yet.
    Healthy,
    /// Stale long enough for a graceful shutdown signal.
    GracefulPending,
    /// Stale long enough to be force-healed.
    ForceHealed,
}

/// The phase of a session stale for `count` consecutive cycles.
pub open spec fn phase_of(count: int) -> HealPhase {
    if count >= FORCE_THRESHOLD {
        HealPhase::ForceHealed
    } else if count >= GRACEFUL_THRESHOLD {
        HealPhase::GracefulPending
    } else {
        HealPhase::Healthy
    }
}

/// Consecutive cycles in which each agent had unread messages.
pub struct StaleSessionTracker {
    consecutive_unread: StrMap<u32>,
}

impl StaleSessionTracker {
    /// The number of consecutive unread cycles of each agent that has some.
    pub closed spec fn counts(&self) -> Map<Seq<char>, u32> {
        self.consecutive_unread@
    }

    pub closed spec fn wf(&self) -> bool {
        self.consecutive_unread.wf()
    }

    /// The count of `agent` (0 when it has none).
    pub open spec fn count_of(&self, agent: Seq<char>) -> u32 {
        if self.counts().dom().contains(agent) { self.counts()[agent] } else { 0 }
    }

    pub fn new() -> (t: Self)
        ensures
            t.wf(),
            t.counts() == Map::<Seq<char>, u32>::empty(),
    {
        StaleSessionTracker { consecutive_unread: StrMap::new() }
    }

    /// Records a cycle in which `agent` had unread messages; the phase its
    /// session is now in.
    pub fn record_unread(&mut self, agent: &str) -> (p: HealPhase)
        requires
            old(self).wf(),
            old(self).count_of(agent@) < u32::MAX,
        ensures
            final(self).wf(),
            final(self).counts() == old(self).counts().insert(agent@, (old(self).count_of(agent@) + 1) as u32),
            p == phase_of(old(self).count_of(agent@) + 1),
    {
        let c = self.consecutive_count(agent) + 1;
        self.consecutive_unread.insert(agent, c);
        if c >= FORCE_THRESHOLD {
            HealPhase::ForceHealed
        } else if c >= GRACEFUL_THRESHOLD {
            HealPhase::GracefulPending
        } else {
            HealPhase::Healthy
        }
    }

    /// `agent` cleared its inbox: its count goes back to zero.
    pub fn record_clear(&mut self, agent: &str)
        requires
            old(self).wf(),
        ensures
            final(self).wf(),
            final(self).counts() == old(self).counts().remove(agent@),
    {
        self.consecutive_unread.remove(agent);
    }

    /// After a force heal the new session gets a fresh count.
    pub fn reset_after_heal(&mut self, agent: &str)
        requires
            old(self).wf(),
        ensures
            final(self).wf(),
            final(self).counts() == old(self).counts().remove(agent@),
    {
        self.consecutive_unread.remove(agent);
    }

    /// The count of `agent`.
    pub fn consecutive_count(&self, agent: &str) -> (c: u32)
        requires
            self.wf(),
        ensures
            c == self.count_of(agent@),
    {
        match self.consecutive_unread.get(agent) {
            Some(c) => *c,
            None => 0,
        }
    }
}

/// What the observer does about an agent in a cycle, once its inbox is read.
#[derive(Debug, Clone, Copy, PartialEq, Eq, Structural)]
pub enum ObserverStep {
    /// The inbox is empty: the stale count and the backoff are cleared.
    Cleared,
    /// The session looks dead: no wake, more backoff; `alert` says whether
    /// to alert the lead about it.
    Suppressed { alert: bool },
    /// Wake the agent.
    Wake,
}

/// Decides about `agent`, which has `unread` messages at time `now`,
/// updating the stale count and the cooldowns.
pub fn observe_unread(
    cooldown: &mut CooldownTracker,
    stale: &mut StaleSessionTracker,
    agent: &str,
    unread: usize,
    now: u128,
) -> (r: ObserverStep)
    requires
        old(cooldown).wf(),
        old(stale).wf(),
        old(stale).count_of(agent@) < u32::MAX,
        old(cooldown).level_of(agent@) < u32::MAX,
    ensures
        final(cooldown).wf(),
        final(stale).wf(),
        final(cooldown).base() == old(cooldown).base(),
        unread == 0 ==> {
            &&& r == ObserverStep::Cleared
            &&& final(stale).counts() == old(stale).counts().remove(agent@)
            &&& final(cooldown).levels() == old(cooldown).levels().remove(agent@)
            &&& final(cooldown).wakes() == old(cooldown).wakes()
        },
        unread > 0 ==> {
            let c = old(stale).count_of(agent@) + 1;
            let ph = phase_of(c);
            let counted = old(stale).counts().insert(agent@, c as u32);
            if c >= CIRCUIT_BREAKER_THRESHOLD {
                &&& r == ObserverStep::Suppressed {
                    alert: (ph == HealPhase::GracefulPending && c == GRACEFUL_THRESHOLD) || ph == HealPhase::ForceHealed,
                }
                &&& final(stale).counts() == (if ph == HealPhase::ForceHealed {
                    counted.remove(agent@)
                } else {
                    counted
                })
                &&& final(cooldown).levels() == old(cooldown).levels().insert(
                    agent@,
                    (old(cooldown).level_of(agent@) + 1) as u32,
                )
                &&& final(cooldown).wakes() == old(cooldown).wakes().insert(agent@, now)
            } else {
                &&& r == ObserverStep::Wake
                &&& final(stale).counts() == counted
                &&& final(cooldown).levels() == old(cooldown).levels()
                &&& final(cooldown).wakes() == old(cooldown).wakes()
            }
        },
{
    if unread == 0 {
        stale.record_clear(agent);
        cooldown.reset_backoff(agent);
        return ObserverStep::Cleared;
    }
    let phase = stale.record_unread(agent);
    let consecutive = stale.consecutive_count(agent);
    if consecutive >= CIRCUIT_BREAKER_THRESHOLD {
        let alert = match phase {
            HealPhase::GracefulPending => consecutive == GRACEFUL_THRESHOLD,
            HealPhase::ForceHealed => true,
            HealPhase::Healthy => false,
        };
        if phase == HealPhase::ForceHealed {
            stale.reset_after_heal(agent);
        }
        cooldown.increase_backoff(agent);
        cooldown.mark_woken_at(agent, now);
        return ObserverStep::Suppressed { alert };
    }
    ObserverStep::Wake
}

/// How an agent is woken.
#[derive(Debug, Clone, Copy, PartialEq, Eq, Structural)]
pub enum WakeTier {
    /// A POST to the agent's AgentAPI message endpoint.
    AgentApi,
    /// An Enter key sent to its terminal.
    BareEnter,
    /// A text typed into its terminal, then Enter.
    TextInject,
}

/// How each tier is named in the logs.
pub fn tier_label(t: WakeTier) -> (r: &'static str)
    ensures
        r@ == match t {
            WakeTier::AgentApi => "tier 1 (AgentAPI)"@,
            WakeTier::BareEnter => "tier 2 (bare enter)"@,
            WakeTier::TextInject => "tier 3 (text inject)"@,
        },
{
    match t {
        WakeTier::AgentApi => "tier 1 (AgentAPI)",
        WakeTier::BareEnter => "tier 2 (bare enter)",
        WakeTier::TextInject => "tier 3 (text inject)",
    }
}

/// The agents the observer watches, with how each is woken.
pub fn fleet_roster() -> (r: Vec<(&'static str, WakeTier)>)
    ensures
        r@.len() == 7,
        forall|i: int| 0 <= i < 7 ==> #[trigger] r@[i].1 == WakeTier::TextInject,
        r@.map_values(|a: (&'static str, WakeTier)| a.0@) == seq![
            "aleph"@,
            "thales"@,
            "hypatia"@,
            "luban"@,
            "ogma"@,
            "laozi-jung"@,
            "mataya"@,
        ],
{
    let r = vec![
        ("aleph", WakeTier::TextInject),
        ("thales", WakeTier::TextInject),
        ("hypatia", WakeTier::TextInject),
        ("luban", WakeTier::TextInject),
        ("ogma", WakeTier::TextInject),
        ("laozi-jung", WakeTier::TextInject),
        ("mataya", WakeTier::TextInject),
    ];
    assert(r@.map_values(|a: (&'static str, WakeTier)| a.0@) =~= seq![
        "aleph"@,
        "thales"@,
        "hypatia"@,
        "luban"@,
        "ogma"@,
        "laozi-jung"@,
        "mataya"@,
    ]);
    r
}

/// What is typed into a terminal to wake its agent.
pub fn wake_message() -> (r: &'static str)
    ensures
        r@ == "You have new messages. Call check_messages to read and respond."@,
{
    "You have new messages. Call check_messages to read and respond."
}

/// Texts on a terminal screen that show its agent is busy.
pub open spec fn busy_patterns() -> Seq<Seq<char>> {
    seq![
        "\u{280b}"@, "\u{2819}"@, "\u{2839}"@, "\u{2838}"@, "\u{283c}"@, "\u{2834}"@, "\u{2826}"@, "\u{2827}"@,
        "\u{2807}"@, "\u{280f}"@, "Thinking..."@, "Running..."@, "Generating"@, "Streaming"@, "\u{25b0}\u{25b0}"@,
    ]
}

/// Whether the screen shows a busy pattern (then the wake is skipped).
pub fn looks_busy(screen: &str) -> (b: bool)
    ensures
        b == exists|i: int| 0 <= i < busy_patterns().len() && contains_spec(screen@, #[trigger] busy_patterns()[i]),
{
    let pats = vec![
        "\u{280b}", "\u{2819}", "\u{2839}", "\u{2838}", "\u{283c}", "\u{2834}", "\u{2826}", "\u{2827}", "\u{2807}",
        "\u{280f}", "Thinking...", "Running...", "Generating", "Streaming", "\u{25b0}\u{25b0}",
    ];
    assert(pats@.map_values(|p: &str| p@) =~= busy_patterns());
    let mut i: usize = 0;
    while i < pats.len()
        invariant
            i <= pats@.len(),
            pats@.map_values(|p: &str| p@) == busy_patterns(),
            forall|j: int| 0 <= j < i ==> !contains_spec(screen@, #[trigger] busy_patterns()[j]),
        decreases pats@.len() - i,
    {
        assert(busy_patterns()[i as int] == pats@[i as int]@);
        if contains_str(screen, pats[i]) {
            return true;
        }
        i = i + 1;
    }
    false
}

/// The text asking a stale agent to save its work and exit.
pub open spec fn graceful_heal_text(agent: Seq<char>) -> Seq<char> {
    "OBSERVER AUTO-HEAL: Your MCP session appears broken ("@ + agent
        + " has had unread messages for 5+ minutes). Please save your work, write your handoff file via 'am-fleet handoff "@
        + agent
        + "', then exit. You will be restarted automatically. If you do not exit within 2 minutes, your session will be force-killed."@
}

/// The text asking a stale agent to save its work and exit.
pub fn graceful_heal_message(agent: &str) -> (r: String)
    ensures
        r@ == graceful_heal_text(agent@),
{
    let mut r = String::from_str("OBSERVER AUTO-HEAL: Your MCP session appears broken (");
    r.append(agent);
    r.append(
        " has had unread messages for 5+ minutes). Please save your work, write your handoff file via 'am-fleet handoff ",
    );
    r.append(agent);
    r.append(
        "', then exit. You will be restarted automatically. If you do not exit within 2 minutes, your session will be force-killed.",
    );
    r
}

/// The subject of the alert about a stale session.
pub fn stale_alert_subject(agent: &str) -> (r: String)
    ensures
        r@ == "am.observer.stale-session \u{2014} "@ + agent@,
{
    let mut r = String::from_str("am.observer.stale-session \u{2014} ");
    r.append(agent);
    r
}

/// The body of the alert about a stale session.
pub open spec fn stale_alert_text(agent: Seq<char>, unread: nat, consecutive: nat) -> Seq<char> {
    "STALE SESSION ALERT: **"@ + agent + "** has had "@ + decimal_spec(unread) + " unread message(s) for "@
        + decimal_spec(consecutive) + " consecutive poll cycles (~"@ + decimal_spec(consecutive)
        + " minutes) without clearing them.\n\nThe agent's session may be broken (stale MCP connection, hung process, or unresponsive runtime).\n\n**Action required:** Check the agent's cmux workspace and restart if needed.\n\n\u{2014} council-observer (automated)"@
}

/// The body of the alert about a stale session.
pub fn stale_alert_content(agent: &str, unread: u64, consecutive: u32) -> (r: String)
    ensures
        r@ == stale_alert_text(agent@, unread as nat, consecutive as nat),
{
    let mut r = String::from_str("STALE SESSION ALERT: **");
    r.append(agent);
    r.append("** has had ");
    let u = decimal_u64(unread);
    r.append(u.as_str());
    r.append(" unread message(s) for ");
    let c = decimal_u64(consecutive as u64);
    r.append(c.as_str());
    r.append(" consecutive poll cycles (~");
    r.append(c.as_str());
    r.append(
        " minutes) without clearing them.\n\nThe agent's session may be broken (stale MCP connection, hung process, or unresponsive runtime).\n\n**Action required:** Check the agent's cmux workspace and restart if needed.\n\n\u{2014} council-observer (automated)",
    );
    r
}

/// `v` is the reference of the last listed workspace titled `t`.
pub open spec fn last_listed(w: Seq<(String, String)>, t: Seq<char>, v: Seq<char>) -> bool {
    exists|k: int| 0 <= k < w.len() && w[k].0@ == t && w[k].1@ == v && forall|m: int| k < m < w.len() ==> #[trigger] w[m].0@ != t
}

/// Workspace references of the agents, by workspace title.
pub struct WorkspaceCache {
    refs: StrMap<String>,
}

impl WorkspaceCache {
    /// The reference of each workspace, by title.
    pub closed spec fn refs_view(&self) -> Map<Seq<char>, Seq<char>> {
        self.refs@.map_values(|r: String| r@)
    }

    pub closed spec fn wf(&self) -> bool {
        self.refs.wf()
    }

    pub fn new() -> (c: Self)
        ensures
            c.wf(),
            c.refs_view() == Map::<Seq<char>, Seq<char>>::empty(),
    {
        let c = WorkspaceCache { refs: StrMap::new() };
        assert(c.refs_view() =~= Map::<Seq<char>, Seq<char>>::empty());
        c
    }

    /// Replaces the cache by the listed workspaces (title, reference); a
    /// title listed twice keeps its last reference.
    pub fn refresh_from(&mut self, workspaces: Vec<(String, String)>)
        ensures
            final(self).wf(),
            forall|t: Seq<char>| #[trigger] final(self).refs_view().dom().contains(t) <==> exists|i: int|
                0 <= i < workspaces@.len() && workspaces@[i].0@ == t,
            forall|t: Seq<char>| #[trigger] final(self).refs_view().dom().contains(t) ==> last_listed(
                workspaces@,
                t,
                final(self).refs_view()[t],
            ),
    {
        let mut refs: StrMap<String> = StrMap::new();
        let mut i: usize = 0;
        while i < workspaces.len()
            invariant
                refs.wf(),
                i <= workspaces@.len(),
                forall|t: Seq<char>| #[trigger] refs@.dom().contains(t) <==> exists|j: int|
                    0 <= j < i && workspaces@[j].0@ == t,
                forall|t: Seq<char>| #[trigger] refs@.dom().contains(t) ==> last_listed(
                    workspaces@.take(i as int),
                    t,
                    refs@[t]@,
                ),
            decreases workspaces@.len() - i,
        {
            let title = workspaces[i].0.as_str();
            let r = workspaces[i].1.clone();
            refs.insert(title, r);
            proof {
                assert forall|t: Seq<char>| #[trigger] refs@.dom().contains(t) <==> exists|j: int|
                    0 <= j < i + 1 && workspaces@[j].0@ == t by {
                    if t == workspaces@[i as int].0@ {
                        assert(0 <= i < i + 1 && workspaces@[i as int].0@ == t);
                    }
                }
                let w = workspaces@.take(i as int + 1);
                assert forall|t: Seq<char>| #[trigger] refs@.dom().contains(t) implies last_listed(w, t, refs@[t]@) by {
                    if t == workspaces@[i as int].0@ {
                        assert(w[i as int] == workspaces@[i as int]);
                    } else {
                        let k = choose|k: int| 0 <= k < i && workspaces@.take(i as int)[k].0@ == t && workspaces@.take(
                            i as int,
                        )[k].1@ == refs@[t]@ && forall|m: int|
                            k < m < i ==> #[trigger] workspaces@.take(i as int)[m].0@ != t;
                        assert(w[k] == workspaces@.take(i as int)[k]);
                        assert forall|m: int| k < m < i + 1 implies #[trigger] w[m].0@ != t by {
                            if m < i {
                                assert(w[m] == workspaces@.take(i as int)[m]);
                            }
                        }
                    }
                }
            }
            i = i + 1;
        }
        self.refs = refs;
        assert(workspaces@.take(i as int) =~= workspaces@);
    }

    /// The workspace reference of `agent`.
    pub fn get(&self, agent: &str) -> (r: Option<String>)
        requires
            self.wf(),
        ensures
            match r {
                Some(s) => self.refs_view().dom().contains(agent@) && s@ == self.refs_view()[agent@],
                None => !self.refs_view().dom().contains(agent@),
            },
    {
        match self.refs.get(agent) {
            Some(s) => Some(s.clone()),
            None => None,
        }
    }
}

/// `s` without its leading `*` characters.
pub open spec fn strip_stars(s: Seq<char>) -> Seq<char>
    decreases s.len(),
{
    if s.len() > 0 && s[0] == '*' {
        strip_stars(s.drop_first())
    } else {
        s
    }
}

/// The surface reference a line of the pane listing names, if any: the
/// line trimmed, stripped of a selection `*`, trimmed again, starting with
/// `surface:`; its first word.
pub open spec fn surface_of_line(l: Seq<char>) -> Option<Seq<char>> {
    let t = trim_spec(strip_stars(trim_spec(l)));
    if occurs_at(t, "surface:"@, 0) && words_spec(t).len() > 0 {
        Some(words_spec(t)[0])
    } else {
        None
    }
}

/// The first surface reference among `lines`.
pub open spec fn first_surface(lines: Seq<Seq<char>>) -> Option<Seq<char>>
    decreases lines.len(),
{
    if lines.len() == 0 {
        None
    } else {
        match surface_of_line(lines[0]) {
            Some(r) => Some(r),
            None => first_surface(lines.drop_first()),
        }
    }
}

fn strip_stars_exec(s: &str) -> (r: String)
    ensures
        r@ == strip_stars(s@),
{
    let v = to_chars(s);
    let mut i: usize = 0;
    assert(v@.skip(0) =~= v@);
    while i < v.len() && v[i] == '*'
        invariant
            i <= v@.len(),
            strip_stars(v@.skip(i as int)) == strip_stars(v@),
        decreases v@.len() - i,
    {
        assert(v@.skip(i as int).drop_first() =~= v@.skip(i + 1));
        i = i + 1;
    }
    let r = string_of(&v, i, v.len());
    assert(r@ =~= v@.skip(i as int));
    r
}

/// The first terminal surface in the output of a pane-surface listing.
pub fn terminal_surface_of(output: &str) -> (r: Option<String>)
    ensures
        match r {
            Some(s) => first_surface(lines_spec(output@)) == Some(s@),
            None => first_surface(lines_spec(output@)) is None,
        },
{
    let ls = lines(output);
    let ghost all = ls.deep_view();
    assert(all.skip(0) =~= all);
    let mut i: usize = 0;
    while i < ls.len()
        invariant
            all == ls.deep_view(),
            all == lines_spec(output@),
            i <= all.len(),
            first_surface(all.skip(i as int)) == first_surface(all),
        decreases all.len() - i,
    {
        assert(all.skip(i as int)[0] == ls@[i as int]@);
        assert(all.skip(i as int).drop_first() =~= all.skip(i + 1));
        let t1 = trim(ls[i].as_str());
        let t2 = strip_stars_exec(t1.as_str());
        let t3 = trim(t2.as_str());
        if starts_with_str(t3.as_str(), "surface:") {
            let words = split_whitespace(t3.as_str());
            if words.len() > 0 {
                assert(words.deep_view()[0] == words@[0]@);
                return Some(words[0].clone());
            }
        }
        i = i + 1;
    }
    assert(all.skip(i as int) =~= Seq::<Seq<char>>::empty());
    None
}

proof fn lemma_pow2_mono(a: nat, b: nat)
    requires
        a <= b,
    ensures
        1 <= pow2(a) <= pow2(b),
    decreases b,
{
    if b > 0 {
        if a == b {
            lemma_pow2_mono((b - 1) as nat, (b - 1) as nat);
        } else {
            lemma_pow2_mono(a, (b - 1) as nat);
        }
    }
}

/// The cooldown never exceeds the maximum backoff and never shrinks as
/// the backoff level grows.
pub proof fn lemma_cooldown_bounded_and_monotone(base: u64, l1: u32, l2: u32)
    requires
        l1 <= l2,
    ensures
        cooldown_secs(base, l1) <= MAX_BACKOFF_SECS,
        cooldown_secs(base, l1) <= cooldown_secs(base, l2),
        l1 == 0 ==> cooldown_secs(base, l1) == (if base > MAX_BACKOFF_SECS { MAX_BACKOFF_SECS as int } else { base as int }),
{
    let a: nat = if l1 < 6 { l1 as nat } else { 6 };
    let b: nat = if l2 < 6 { l2 as nat } else { 6 };
    lemma_pow2_mono(a, b);
    assert(base * pow2(a) <= base * pow2(b)) by (nonlinear_arith)
        requires
            pow2(a) <= pow2(b),
    ;
    if l1 == 0 {
        assert(pow2(0) == 1);
        assert(multiplier(l1) == 1);
        assert(base * 1 == base) by (nonlinear_arith);
    }
}

/// A session stale for more cycles is never in an earlier heal phase:
/// healthy below the graceful threshold, graceful until the force
/// threshold, force-healed from there on.
pub proof fn lemma_phase_escalates(c1: int, c2: int)
    requires
        c1 <= c2,
    ensures
        phase_of(c1) == HealPhase::ForceHealed ==> phase_of(c2) == HealPhase::ForceHealed,
        phase_of(c1) == HealPhase::GracefulPending ==> phase_of(c2) != HealPhase::Healthy,
        phase_of(GRACEFUL_THRESHOLD as int) == HealPhase::GracefulPending,
        phase_of(FORCE_THRESHOLD as int) == HealPhase::ForceHealed,
{
}

/// Clearing an agent's inbox brings its stale count back to zero.
pub proof fn lemma_clear_resets(t0: StaleSessionTracker, t1: StaleSessionTracker, agent: Seq<char>)
    requires
        t1.counts() == t0.counts().remove(agent),
    ensures
        t1.count_of(agent) == 0,
{
}

proof fn lemma_levels_count(ts: Seq<CooldownTracker>, agent: Seq<char>, k: int)
    requires
        1 <= ts.len() <= u32::MAX as int + 1,
        ts[0].level_of(agent) == 0,
        forall|i: int| 0 <= i < ts.len() - 1 ==> (#[trigger] ts[i + 1]).levels() == ts[i].levels().insert(
            agent,
            (ts[i].level_of(agent) + 1) as u32,
        ) && ts[i + 1].base() == ts[i].base(),
        0 <= k < ts.len(),
    ensures
        ts[k].level_of(agent) == k,
        ts[k].base() == ts[0].base(),
    decreases k,
{
    if k > 0 {
        lemma_levels_count(ts, agent, k - 1);
        assert(ts[k].levels() == ts[k - 1].levels().insert(agent, (ts[k - 1].level_of(agent) + 1) as u32));
    }
}

/// Capped doubling: after `n` unanswered wakes of `agent` since its backoff
/// was last reset (or since the tracker was made), each raising its level
/// by one (`increase_backoff`), the cooldown is
/// `min(base * 2^min(n, 6), MAX_BACKOFF_SECS)` seconds.
pub proof fn lemma_cooldown_after_misses(ts: Seq<CooldownTracker>, agent: Seq<char>)
    requires
        1 <= ts.len() <= u32::MAX as int + 1,
        ts[0].level_of(agent) == 0,
        forall|i: int| 0 <= i < ts.len() - 1 ==> (#[trigger] ts[i + 1]).levels() == ts[i].levels().insert(
            agent,
            (ts[i].level_of(agent) + 1) as u32,
        ) && ts[i + 1].base() == ts[i].base(),
    ensures
        ts.last().level_of(agent) == ts.len() - 1,
        ({
            let n: nat = (ts.len() - 1) as nat;
            let full = ts[0].base() * pow2(if n < 6 { n } else { 6 });
            cooldown_secs(ts.last().base(), ts.last().level_of(agent)) == if full > MAX_BACKOFF_SECS {
                MAX_BACKOFF_SECS as int
            } else {
                full
            }
        }),
{
    lemma_levels_count(ts, agent, ts.len() - 1);
}

} // verus!
