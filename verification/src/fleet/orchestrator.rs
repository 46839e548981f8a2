//! The fleet orchestrator's decisions: the state of an agent from what a
//! poll found about it, and what to do about that state.

use vstd::prelude::*;
use crate::crypto::nonce::elapsed;
use crate::text::{decimal_spec, decimal_u64, replace_spec, replace_str, str_eq};

verus! {

/// Below this age (s) of its last message an agent is working.
pub const IDLE_THRESHOLD_SECS: u64 = 300;

/// From this age (s) of its last message on an agent is stuck.
pub const STUCK_THRESHOLD_SECS: u64 = 900;

/// An agent waiting for a human longer than this (s) is escalated.
pub const WAITING_ESCALATE_SECS: u64 = 1800;

/// The least time between two escalations about an agent, in nanoseconds (1 h).
pub const ESCALATION_COOLDOWN_NS: u128 = 3_600_000_000_000;

/// The state of an agent, as the orchestrator sees it.
#[derive(Debug, Clone, Copy, PartialEq, Eq, Structural)]
pub enum AgentState {
    Working,
    Idle,
    Waiting,
    Stuck,
    Dead,
    Skip,
    Unknown,
}

/// The upper-case name of a state.
pub open spec fn state_name(s: AgentState) -> Seq<char> {
    match s {
        AgentState::Working => "WORKING"@,
        AgentState::Idle => "IDLE"@,
        AgentState::Waiting => "WAITING"@,
        AgentState::Stuck => "STUCK"@,
        AgentState::Dead => "DEAD"@,
        AgentState::Skip => "SKIP"@,
        AgentState::Unknown => "UNKNOWN"@,
    }
}

impl AgentState {
    /// The upper-case name, as shown on the dashboard.
    pub fn as_str(&self) -> (r: &'static str)
        ensures
            r@ == state_name(*self),
    {
        match self {
            AgentState::Working => "WORKING",
            AgentState::Idle => "IDLE",
            AgentState::Waiting => "WAITING",
            AgentState::Stuck => "STUCK",
            AgentState::Dead => "DEAD",
            AgentState::Skip => "SKIP",
            AgentState::Unknown => "UNKNOWN",
        }
    }
}

/// The state of an agent from a poll: skipped when its session is not
/// launched, dead when its process is not running, waiting when it asked a
/// human, else by the age (s) of its last message (none known counts as
/// the oldest): working, idle, or stuck.
pub open spec fn agent_state_of(skip: bool, alive: bool, waiting_for_human: bool, age_secs: Option<u64>) -> AgentState {
    if skip {
        AgentState::Skip
    } else if !alive {
        AgentState::Dead
    } else if waiting_for_human {
        AgentState::Waiting
    } else {
        let age: u64 = match age_secs {
            Some(a) => a,
            None => u64::MAX,
        };
        if age < IDLE_THRESHOLD_SECS {
            AgentState::Working
        } else if age < STUCK_THRESHOLD_SECS {
            AgentState::Idle
        } else {
            AgentState::Stuck
        }
    }
}

/// The state of an agent from a poll (see `agent_state_of`).
pub fn classify_agent(skip: bool, alive: bool, waiting_for_human: bool, age_secs: Option<u64>) -> (s: AgentState)
    ensures
        s == agent_state_of(skip, alive, waiting_for_human, age_secs),
{
    if skip {
        return AgentState::Skip;
    }
    if !alive {
        return AgentState::Dead;
    }
    if waiting_for_human {
        return AgentState::Waiting;
    }
    let age: u64 = match age_secs {
        Some(a) => a,
        None => u64::MAX,
    };
    if age < IDLE_THRESHOLD_SECS {
        AgentState::Working
    } else if age < STUCK_THRESHOLD_SECS {
        AgentState::Idle
    } else {
        AgentState::Stuck
    }
}

/// How the process of an agent's runtime is looked for.
#[derive(Debug, Clone, Copy)]
pub enum Liveness {
    /// The runtime cannot be checked; the agent counts as alive.
    Assumed,
    /// A process whose command line matches the pattern.
    Process(&'static str),
    /// No way to find the process; the agent counts as dead.
    Unknown,
}

/// The process pattern of each runtime that has one.
pub open spec fn liveness_of(runtime: Seq<char>) -> Liveness {
    if runtime == "manual"@ {
        Liveness::Assumed
    } else if runtime == "kimi"@ {
        Liveness::Process("Kimi Code")
    } else if runtime == "opencode"@ {
        Liveness::Process("opencode-ai")
    } else if runtime == "codex"@ {
        Liveness::Process("codex")
    } else {
        Liveness::Unknown
    }
}

/// How the process of a runtime is looked for (see `liveness_of`).
pub fn liveness_probe(runtime: &str) -> (l: Liveness)
    ensures
        match (l, liveness_of(runtime@)) {
            (Liveness::Process(p), Liveness::Process(q)) => p@ == q@,
            (a, b) => a == b,
        },
{
    if str_eq(runtime, "manual") {
        Liveness::Assumed
    } else if str_eq(runtime, "kimi") {
        Liveness::Process("Kimi Code")
    } else if str_eq(runtime, "opencode") {
        Liveness::Process("opencode-ai")
    } else if str_eq(runtime, "codex") {
        Liveness::Process("codex")
    } else {
        Liveness::Unknown
    }
}

/// An agent waits for a human when one of the human's unread messages,
/// given as (sender, intent), is a request from it.
pub open spec fn waits_for_human(msgs: Seq<(String, String)>, agent: Seq<char>) -> bool {
    exists|i: int| 0 <= i < msgs.len() && (#[trigger] msgs[i]).0@ == agent && msgs[i].1@ == "request"@
}

/// Whether `agent` waits for the human (see `waits_for_human`).
pub fn waiting_for_human(msgs: &Vec<(String, String)>, agent: &str) -> (b: bool)
    ensures
        b == waits_for_human(msgs@, agent@),
{
    let mut i: usize = 0;
    while i < msgs.len()
        invariant
            i <= msgs@.len(),
            forall|j: int| 0 <= j < i ==> !((#[trigger] msgs@[j]).0@ == agent@ && msgs@[j].1@ == "request"@),
        decreases msgs@.len() - i,
    {
        if str_eq(msgs[i].0.as_str(), agent) && str_eq(msgs[i].1.as_str(), "request") {
            return true;
        }
        i = i + 1;
    }
    false
}

/// Messages with these intents are tasks for their recipient.
pub fn is_task_intent(intent: &str) -> (b: bool)
    ensures
        b == (intent@ == "request"@ || intent@ == "discuss"@),
{
    str_eq(intent, "request") || str_eq(intent, "discuss")
}

/// The server and the council chamber are no agents of the fleet.
pub fn is_fleet_agent(name: &str) -> (b: bool)
    ensures
        b == (name@ != "_server"@ && name@ != "council-chamber"@),
{
    !str_eq(name, "_server") && !str_eq(name, "council-chamber")
}

/// `reason` quoted for an AppleScript string: backslashes doubled, then
/// quotes escaped.
pub open spec fn applescript_quoted(reason: Seq<char>) -> Seq<char> {
    replace_spec(replace_spec(reason, "\\"@, "\\\\"@), "\""@, "\\\""@)
}

/// The AppleScript that shows an escalation banner about `agent`.
pub fn notification_script(agent: &str, reason: &str) -> (r: String)
    ensures
        r@ == "display notification \""@ + agent@ + "\" with title \"Fleet: "@ + applescript_quoted(reason@) + "\""@,
{
    proof {
        reveal_strlit("\\");
        reveal_strlit("\"");
    }
    let a = replace_str(reason, "\\", "\\\\");
    let msg = replace_str(a.as_str(), "\"", "\\\"");
    let mut r = String::from_str("display notification \"");
    r.append(agent);
    r.append("\" with title \"Fleet: ");
    r.append(msg.as_str());
    r.append("\"");
    r
}

/// What the orchestrator knows of an agent between polls. Wall-clock times
/// are in nanoseconds since the Unix epoch, the escalation time in
/// nanoseconds of the orchestrator's monotonic clock.
#[derive(Debug)]
pub struct AgentInfo {
    pub state: AgentState,
    pub task: Option<String>,
    pub waiting_since: Option<u64>,
    pub last_escalation: Option<u128>,
}

impl AgentInfo {
    /// An agent not yet polled.
    pub fn new() -> (i: Self)
        ensures
            i.state == AgentState::Unknown,
            i.task is None,
            i.waiting_since is None,
            i.last_escalation is None,
    {
        AgentInfo { state: AgentState::Unknown, task: None, waiting_since: None, last_escalation: None }
    }
}

/// What to do about an agent after a poll.
#[derive(Debug)]
pub enum Action {
    Nothing,
    /// Show an escalation banner with this reason.
    Escalate(String),
    /// A task from `from` waits for the idle agent.
    Dispatch { from: String, subject: String },
}

/// An escalation about an agent is allowed at `now` (monotonic ns): none
/// yet, or the last one more than the cooldown ago.
pub open spec fn may_escalate(last: Option<u128>, now: u128) -> bool {
    match last {
        None => true,
        Some(t) => elapsed(now, t) > ESCALATION_COOLDOWN_NS,
    }
}

/// The reason given for a dead session.
pub open spec fn dead_reason() -> Seq<char> {
    "Session dead \u{2014} manual restart needed"@
}

/// The reason given for a stuck agent.
pub open spec fn stuck_reason() -> Seq<char> {
    "Unresponsive for >15min"@
}

/// The reason given for an agent waiting `minutes` for the human.
pub open spec fn waiting_reason(minutes: nat) -> Seq<char> {
    "Waiting for Proteus input for "@ + decimal_spec(minutes) + "+ minutes"@
}

/// The whole seconds an agent has waited at `now` (wall-clock ns).
pub open spec fn waited_secs(since: u64, now: u64) -> nat {
    if now >= since { ((now - since) / 1_000_000_000) as nat } else { 0 }
}

fn may_escalate_exec(last: Option<u128>, now: u128) -> (b: bool)
    ensures
        b == may_escalate(last, now),
{
    match last {
        None => true,
        Some(t) => {
            let e: u128 = if now >= t { now - t } else { 0 };
            e > ESCALATION_COOLDOWN_NS
        },
    }
}

/// Acts on the state an agent was found in at wall-clock time `wall_now`
/// and monotonic time `mono_now`; `first_task` is the first pending task
/// (sender, subject), looked up for working and idle agents.
///
/// A dead agent is escalated at every poll; a stuck one, and one waiting
/// for the human more than `WAITING_ESCALATE_SECS`, at most once per
/// cooldown. An idle agent's task becomes the first pending one (none when
/// there is none), which is dispatched; a working agent's task becomes the
/// first pending one when there is one. Working and idle agents wait for
/// nobody; a waiting agent waits from the first poll that found it waiting.
pub fn orchestrate(
    info: &mut AgentInfo,
    state: AgentState,
    wall_now: u64,
    mono_now: u128,
    first_task: Option<(String, String)>,
) -> (a: Action)
    ensures
        final(info).state == state,
        match state {
            AgentState::Dead => {
                &&& a matches Action::Escalate(r) && r@ == dead_reason()
                &&& final(info).task == old(info).task
                &&& final(info).waiting_since == old(info).waiting_since
                &&& final(info).last_escalation == old(info).last_escalation
            },
            AgentState::Stuck => {
                &&& final(info).task == old(info).task
                &&& final(info).waiting_since == old(info).waiting_since
                &&& if may_escalate(old(info).last_escalation, mono_now) {
                    &&& a matches Action::Escalate(r) && r@ == stuck_reason()
                    &&& final(info).last_escalation == Some(mono_now)
                } else {
                    &&& a is Nothing
                    &&& final(info).last_escalation == old(info).last_escalation
                }
            },
            AgentState::Waiting => {
                let since: u64 = match old(info).waiting_since {
                    Some(t) => t,
                    None => wall_now,
                };
                &&& final(info).task == old(info).task
                &&& final(info).waiting_since == Some(since)
                &&& if waited_secs(since, wall_now) > WAITING_ESCALATE_SECS && may_escalate(
                    old(info).last_escalation,
                    mono_now,
                ) {
                    &&& a matches Action::Escalate(r) && r@ == waiting_reason(waited_secs(since, wall_now) / 60)
                    &&& final(info).last_escalation == Some(mono_now)
                } else {
                    &&& a is Nothing
                    &&& final(info).last_escalation == old(info).last_escalation
                }
            },
            AgentState::Idle => {
                &&& final(info).waiting_since is None
                &&& final(info).last_escalation == old(info).last_escalation
                &&& match first_task {
                    Some(t) => {
                        &&& final(info).task matches Some(s) && s@ == t.1@
                        &&& a matches Action::Dispatch { from, subject } && from@ == t.0@ && subject@ == t.1@
                    },
                    None => final(info).task is None && a is Nothing,
                }
            },
            AgentState::Working => {
                &&& final(info).waiting_since is None
                &&& final(info).last_escalation == old(info).last_escalation
                &&& a is Nothing
                &&& match first_task {
                    Some(t) => final(info).task matches Some(s) && s@ == t.1@,
                    None => final(info).task == old(info).task,
                }
            },
            _ => {
                &&& a is Nothing
                &&& final(info).task == old(info).task
                &&& final(info).waiting_since == old(info).waiting_since
                &&& final(info).last_escalation == old(info).last_escalation
            },
        },
{
    info.state = state;
    match state {
        AgentState::Dead => Action::Escalate(String::from_str("Session dead \u{2014} manual restart needed")),
        AgentState::Stuck => {
            if may_escalate_exec(info.last_escalation, mono_now) {
                info.last_escalation = Some(mono_now);
                Action::Escalate(String::from_str("Unresponsive for >15min"))
            } else {
                Action::Nothing
            }
        },
        AgentState::Waiting => {
            let since: u64 = match info.waiting_since {
                Some(t) => t,
                None => wall_now,
            };
            info.waiting_since = Some(since);
            let waited: u64 = if wall_now >= since { wall_now - since } else { 0 };
            let secs: u64 = waited / 1_000_000_000;
            if secs > WAITING_ESCALATE_SECS && may_escalate_exec(info.last_escalation, mono_now) {
                info.last_escalation = Some(mono_now);
                let minutes: u64 = secs / 60;
                let mut r = String::from_str("Waiting for Proteus input for ");
                let m = decimal_u64(minutes);
                r.append(m.as_str());
                r.append("+ minutes");
                Action::Escalate(r)
            } else {
                Action::Nothing
            }
        },
        AgentState::Idle => {
            info.waiting_since = None;
            match first_task {
                Some(t) => {
                    info.task = Some(t.1.clone());
                    Action::Dispatch { from: t.0, subject: t.1 }
                },
                None => {
                    info.task = None;
                    Action::Nothing
                },
            }
        },
        AgentState::Working => {
            info.waiting_since = None;
            match first_task {
                Some(t) => {
                    info.task = Some(t.1);
                },
                None => {},
            }
            Action::Nothing
        },
        _ => Action::Nothing,
    }
}

/// An agent escalated at `t` is not escalated again within the cooldown:
/// the orchestrator's escalation rule refuses any time from `t` up to the
/// cooldown later.
pub proof fn lemma_no_escalation_within_cooldown(t: u128, now: u128)
    requires
        t <= now <= t + ESCALATION_COOLDOWN_NS,
    ensures
        !may_escalate(Some(t), now),
{
}

/// Once the cooldown has passed, a stuck agent is escalated again.
pub proof fn lemma_escalation_after_cooldown(t: u128, now: u128)
    requires
        now > t + ESCALATION_COOLDOWN_NS,
    ensures
        may_escalate(Some(t), now),
{
}

} // verus!
