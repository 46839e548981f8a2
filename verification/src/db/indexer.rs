//! The indexer: materializes events into queryable in-memory views.

use vstd::prelude::*;
use crate::db::models::{
    Agent, Artifact, Decision, DecisionStatus, Message, Thread, ThreadStatus, copy_opt_string,
    copy_options, same_options,
};
use crate::events::schema::{
    AgentStatus, ArtifactEvent, DecisionEvent, EventEnvelope, EventPayload, MessageEvent,
    StatusEvent, TaskEvent, Timestamp,
};
use crate::strmap::{StrMap, lists_exactly};
use crate::text::{copy_strings, str_eq};

verus! {

/// The thread a message belongs to: its own thread id, or, when it opens a
/// new conversation, the id of the event that carries it.
pub open spec fn thread_key(e: EventEnvelope, m: MessageEvent) -> Seq<char> {
    match m.thread_id {
        Some(t) => t@,
        None => e.id@,
    }
}

/// `ps` with `p` added at the end unless already present.
pub open spec fn with_participant(ps: Seq<Seq<char>>, p: Seq<char>) -> Seq<Seq<char>> {
    if ps.contains(p) { ps } else { ps.push(p) }
}

/// `t` is the thread `key` after message `m` of time `ts`, given what was
/// stored under `key` before (if anything).
pub open spec fn thread_after_message(
    before: Option<Thread>,
    t: Thread,
    key: Seq<char>,
    m: MessageEvent,
    ts: Timestamp,
) -> bool {
    &&& t.id@ == key
    &&& t.updated_at == ts
    &&& match before {
        None => {
            &&& t.subject@ == m.subject@
            &&& t.participants.deep_view() == with_participant(seq![m.from@], m.to@)
            &&& t.created_at == ts
            &&& t.message_count == 1
            &&& t.status == ThreadStatus::Active
        },
        Some(o) => {
            &&& t.subject@ == o.subject@
            &&& t.participants.deep_view()
                == with_participant(with_participant(o.participants.deep_view(), m.from@), m.to@)
            &&& t.created_at == o.created_at
            &&& t.message_count == o.message_count + 1
            &&& t.status == o.status
        },
    }
}

/// `msg` is the record of message event `e` carrying `m`.
pub open spec fn message_of_event(msg: Message, e: EventEnvelope, m: MessageEvent) -> bool {
    &&& msg.id@ == e.id@
    &&& msg.thread_id@ == thread_key(e, m)
    &&& msg.from@ == m.from@
    &&& msg.to@ == m.to@
    &&& msg.subject@ == m.subject@
    &&& msg.content@ == m.content@
    &&& msg.priority == m.priority
    &&& msg.intent == m.intent
    &&& msg.expected_response == m.expected_response
    &&& msg.require_ack == m.require_ack
    &&& msg.created_at == e.timestamp
    &&& msg.read_by@.len() == 0
    &&& msg.claimed_source_model.deep_view() == m.claimed_source_model.deep_view()
    &&& msg.claimed_source_runtime.deep_view() == m.claimed_source_runtime.deep_view()
    &&& msg.claimed_source_mode.deep_view() == m.claimed_source_mode.deep_view()
    &&& msg.verified_source_model.deep_view() == m.verified_source_model.deep_view()
    &&& msg.verified_source_runtime.deep_view() == m.verified_source_runtime.deep_view()
    &&& msg.verified_source_mode.deep_view() == m.verified_source_mode.deep_view()
    &&& msg.source_worktree.deep_view() == m.source_worktree.deep_view()
    &&& msg.source_session_id.deep_view() == m.source_session_id.deep_view()
    &&& msg.provenance_level == m.provenance_level
    &&& msg.provenance_issuer.deep_view() == m.provenance_issuer.deep_view()
}

/// `art` is the record of artifact event `e` carrying `a`.
pub open spec fn artifact_of_event(art: Artifact, e: EventEnvelope, a: ArtifactEvent) -> bool {
    &&& art.id@ == e.id@
    &&& art.path@ == a.path@
    &&& art.description@ == a.description@
    &&& art.checksum@ == a.checksum@
    &&& art.shared_by@ == e.agent_id@
    &&& art.shared_at == e.timestamp
    &&& art.thread_id is None
    &&& art.source_url.deep_view() == a.source_url.deep_view()
    &&& art.fetch_timestamp == a.fetch_timestamp
    &&& art.content_hash_sha256.deep_view() == a.content_hash_sha256.deep_view()
    &&& art.processor_version.deep_view() == a.processor_version.deep_view()
}

/// `dec` is the record of decision event `e` carrying `d`.
pub open spec fn decision_of_event(dec: Decision, e: EventEnvelope, d: DecisionEvent) -> bool {
    &&& dec.id@ == e.id@
    &&& dec.thread_id is None
    &&& dec.title@ == d.title@
    &&& dec.context@ == d.context@
    &&& same_options(dec.options@, d.options@)
    &&& dec.chosen == d.chosen
    &&& dec.rationale@ == d.rationale@
    &&& dec.status == DecisionStatus::Pending
    &&& dec.created_at == e.timestamp
    &&& dec.recorded_by@ == e.agent_id@
}

/// `a` is a newly registered agent `id`, first seen at `ts`.
pub open spec fn fresh_agent(a: Agent, id: Seq<char>, ts: Timestamp) -> bool {
    &&& a.id@ == id
    &&& a.display_name@ == id
    &&& a.status == AgentStatus::Available
    &&& a.current_task is None
    &&& a.last_seen == ts
}

/// `new` is `old` with every agent of `ids` registered (fresh, at `ts`)
/// unless already known.
pub open spec fn agents_registered(
    old: Map<Seq<char>, Agent>,
    new: Map<Seq<char>, Agent>,
    ids: Set<Seq<char>>,
    ts: Timestamp,
) -> bool {
    &&& new.dom() == old.dom().union(ids)
    &&& forall|k: Seq<char>| #[trigger] old.dom().contains(k) ==> new[k] == old[k]
    &&& forall|k: Seq<char>| ids.contains(k) && !old.dom().contains(k) ==> fresh_agent(#[trigger] new[k], k, ts)
}

/// Message `m` is addressed to `agent`, directly or to everyone.
pub open spec fn addressed_to(m: Message, agent: Seq<char>) -> bool {
    m.to@ == agent || m.to@ == "all"@ || m.to@ == "council"@
}

/// Message `m` is addressed by name to agent `a` (not to "all" or "council").
pub open spec fn named_recipient(m: Message, a: Seq<char>) -> bool {
    m.to@ == a && a != "all"@ && a != "council"@
}

/// The agents that some stored message is addressed to by name.
pub open spec fn recipients(msgs: Map<Seq<char>, Message>) -> Set<Seq<char>> {
    Set::new(|a: Seq<char>| exists|k: Seq<char>| msgs.dom().contains(k) && named_recipient(msgs[k], a))
}

/// Errors that can occur during indexing.
#[derive(Debug)]
pub enum IndexerError {
    /// An error of the event log.
    EventLog(crate::events::error::EventError),
    /// Error persisting or loading indexer state.
    StatePersistence(String),
    /// Invalid event data.
    InvalidEvent { event_id: String, reason: String },
}

/// How an agent's status and current task change on an event.
pub enum AgentChange {
    /// A task was assigned to the agent.
    TaskAssigned,
    /// The agent's task was completed.
    TaskCompleted,
    /// The agent's status changed.
    Status(AgentStatus),
}

/// `new` is `old` where agent `id` (registered fresh if unknown) was touched
/// at `ts`, with its task or status changed as `c` (and `title`) says.
pub open spec fn agent_touched(
    old: Map<Seq<char>, Agent>,
    new: Map<Seq<char>, Agent>,
    id: Seq<char>,
    ts: Timestamp,
    c: AgentChange,
    title: Seq<char>,
) -> bool {
    let known = old.dom().contains(id);
    let a = new[id];
    &&& new.dom() == old.dom().insert(id)
    &&& forall|k: Seq<char>| #[trigger] old.dom().contains(k) && k != id ==> new[k] == old[k]
    &&& a.id@ == id
    &&& a.display_name@ == (if known { old[id].display_name@ } else { id })
    &&& a.last_seen == ts
    &&& a.status == match c {
        AgentChange::Status(s) => s,
        _ => if known { old[id].status } else { AgentStatus::Available },
    }
    &&& a.current_task.deep_view() == match c {
        AgentChange::TaskAssigned => Some(title),
        AgentChange::TaskCompleted => None,
        AgentChange::Status(_) => if known { old[id].current_task.deep_view() } else { None },
    }
}

/// Adds `p` to `ps` unless already present.
fn add_participant(ps: &mut Vec<String>, p: &String)
    ensures
        final(ps).deep_view() == with_participant(old(ps).deep_view(), p@),
{
    let n = ps.len();
    let mut i: usize = 0;
    while i < n
        invariant
            n == ps@.len(),
            i <= n,
            forall|j: int| 0 <= j < i ==> (#[trigger] ps@[j])@ != p@,
        decreases n - i,
    {
        if ps[i] == *p {
            proof {
                assert(ps.deep_view()[i as int] == p@);
            }
            return;
        }
        i = i + 1;
    }
    let ghost before = ps.deep_view();
    assert(!before.contains(p@)) by {
        if before.contains(p@) {
            let j = choose|j: int| 0 <= j < before.len() && before[j] == p@;
            assert(ps@[j]@ == p@);
        }
    }
    ps.push(p.clone());
    assert(ps.deep_view() =~= before.push(p@));
}

/// Materializes events into in-memory views of threads, messages,
/// decisions, artifacts and agents. Each event is applied at most once.
pub struct Indexer {
    threads: StrMap<Thread>,
    messages: StrMap<Message>,
    decisions: StrMap<Decision>,
    artifacts: StrMap<Artifact>,
    agents: StrMap<Agent>,
    events_processed: u64,
    seen_ids: StrMap<()>,
}

impl Indexer {
    /// Threads by id.
    pub closed spec fn threads(&self) -> Map<Seq<char>, Thread> {
        self.threads@
    }

    /// Messages by id.
    pub closed spec fn messages(&self) -> Map<Seq<char>, Message> {
        self.messages@
    }

    /// Decisions by id.
    pub closed spec fn decisions(&self) -> Map<Seq<char>, Decision> {
        self.decisions@
    }

    /// Artifacts by id.
    pub closed spec fn artifacts(&self) -> Map<Seq<char>, Artifact> {
        self.artifacts@
    }

    /// Agents by id.
    pub closed spec fn agents(&self) -> Map<Seq<char>, Agent> {
        self.agents@
    }

    /// Ids of the events applied so far.
    pub closed spec fn seen(&self) -> Set<Seq<char>> {
        self.seen_ids@.dom()
    }

    /// Number of events applied so far.
    pub closed spec fn processed(&self) -> u64 {
        self.events_processed
    }

    /// The invariant: every record is stored under its own id.
    pub closed spec fn wf(&self) -> bool {
        &&& self.threads.wf()
        &&& self.messages.wf()
        &&& self.decisions.wf()
        &&& self.artifacts.wf()
        &&& self.agents.wf()
        &&& self.seen_ids.wf()
        &&& forall|k: Seq<char>| #[trigger] self.threads@.dom().contains(k) ==> self.threads@[k].id@ == k
        &&& forall|k: Seq<char>| #[trigger] self.messages@.dom().contains(k) ==> self.messages@[k].id@ == k
        &&& forall|k: Seq<char>| #[trigger] self.decisions@.dom().contains(k) ==> self.decisions@[k].id@ == k
        &&& forall|k: Seq<char>| #[trigger] self.artifacts@.dom().contains(k) ==> self.artifacts@[k].id@ == k
        &&& forall|k: Seq<char>| #[trigger] self.agents@.dom().contains(k) ==> self.agents@[k].id@ == k
    }

    /// All views are the same in `a` and `b`.
    pub open spec fn same_views(a: &Indexer, b: &Indexer) -> bool {
        &&& a.threads() == b.threads()
        &&& a.messages() == b.messages()
        &&& a.decisions() == b.decisions()
        &&& a.artifacts() == b.artifacts()
        &&& a.agents() == b.agents()
        &&& a.seen() == b.seen()
        &&& a.processed() == b.processed()
    }

    /// `new` is `old` after `process_event(e)`: unchanged when an event with
    /// the same id was seen, else with `e` applied.
    pub open spec fn processed_event(old: &Indexer, new: &Indexer, e: EventEnvelope) -> bool {
        &&& old.seen().contains(e.id@) ==> Indexer::same_views(old, new)
        &&& !old.seen().contains(e.id@) ==> Indexer::applied(old, new, e)
    }

    /// Whether applying `e` stays within the counters' ranges.
    pub open spec fn has_room_for(&self, e: EventEnvelope) -> bool {
        &&& self.processed() < u64::MAX
        &&& match e.payload {
            EventPayload::Message(m) => {
                self.threads().dom().contains(thread_key(e, m))
                    ==> self.threads()[thread_key(e, m)].message_count < u32::MAX
            },
            _ => true,
        }
    }

    /// What applying the new event `e` to `old` makes of the views.
    pub open spec fn applied(old: &Indexer, new: &Indexer, e: EventEnvelope) -> bool {
        &&& new.seen() == old.seen().insert(e.id@)
        &&& new.processed() == old.processed() + 1
        &&& match e.payload {
            EventPayload::Message(m) => {
                let key = thread_key(e, m);
                &&& new.threads().dom() == old.threads().dom().insert(key)
                &&& forall|k: Seq<char>| #[trigger] old.threads().dom().contains(k) && k != key
                    ==> new.threads()[k] == old.threads()[k]
                &&& thread_after_message(
                    if old.threads().dom().contains(key) { Some(old.threads()[key]) } else { None },
                    new.threads()[key], key, m, e.timestamp)
                &&& new.messages().dom() == old.messages().dom().insert(e.id@)
                &&& forall|k: Seq<char>| #[trigger] old.messages().dom().contains(k) && k != e.id@
                    ==> new.messages()[k] == old.messages()[k]
                &&& message_of_event(new.messages()[e.id@], e, m)
                &&& agents_registered(old.agents(), new.agents(), set![m.from@, m.to@], e.timestamp)
                &&& new.decisions() == old.decisions()
                &&& new.artifacts() == old.artifacts()
            },
            EventPayload::Artifact(a) => {
                &&& new.artifacts().dom() == old.artifacts().dom().insert(e.id@)
                &&& forall|k: Seq<char>| #[trigger] old.artifacts().dom().contains(k) && k != e.id@
                    ==> new.artifacts()[k] == old.artifacts()[k]
                &&& artifact_of_event(new.artifacts()[e.id@], e, a)
                &&& new.threads() == old.threads()
                &&& new.messages() == old.messages()
                &&& new.decisions() == old.decisions()
                &&& new.agents() == old.agents()
            },
            EventPayload::Decision(d) => {
                &&& new.decisions().dom() == old.decisions().dom().insert(e.id@)
                &&& forall|k: Seq<char>| #[trigger] old.decisions().dom().contains(k) && k != e.id@
                    ==> new.decisions()[k] == old.decisions()[k]
                &&& decision_of_event(new.decisions()[e.id@], e, d)
                &&& new.threads() == old.threads()
                &&& new.messages() == old.messages()
                &&& new.artifacts() == old.artifacts()
                &&& new.agents() == old.agents()
            },
            EventPayload::Task(t) => {
                &&& agent_touched(old.agents(), new.agents(), t.assigned_to@, e.timestamp,
                    if e.agent_id@ == t.assigned_by@ { AgentChange::TaskAssigned } else { AgentChange::TaskCompleted },
                    t.title@)
                &&& new.threads() == old.threads()
                &&& new.messages() == old.messages()
                &&& new.decisions() == old.decisions()
                &&& new.artifacts() == old.artifacts()
            },
            EventPayload::Status(s) => {
                &&& agent_touched(old.agents(), new.agents(), s.agent_id@, e.timestamp,
                    AgentChange::Status(s.current), Seq::empty())
                &&& new.threads() == old.threads()
                &&& new.messages() == old.messages()
                &&& new.decisions() == old.decisions()
                &&& new.artifacts() == old.artifacts()
            },
        }
    }

    /// An empty indexer.
    pub fn new() -> (ix: Self)
        ensures
            ix.wf(),
            ix.threads() == Map::<Seq<char>, Thread>::empty(),
            ix.messages() == Map::<Seq<char>, Message>::empty(),
            ix.decisions() == Map::<Seq<char>, Decision>::empty(),
            ix.artifacts() == Map::<Seq<char>, Artifact>::empty(),
            ix.agents() == Map::<Seq<char>, Agent>::empty(),
            ix.seen() == Set::<Seq<char>>::empty(),
            ix.processed() == 0,
    {
        Indexer {
            threads: StrMap::new(),
            messages: StrMap::new(),
            decisions: StrMap::new(),
            artifacts: StrMap::new(),
            agents: StrMap::new(),
            events_processed: 0,
            seen_ids: StrMap::new(),
        }
    }

    /// Number of events processed so far.
    pub fn events_processed(&self) -> (n: u64)
        ensures
            n == self.processed(),
    {
        self.events_processed
    }

    /// Records that event `e` has been applied.
    fn mark_seen(&mut self, id: &String)
        requires
            old(self).wf(),
            old(self).processed() < u64::MAX,
        ensures
            final(self).wf(),
            final(self).seen() == old(self).seen().insert(id@),
            final(self).processed() == old(self).processed() + 1,
            final(self).threads() == old(self).threads(),
            final(self).messages() == old(self).messages(),
            final(self).decisions() == old(self).decisions(),
            final(self).artifacts() == old(self).artifacts(),
            final(self).agents() == old(self).agents(),
    {
        self.seen_ids.insert(id.as_str(), ());
        self.events_processed = self.events_processed + 1;
    }

    /// Registers agent `id` as first seen at `ts` unless already known.
    fn ensure_agent_exists(&mut self, id: &String, ts: Timestamp)
        requires
            old(self).wf(),
        ensures
            final(self).wf(),
            agents_registered(old(self).agents(), final(self).agents(), set![id@], ts),
            final(self).seen() == old(self).seen(),
            final(self).processed() == old(self).processed(),
            final(self).threads() == old(self).threads(),
            final(self).messages() == old(self).messages(),
            final(self).decisions() == old(self).decisions(),
            final(self).artifacts() == old(self).artifacts(),
    {
        if !self.agents.contains_key(id.as_str()) {
            let a = Agent {
                id: id.clone(),
                display_name: id.clone(),
                status: AgentStatus::Available,
                last_seen: ts,
                current_task: None,
            };
            self.agents.insert(id.as_str(), a);
            assert(self.agents@.dom() =~= old(self).agents@.dom().union(set![id@]));
        } else {
            assert(self.agents@.dom() =~= old(self).agents@.dom().union(set![id@]));
        }
    }

    /// Touches agent `id` at `ts` (registering it if unknown) and changes its
    /// task or status as `c` says.
    fn touch_agent(&mut self, id: &String, ts: Timestamp, c: AgentChange, title: &String)
        requires
            old(self).wf(),
        ensures
            final(self).wf(),
            agent_touched(old(self).agents(), final(self).agents(), id@, ts, c, title@),
            final(self).seen() == old(self).seen(),
            final(self).processed() == old(self).processed(),
            final(self).threads() == old(self).threads(),
            final(self).messages() == old(self).messages(),
            final(self).decisions() == old(self).decisions(),
            final(self).artifacts() == old(self).artifacts(),
    {
        let (display_name, status, task) = match self.agents.get(id.as_str()) {
            Some(a) => (a.display_name.clone(), a.status, copy_opt_string(&a.current_task)),
            None => (id.clone(), AgentStatus::Available, None),
        };
        let status = match c {
            AgentChange::Status(s) => s,
            _ => status,
        };
        let current_task = match c {
            AgentChange::TaskAssigned => Some(title.clone()),
            AgentChange::TaskCompleted => None,
            AgentChange::Status(_) => task,
        };
        let a = Agent { id: id.clone(), display_name, status, last_seen: ts, current_task };
        self.agents.insert(id.as_str(), a);
    }

    fn process_message(&mut self, e: &EventEnvelope, m: &MessageEvent)
        requires
            old(self).wf(),
            e.payload == EventPayload::Message(*m),
            !old(self).seen().contains(e.id@),
            old(self).has_room_for(*e),
        ensures
            final(self).wf(),
            Indexer::applied(old(self), final(self), *e),
    {
        let thread_id: String = match &m.thread_id {
            Some(t) => t.clone(),
            None => e.id.clone(),
        };
        let new_thread = match self.threads.get(thread_id.as_str()) {
            Some(t) => {
                let mut ps = copy_strings(&t.participants);
                add_participant(&mut ps, &m.from);
                add_participant(&mut ps, &m.to);
                Thread {
                    id: thread_id.clone(),
                    subject: t.subject.clone(),
                    participants: ps,
                    created_at: t.created_at,
                    updated_at: e.timestamp,
                    message_count: t.message_count + 1,
                    status: t.status,
                }
            },
            None => {
                let mut ps: Vec<String> = Vec::new();
                ps.push(m.from.clone());
                proof {
                    assert(ps.deep_view() =~= seq![m.from@]);
                }
                add_participant(&mut ps, &m.to);
                Thread {
                    id: thread_id.clone(),
                    subject: m.subject.clone(),
                    participants: ps,
                    created_at: e.timestamp,
                    updated_at: e.timestamp,
                    message_count: 1,
                    status: ThreadStatus::Active,
                }
            },
        };
        self.threads.insert(thread_id.as_str(), new_thread);
        let message = Message {
            id: e.id.clone(),
            thread_id: thread_id,
            from: m.from.clone(),
            to: m.to.clone(),
            subject: m.subject.clone(),
            content: m.content.clone(),
            priority: m.priority,
            intent: m.intent,
            expected_response: m.expected_response,
            require_ack: m.require_ack,
            created_at: e.timestamp,
            read_by: Vec::new(),
            claimed_source_model: copy_opt_string(&m.claimed_source_model),
            claimed_source_runtime: copy_opt_string(&m.claimed_source_runtime),
            claimed_source_mode: copy_opt_string(&m.claimed_source_mode),
            verified_source_model: copy_opt_string(&m.verified_source_model),
            verified_source_runtime: copy_opt_string(&m.verified_source_runtime),
            verified_source_mode: copy_opt_string(&m.verified_source_mode),
            source_worktree: copy_opt_string(&m.source_worktree),
            source_session_id: copy_opt_string(&m.source_session_id),
            provenance_level: m.provenance_level,
            provenance_issuer: copy_opt_string(&m.provenance_issuer),
        };
        self.messages.insert(e.id.as_str(), message);
        let ghost mid = *self;
        self.ensure_agent_exists(&m.from, e.timestamp);
        let ghost mid2 = *self;
        self.ensure_agent_exists(&m.to, e.timestamp);
        proof {
            let o = old(self).agents();
            let a1 = mid2.agents();
            let a2 = self.agents();
            assert(a2.dom() =~= o.dom().union(set![m.from@, m.to@]));
            assert forall|k: Seq<char>| #[trigger] o.dom().contains(k) implies a2[k] == o[k] by {
                assert(a1.dom().contains(k));
            }
            assert forall|k: Seq<char>| set![m.from@, m.to@].contains(k) && !o.dom().contains(k)
                implies fresh_agent(#[trigger] a2[k], k, e.timestamp) by {
                if k == m.from@ {
                    assert(a1.dom().contains(k));
                } else {
                    assert(k == m.to@);
                }
            }
        }
        self.mark_seen(&e.id);
    }

    fn process_artifact(&mut self, e: &EventEnvelope, a: &ArtifactEvent)
        requires
            old(self).wf(),
            e.payload == EventPayload::Artifact(*a),
            old(self).has_room_for(*e),
        ensures
            final(self).wf(),
            Indexer::applied(old(self), final(self), *e),
    {
        let art = Artifact {
            id: e.id.clone(),
            path: a.path.clone(),
            description: a.description.clone(),
            checksum: a.checksum.clone(),
            shared_by: e.agent_id.clone(),
            shared_at: e.timestamp,
            thread_id: None,
            source_url: copy_opt_string(&a.source_url),
            fetch_timestamp: a.fetch_timestamp,
            content_hash_sha256: copy_opt_string(&a.content_hash_sha256),
            processor_version: copy_opt_string(&a.processor_version),
        };
        self.artifacts.insert(e.id.as_str(), art);
        self.mark_seen(&e.id);
    }

    fn process_decision(&mut self, e: &EventEnvelope, d: &DecisionEvent)
        requires
            old(self).wf(),
            e.payload == EventPayload::Decision(*d),
            old(self).has_room_for(*e),
        ensures
            final(self).wf(),
            Indexer::applied(old(self), final(self), *e),
    {
        let dec = Decision {
            id: e.id.clone(),
            thread_id: None,
            title: d.title.clone(),
            context: d.context.clone(),
            options: copy_options(&d.options),
            chosen: d.chosen,
            rationale: d.rationale.clone(),
            status: DecisionStatus::Pending,
            created_at: e.timestamp,
            recorded_by: e.agent_id.clone(),
        };
        self.decisions.insert(e.id.as_str(), dec);
        self.mark_seen(&e.id);
    }

    /// Applies one event to the views, unless an event with the same id was
    /// applied before (then nothing changes).
    pub fn process_event(&mut self, event: &EventEnvelope) -> (r: Result<(), IndexerError>)
        requires
            old(self).wf(),
            old(self).has_room_for(*event),
        ensures
            final(self).wf(),
            r is Ok,
            Indexer::processed_event(old(self), final(self), *event),
    {
        if self.seen_ids.contains_key(event.id.as_str()) {
            return Ok(());
        }
        match &event.payload {
            EventPayload::Message(m) => self.process_message(event, m),
            EventPayload::Artifact(a) => self.process_artifact(event, a),
            EventPayload::Decision(d) => self.process_decision(event, d),
            EventPayload::Task(t) => {
                let c = if str_eq(event.agent_id.as_str(), t.assigned_by.as_str()) {
                    AgentChange::TaskAssigned
                } else {
                    AgentChange::TaskCompleted
                };
                self.touch_agent(&t.assigned_to, event.timestamp, c, &t.title);
                self.mark_seen(&event.id);
            },
            EventPayload::Status(st) => {
                let empty = String::new();
                self.touch_agent(&st.agent_id, event.timestamp, AgentChange::Status(st.current), &empty);
                self.mark_seen(&event.id);
            },
        }
        Ok(())
    }

    /// The thread stored under `id`.
    pub fn get_thread(&self, id: &str) -> (r: Option<&Thread>)
        requires
            self.wf(),
        ensures
            match r {
                Some(t) => self.threads().dom().contains(id@) && *t == self.threads()[id@],
                None => !self.threads().dom().contains(id@),
            },
    {
        self.threads.get(id)
    }

    /// The messages of thread `thread_id`.
    pub fn get_messages_for_thread(&self, thread_id: &str) -> (r: Vec<&Message>)
        requires
            self.wf(),
        ensures
            lists_exactly(self.messages(), r@, |m: Message| m.thread_id@ == thread_id@),
    {
        let f = |m: &Message| -> (b: bool)
            ensures
                b == (m.thread_id@ == thread_id@),
            { str_eq(m.thread_id.as_str(), thread_id) };
        self.messages.select(f, Ghost(|m: Message| m.thread_id@ == thread_id@))
    }

    /// The messages sent by `agent_id`.
    pub fn get_messages_for_agent(&self, agent_id: &str) -> (r: Vec<&Message>)
        requires
            self.wf(),
        ensures
            lists_exactly(self.messages(), r@, |m: Message| m.from@ == agent_id@),
    {
        let f = |m: &Message| -> (b: bool)
            ensures
                b == (m.from@ == agent_id@),
            { str_eq(m.from.as_str(), agent_id) };
        self.messages.select(f, Ghost(|m: Message| m.from@ == agent_id@))
    }

    /// The messages addressed to `agent_id`, including those to "all" and
    /// to "council".
    pub fn get_messages_to_agent(&self, agent_id: &str) -> (r: Vec<&Message>)
        requires
            self.wf(),
        ensures
            lists_exactly(self.messages(), r@, |m: Message| addressed_to(m, agent_id@)),
    {
        let f = |m: &Message| -> (b: bool)
            ensures
                b == addressed_to(*m, agent_id@),
            {
                str_eq(m.to.as_str(), agent_id) || str_eq(m.to.as_str(), "all")
                    || str_eq(m.to.as_str(), "council")
            };
        self.messages.select(f, Ghost(|m: Message| addressed_to(m, agent_id@)))
    }

    /// Every agent that some message is addressed to by name (not "all",
    /// not "council"), each once.
    pub fn all_recipient_agents(&self) -> (r: Vec<String>)
        requires
            self.wf(),
        ensures
            r.deep_view().no_duplicates(),
            r.deep_view().to_set() == recipients(self.messages()),
    {
        proof { self.messages.lemma_seqs(); }
        let mut set: StrMap<()> = StrMap::new();
        let n = self.messages.entry_count();
        let mut i: usize = 0;
        while i < n
            invariant
                self.wf(),
                n == self.messages.val_seq().len(),
                n == self.messages.key_seq().len(),
                i <= n,
                set.wf(),
                forall|a: Seq<char>| #[trigger] set@.dom().contains(a) <==>
                    exists|j: int| 0 <= j < i && named_recipient(self.messages.val_seq()[j], a),
            decreases n - i,
        {
            let m = self.messages.value_at(i);
            if !str_eq(m.to.as_str(), "all") && !str_eq(m.to.as_str(), "council") {
                set.insert(m.to.as_str(), ());
            }
            proof {
                assert forall|a: Seq<char>| #[trigger] set@.dom().contains(a) <==>
                    exists|j: int| 0 <= j < i + 1 && named_recipient(self.messages.val_seq()[j], a) by {
                    if set@.dom().contains(a) && !named_recipient(self.messages.val_seq()[i as int], a) {
                        let j = choose|j: int| 0 <= j < i && named_recipient(self.messages.val_seq()[j], a);
                    }
                    if exists|j: int| 0 <= j < i + 1 && named_recipient(self.messages.val_seq()[j], a) {
                        let j = choose|j: int| 0 <= j < i + 1 && named_recipient(self.messages.val_seq()[j], a);
                        if j < i {
                            assert(exists|j2: int| 0 <= j2 < i && named_recipient(self.messages.val_seq()[j2], a));
                        }
                    }
                }
            }
            i = i + 1;
        }
        proof {
            assert(set@.dom() =~= recipients(self.messages())) by {
                assert forall|a: Seq<char>| set@.dom().contains(a) implies recipients(self.messages()).contains(a) by {
                    let j = choose|j: int| 0 <= j < n && named_recipient(self.messages.val_seq()[j], a);
                    let k = self.messages.key_seq()[j];
                    assert(self.messages@.dom().contains(k));
                }
                assert forall|a: Seq<char>| recipients(self.messages()).contains(a) implies set@.dom().contains(a) by {
                    let k = choose|k: Seq<char>| self.messages().dom().contains(k) && named_recipient(self.messages()[k], a);
                    let j = choose|j: int| 0 <= j < self.messages.key_seq().len() && self.messages.key_seq()[j] == k;
                    assert(named_recipient(self.messages.val_seq()[j], a));
                }
            }
        }
        set.keys()
    }

    /// All decisions.
    pub fn get_decisions(&self) -> (r: Vec<&Decision>)
        requires
            self.wf(),
        ensures
            lists_exactly(self.decisions(), r@, |d: Decision| true),
    {
        let f = |d: &Decision| -> (b: bool) ensures b { true };
        self.decisions.select(f, Ghost(|d: Decision| true))
    }

    /// All artifacts.
    pub fn get_artifacts(&self) -> (r: Vec<&Artifact>)
        requires
            self.wf(),
        ensures
            lists_exactly(self.artifacts(), r@, |a: Artifact| true),
    {
        let f = |a: &Artifact| -> (b: bool) ensures b { true };
        self.artifacts.select(f, Ghost(|a: Artifact| true))
    }

    /// All artifacts (the same list as `get_artifacts`).
    pub fn get_all_artifacts(&self) -> (r: Vec<&Artifact>)
        requires
            self.wf(),
        ensures
            lists_exactly(self.artifacts(), r@, |a: Artifact| true),
    {
        self.get_artifacts()
    }

    /// All threads.
    pub fn get_all_threads(&self) -> (r: Vec<&Thread>)
        requires
            self.wf(),
        ensures
            lists_exactly(self.threads(), r@, |t: Thread| true),
    {
        let f = |t: &Thread| -> (b: bool) ensures b { true };
        self.threads.select(f, Ghost(|t: Thread| true))
    }

    /// The agent stored under `id`.
    pub fn get_agent(&self, id: &str) -> (r: Option<&Agent>)
        requires
            self.wf(),
        ensures
            match r {
                Some(a) => self.agents().dom().contains(id@) && *a == self.agents()[id@],
                None => !self.agents().dom().contains(id@),
            },
    {
        self.agents.get(id)
    }

    /// The message stored under `id`.
    pub fn get_message(&self, id: &str) -> (r: Option<&Message>)
        requires
            self.wf(),
        ensures
            match r {
                Some(m) => self.messages().dom().contains(id@) && *m == self.messages()[id@],
                None => !self.messages().dom().contains(id@),
            },
    {
        self.messages.get(id)
    }

    /// The decision stored under `id`.
    pub fn get_decision(&self, id: &str) -> (r: Option<&Decision>)
        requires
            self.wf(),
        ensures
            match r {
                Some(d) => self.decisions().dom().contains(id@) && *d == self.decisions()[id@],
                None => !self.decisions().dom().contains(id@),
            },
    {
        self.decisions.get(id)
    }

    /// The artifact stored under `id`.
    pub fn get_artifact(&self, id: &str) -> (r: Option<&Artifact>)
        requires
            self.wf(),
        ensures
            match r {
                Some(a) => self.artifacts().dom().contains(id@) && *a == self.artifacts()[id@],
                None => !self.artifacts().dom().contains(id@),
            },
    {
        self.artifacts.get(id)
    }
}

/// Processing an event a second time changes nothing: the indexer
/// deduplicates by event id.
pub proof fn lemma_reprocessing_changes_nothing(i0: &Indexer, i1: &Indexer, i2: &Indexer, e: EventEnvelope)
    requires
        Indexer::processed_event(i0, i1, e),
        Indexer::processed_event(i1, i2, e),
    ensures
        Indexer::same_views(i1, i2),
        i1.seen().contains(e.id@),
{
}

/// Each event counts once: processing adds its id to the seen ids, and the
/// count of processed events grows by one exactly when the id is new.
pub proof fn lemma_processed_counts_new_ids(i0: &Indexer, i1: &Indexer, e: EventEnvelope)
    requires
        Indexer::processed_event(i0, i1, e),
    ensures
        i1.seen() == i0.seen().insert(e.id@),
        i1.processed() == i0.processed() + (if i0.seen().contains(e.id@) { 0int } else { 1int }),
{
    if i0.seen().contains(e.id@) {
        assert(i0.seen().insert(e.id@) =~= i0.seen());
    }
}

/// A new task event touches the assignee: it is registered (under its own
/// id when new), seen at the event's time, and its current task becomes
/// the task's title when the sender is the one who assigned it (an
/// assignment), and nothing when anyone else sends it (a completion); no
/// other agent changes.
pub proof fn lemma_task_event_agent(i0: &Indexer, i1: &Indexer, e: EventEnvelope)
    requires
        Indexer::processed_event(i0, i1, e),
        !i0.seen().contains(e.id@),
    ensures
        match e.payload {
            EventPayload::Task(t) => {
                &&& i1.agents().dom().contains(t.assigned_to@)
                &&& i1.agents()[t.assigned_to@].last_seen == e.timestamp
                &&& e.agent_id@ == t.assigned_by@ ==> i1.agents()[t.assigned_to@].current_task.deep_view() == Some(
                    t.title@,
                )
                &&& e.agent_id@ != t.assigned_by@ ==> i1.agents()[t.assigned_to@].current_task is None
                &&& !i0.agents().dom().contains(t.assigned_to@) ==> i1.agents()[t.assigned_to@].display_name@
                    == t.assigned_to@
                &&& forall|k: Seq<char>| #[trigger] i0.agents().dom().contains(k) && k != t.assigned_to@
                    ==> i1.agents()[k] == i0.agents()[k]
            },
            _ => true,
        },
{
}

/// A new status event sets the agent's status to the new one and marks it
/// seen at the event's time, keeping its task; no other agent changes.
pub proof fn lemma_status_event_agent(i0: &Indexer, i1: &Indexer, e: EventEnvelope)
    requires
        Indexer::processed_event(i0, i1, e),
        !i0.seen().contains(e.id@),
    ensures
        match e.payload {
            EventPayload::Status(st) => {
                &&& i1.agents().dom().contains(st.agent_id@)
                &&& i1.agents()[st.agent_id@].status == st.current
                &&& i1.agents()[st.agent_id@].last_seen == e.timestamp
                &&& i0.agents().dom().contains(st.agent_id@) ==> i1.agents()[st.agent_id@].current_task.deep_view()
                    == i0.agents()[st.agent_id@].current_task.deep_view()
                &&& !i0.agents().dom().contains(st.agent_id@) ==> i1.agents()[st.agent_id@].current_task is None
                &&& forall|k: Seq<char>| #[trigger] i0.agents().dom().contains(k) && k != st.agent_id@
                    ==> i1.agents()[k] == i0.agents()[k]
            },
            _ => true,
        },
{
}

/// A new message event is stored under its id with its sender, recipient,
/// subject, content and time; its thread (the message's thread id, else
/// the event id) is created with one message, or counts one message more,
/// and lists sender and recipient among its participants; sender and
/// recipient are known agents afterwards, those new to the indexer being
/// available and without a task; nothing else about agents changes.
pub proof fn lemma_message_event(i0: &Indexer, i1: &Indexer, e: EventEnvelope)
    requires
        Indexer::processed_event(i0, i1, e),
        !i0.seen().contains(e.id@),
    ensures
        match e.payload {
            EventPayload::Message(m) => {
                let key = match m.thread_id {
                    Some(t) => t@,
                    None => e.id@,
                };
                &&& i1.messages().dom().contains(e.id@)
                &&& i1.messages()[e.id@].from@ == m.from@ && i1.messages()[e.id@].to@ == m.to@
                &&& i1.messages()[e.id@].subject@ == m.subject@ && i1.messages()[e.id@].content@ == m.content@
                &&& i1.messages()[e.id@].created_at == e.timestamp && i1.messages()[e.id@].thread_id@ == key
                &&& i1.threads().dom().contains(key)
                &&& i1.threads()[key].updated_at == e.timestamp
                &&& i0.threads().dom().contains(key) ==> i1.threads()[key].message_count == i0.threads()[key].message_count + 1
                &&& !i0.threads().dom().contains(key) ==> i1.threads()[key].message_count == 1
                    && i1.threads()[key].subject@ == m.subject@
                &&& i1.threads()[key].participants.deep_view().contains(m.from@)
                &&& i1.threads()[key].participants.deep_view().contains(m.to@)
                &&& i1.agents().dom().contains(m.from@) && i1.agents().dom().contains(m.to@)
                &&& forall|k: Seq<char>| #[trigger] i0.agents().dom().contains(k) ==> i1.agents()[k] == i0.agents()[k]
                &&& !i0.agents().dom().contains(m.from@) ==> i1.agents()[m.from@].status == AgentStatus::Available
                    && i1.agents()[m.from@].current_task is None
            },
            _ => true,
        },
{
    match e.payload {
        EventPayload::Message(m) => {
            let key = thread_key(e, m);
            let t = i1.threads()[key];
            if i0.threads().dom().contains(key) {
                let ps = i0.threads()[key].participants.deep_view();
                let p1 = with_participant(ps, m.from@);
                assert(p1.contains(m.from@)) by {
                    if !ps.contains(m.from@) {
                        assert(p1[p1.len() - 1] == m.from@);
                    }
                }
                let p2 = with_participant(p1, m.to@);
                assert(p2.contains(m.from@)) by {
                    let j = choose|j: int| 0 <= j < p1.len() && p1[j] == m.from@;
                    assert(p2[j] == m.from@);
                }
                assert(p2.contains(m.to@)) by {
                    if !p1.contains(m.to@) {
                        assert(p2[p2.len() - 1] == m.to@);
                    }
                }
            } else {
                let p1 = seq![m.from@];
                assert(p1[0] == m.from@);
                let p2 = with_participant(p1, m.to@);
                assert(p2[0] == m.from@);
                assert(p2.contains(m.to@)) by {
                    if !p1.contains(m.to@) {
                        assert(p2[p2.len() - 1] == m.to@);
                    }
                }
            }
            assert(set![m.from@, m.to@].contains(m.from@));
        },
        _ => {},
    }
}

/// A message is for an agent when it names the agent, or is sent to "all"
/// or to "council".
pub proof fn lemma_addressed_to(m: Message, agent: Seq<char>)
    ensures
        addressed_to(m, agent) <==> (m.to@ == agent || m.to@ == "all"@ || m.to@ == "council"@),
{
}

} // verus!
