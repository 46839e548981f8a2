//! Records of the persistence layer and the rules it applies to query results.

use vstd::prelude::*;
use crate::text::str_eq;

verus! {

/// Read cursor of an agent, as stored.
#[derive(Debug, Clone)]
pub struct AgentReadCursor {
    pub agent_id: String,
    pub last_read_event_id: String,
    pub last_read_at: String,
}

/// Errors of the persistence layer.
#[derive(Debug)]
pub enum PersistenceError {
    /// An error of the database engine.
    Database(String),
    /// A JSON encoding or decoding error.
    Serialization(serde_json::Error),
    /// The requested record does not exist.
    NotFound(String),
}

/// The positions of the first record of each agent in `agents` (records
/// ordered newest first, so these are the latest of each agent).
pub open spec fn first_of_each(agents: Seq<Seq<char>>) -> Seq<int>
    decreases agents.len(),
{
    if agents.len() == 0 {
        Seq::empty()
    } else {
        let rest = first_of_each(agents.drop_last());
        if agents.drop_last().contains(agents.last()) {
            rest
        } else {
            rest.push(agents.len() - 1)
        }
    }
}

fn seen_before(agents: &Vec<String>, i: usize) -> (b: bool)
    requires
        i < agents@.len(),
    ensures
        b == agents.deep_view().take(i as int).contains(agents.deep_view()[i as int]),
{
    let ghost s = agents.deep_view();
    let mut j: usize = 0;
    while j < i
        invariant
            i < agents@.len(),
            s == agents.deep_view(),
            j <= i,
            forall|k: int| 0 <= k < j ==> s[k] != s[i as int],
        decreases i - j,
    {
        if str_eq(agents[j].as_str(), agents[i].as_str()) {
            assert(s.take(i as int)[j as int] == s[i as int]);
            return true;
        }
        j = j + 1;
    }
    assert forall|k: int| 0 <= k < s.take(i as int).len() implies s.take(i as int)[k] != s[i as int] by {}
    false
}

/// The positions of the latest record of each agent, given the agents of
/// records ordered newest first.
pub fn latest_per_agent(agents: &Vec<String>) -> (r: Vec<usize>)
    ensures
        r@.map_values(|i: usize| i as int) == first_of_each(agents.deep_view()),
{
    let ghost s = agents.deep_view();
    let mut out: Vec<usize> = Vec::new();
    let mut i: usize = 0;
    while i < agents.len()
        invariant
            s == agents.deep_view(),
            i <= s.len(),
            out@.map_values(|x: usize| x as int) == first_of_each(s.take(i as int)),
        decreases s.len() - i,
    {
        let ghost t = s.take(i as int + 1);
        assert(t.drop_last() =~= s.take(i as int));
        assert(t.last() == s[i as int]);
        let ghost before = out@.map_values(|x: usize| x as int);
        if !seen_before(agents, i) {
            out.push(i);
            assert(out@.map_values(|x: usize| x as int) =~= before.push(i as int));
        }
        i = i + 1;
    }
    assert(s.take(i as int) =~= s);
    out
}

} // verus!
