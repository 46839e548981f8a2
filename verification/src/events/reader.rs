//! Reading the event log: opening it, and choosing the events that follow
//! a given one.

use vstd::prelude::*;
use crate::events::error::EventError;
use crate::text::str_eq;

verus! {

/// `std::path::Path::exists`: whether a file is at `path`. What is on disk
/// is not the library's to know, so nothing is stated.
#[verifier::external_body]
fn path_exists(path: &str) -> bool {
    std::path::Path::new(path).exists()
}

/// A reader of the event log at a path.
pub struct EventReader {
    path: String,
}

impl EventReader {
    /// The path of the log.
    pub closed spec fn path_spec(&self) -> Seq<char> {
        self.path@
    }

    /// Opens the log at `path`, given whether a file is there:
    /// `NotFound("Event log not found: <path>")` when none is.
    pub fn open_checked(path: &str, exists: bool) -> (r: Result<EventReader, EventError>)
        ensures
            match r {
                Ok(rd) => exists && rd.path_spec() == path@,
                Err(e) => !exists && (e matches EventError::NotFound(m) && m@ == "Event log not found: "@ + path@),
            },
    {
        if !exists {
            let mut m = String::from_str("Event log not found: ");
            m.append(path);
            return Err(EventError::NotFound(m));
        }
        Ok(EventReader { path: String::from_str(path) })
    }

    /// Opens the log at `path`; `NotFound` when no file is there.
    pub fn open(path: &str) -> (r: Result<EventReader, EventError>)
        ensures
            match r {
                Ok(rd) => rd.path_spec() == path@,
                Err(e) => e matches EventError::NotFound(m) && m@ == "Event log not found: "@ + path@,
            },
    {
        let exists = path_exists(path);
        EventReader::open_checked(path, exists)
    }

    /// Whether the log file exists.
    pub fn file_exists(&self) -> bool {
        path_exists(self.path.as_str())
    }

    /// The path of the log.
    pub fn path(&self) -> (p: &str)
        ensures
            p@ == self.path_spec(),
    {
        self.path.as_str()
    }
}

/// The position right after the first event with id `target` in `ids`,
/// or `ids.len()` when there is none.
pub open spec fn after_first(ids: Seq<Seq<char>>, target: Seq<char>) -> int
    decreases ids.len(),
{
    if ids.len() == 0 {
        0
    } else if ids[0] == target {
        1
    } else {
        1 + after_first(ids.drop_first(), target)
    }
}

/// Chooses, event by event, those that follow the first event with a given
/// id (the events of the log are read in order).
pub struct TailCursor {
    target_id: String,
    found_target: bool,
}

impl TailCursor {
    /// The id after which events are yielded.
    pub closed spec fn target(&self) -> Seq<char> {
        self.target_id@
    }

    /// Whether the target has been seen.
    pub closed spec fn found(&self) -> bool {
        self.found_target
    }

    /// A cursor that has seen no event yet.
    pub fn new(target_id: &str) -> (c: Self)
        ensures
            c.target() == target_id@,
            !c.found(),
    {
        TailCursor { target_id: String::from_str(target_id), found_target: false }
    }

    /// Takes the next event's id: whether that event is to be yielded (it
    /// comes after the target). The target itself is not yielded.
    pub fn take_event(&mut self, event_id: &str) -> (y: bool)
        ensures
            final(self).target() == old(self).target(),
            y == old(self).found(),
            final(self).found() == (old(self).found() || event_id@ == old(self).target()),
    {
        if self.found_target {
            true
        } else {
            if str_eq(event_id, self.target_id.as_str()) {
                self.found_target = true;
            }
            false
        }
    }
}

/// The indices of the events a cursor yields over `ids`, having first seen
/// the events before position `from` and found the target iff `found`.
pub open spec fn tail_yields(ids: Seq<Seq<char>>, target: Seq<char>, from: int, found: bool) -> Seq<int>
    decreases ids.len() - from,
{
    if from < 0 || from >= ids.len() {
        Seq::empty()
    } else {
        let rest = tail_yields(ids, target, from + 1, found || ids[from] == target);
        if found {
            seq![from].add(rest)
        } else {
            rest
        }
    }
}

proof fn lemma_tail_from(ids: Seq<Seq<char>>, target: Seq<char>, from: int)
    requires
        0 <= from <= ids.len(),
    ensures
        tail_yields(ids, target, from, true) == Seq::new((ids.len() - from) as nat, |k: int| from + k),
    decreases ids.len() - from,
{
    if from < ids.len() {
        lemma_tail_from(ids, target, from + 1);
        assert(tail_yields(ids, target, from, true) =~= Seq::new((ids.len() - from) as nat, |k: int| from + k));
    } else {
        assert(tail_yields(ids, target, from, true) =~= Seq::new((ids.len() - from) as nat, |k: int| from + k));
    }
}

proof fn lemma_tail_search(ids: Seq<Seq<char>>, target: Seq<char>, from: int)
    requires
        0 <= from <= ids.len(),
    ensures
        from + after_first(ids.skip(from), target) <= ids.len(),
        tail_yields(ids, target, from, false) == Seq::new(
            (ids.len() - from - after_first(ids.skip(from), target)) as nat,
            |k: int| from + after_first(ids.skip(from), target) + k,
        ),
    decreases ids.len() - from,
{
    let s = ids.skip(from);
    if from < ids.len() {
        assert(s[0] == ids[from]);
        assert(s.drop_first() =~= ids.skip(from + 1));
        if ids[from] == target {
            lemma_tail_from(ids, target, from + 1);
        } else {
            lemma_tail_search(ids, target, from + 1);
        }
    }
}

/// A cursor over a log yields exactly the events after the first event
/// with the target id, in order; none when the target is absent.
pub proof fn lemma_tail_yields_after_target(ids: Seq<Seq<char>>, target: Seq<char>)
    ensures
        tail_yields(ids, target, 0, false) == Seq::new(
            (ids.len() - after_first(ids, target)) as nat,
            |k: int| after_first(ids, target) + k,
        ),
        after_first(ids, target) <= ids.len(),
{
    lemma_tail_search(ids, target, 0);
    assert(ids.skip(0) =~= ids);
}

/// The positions, in a log whose event ids are `ids`, of the events that
/// follow the first event with id `target`.
pub fn positions_after(ids: &Vec<String>, target: &str) -> (r: Vec<usize>)
    ensures
        r@.map_values(|i: usize| i as int) == tail_yields(ids.deep_view(), target@, 0, false),
{
    let ghost s = ids.deep_view();
    let mut cursor = TailCursor::new(target);
    let mut acc: Vec<usize> = Vec::new();
    let mut i: usize = 0;
    while i < ids.len()
        invariant
            s == ids.deep_view(),
            i <= s.len(),
            cursor.target() == target@,
            acc@.map_values(|x: usize| x as int) + tail_yields(s, target@, i as int, cursor.found()) == tail_yields(
                s,
                target@,
                0,
                false,
            ),
        decreases s.len() - i,
    {
        let ghost before = acc@.map_values(|x: usize| x as int);
        let ghost f = cursor.found();
        assert(s[i as int] == ids@[i as int]@);
        if cursor.take_event(ids[i].as_str()) {
            acc.push(i);
            assert(acc@.map_values(|x: usize| x as int) =~= before.push(i as int));
            assert(before.push(i as int) + tail_yields(s, target@, i + 1, cursor.found()) =~= before + (seq![i as int].add(
                tail_yields(s, target@, i + 1, cursor.found()),
            )));
        }
        i = i + 1;
    }
    proof {
        assert(tail_yields(s, target@, i as int, cursor.found()) =~= Seq::<int>::empty());
        assert(acc@.map_values(|x: usize| x as int) =~= tail_yields(s, target@, 0, false));
    }
    acc
}

} // verus!
