//! The admin server's task board: one record per submitted task, in
//! progress until its agent answers, then complete with the response or
//! failed with the error.
use vstd::prelude::*;
use std::collections::HashSet;

use crate::definitions::{order_by_time_desc, time_after};
use crate::schemas::Status;
use crate::text::{copy_string, first_index, lemma_first_index, lemma_first_index_all, lemma_first_index_step, owned};

verus! {

broadcast use vstd::std_specs::hash::group_hash_axioms;

/// A task submitted through the admin server.
pub struct BoardRecord<R> {
    pub task_id: u128,
    pub agent_instance_id: u128,
    pub agent_name: String,
    pub intent: String,
    pub status: Status,
    pub submitted_at: i64,
    pub completed_at: Option<i64>,
    pub response: Option<R>,
    pub error: Option<String>,
}

pub struct BoardView<R> {
    pub task_id: u128,
    pub agent_instance_id: u128,
    pub agent_name: Seq<char>,
    pub intent: Seq<char>,
    pub status: Status,
    pub submitted_at: i64,
    pub completed_at: Option<i64>,
    pub response: Option<R>,
    pub error: Option<Seq<char>>,
}

impl<R> View for BoardRecord<R> {
    type V = BoardView<R>;

    open spec fn view(&self) -> BoardView<R> {
        BoardView {
            task_id: self.task_id,
            agent_instance_id: self.agent_instance_id,
            agent_name: self.agent_name@,
            intent: self.intent@,
            status: self.status,
            submitted_at: self.submitted_at,
            completed_at: self.completed_at,
            response: self.response,
            error: match self.error {
                Some(e) => Some(e@),
                None => None,
            },
        }
    }
}

pub open spec fn board_views<R>(v: Seq<BoardRecord<R>>) -> Seq<BoardView<R>> {
    v.map_values(|r: BoardRecord<R>| r@)
}

pub open spec fn has_id<R>(id: u128) -> spec_fn(BoardView<R>) -> bool {
    |r: BoardView<R>| r.task_id == id
}

/// The record of a task, if it was submitted.
pub open spec fn board_lookup<R>(s: Seq<BoardView<R>>, id: u128) -> Option<BoardView<R>> {
    match first_index(s, has_id::<R>(id)) {
        Some(i) => Some(s[i]),
        None => None,
    }
}

/// A submitted task: in progress, not completed, without response or error.
pub open spec fn submitted_record<R>(id: u128, instance: u128, agent: Seq<char>, intent: Seq<char>, now: i64) -> BoardView<R> {
    BoardView {
        task_id: id,
        agent_instance_id: instance,
        agent_name: agent,
        intent,
        status: Status::InProgress,
        submitted_at: now,
        completed_at: None,
        response: None,
        error: None,
    }
}

/// The board after a submission: the task's record replaces any record
/// with its id, else it is added.
pub open spec fn submitted<R>(s: Seq<BoardView<R>>, rec: BoardView<R>) -> Seq<BoardView<R>> {
    match first_index(s, has_id::<R>(rec.task_id)) {
        Some(i) => s.update(i, rec),
        None => s.push(rec),
    }
}

/// A record once its agent answered at `now`: complete with the response,
/// or failed with the error.
pub open spec fn finished_record<R>(r: BoardView<R>, outcome: Result<R, Seq<char>>, now: i64) -> BoardView<R> {
    match outcome {
        Ok(resp) => BoardView { status: Status::Complete, completed_at: Some(now), response: Some(resp), ..r },
        Err(e) => BoardView { status: Status::Failed, completed_at: Some(now), error: Some(e), ..r },
    }
}

/// The board after an answer: the task's record finished; an unknown task
/// changes nothing.
pub open spec fn finished<R>(s: Seq<BoardView<R>>, id: u128, outcome: Result<R, Seq<char>>, now: i64) -> Seq<BoardView<R>> {
    match first_index(s, has_id::<R>(id)) {
        Some(i) => s.update(i, finished_record(s[i], outcome, now)),
        None => s,
    }
}

pub open spec fn outcome_view<R>(o: Result<R, String>) -> Result<R, Seq<char>> {
    match o {
        Ok(r) => Ok(r),
        Err(e) => Err(e@),
    }
}

/// The admin server's records of the tasks it ran.
pub struct TaskBoard<R> {
    records: Vec<BoardRecord<R>>,
}

impl<R> TaskBoard<R> {
    pub closed spec fn entries(&self) -> Seq<BoardView<R>> {
        board_views(self.records@)
    }

    pub fn new() -> (r: TaskBoard<R>)
        ensures
            r.entries() == Seq::<BoardView<R>>::empty(),
    {
        let r = TaskBoard { records: Vec::new() };
        assert(r.entries() =~= Seq::<BoardView<R>>::empty());
        r
    }

    fn position(&self, id: u128) -> (r: Option<usize>)
        ensures
            match r {
                Some(i) => first_index(self.entries(), has_id::<R>(id)) == Some(i as int) && i < self.records.len(),
                None => first_index(self.entries(), has_id::<R>(id)) is None,
            },
    {
        let ghost s = self.entries();
        let mut i: usize = 0;
        assert(s.take(0) =~= Seq::<BoardView<R>>::empty());
        while i < self.records.len()
            invariant
                i <= self.records.len(),
                s == self.entries(),
                s.len() == self.records.len(),
                first_index(s.take(i as int), has_id::<R>(id)) is None,
            decreases self.records.len() - i,
        {
            proof {
                lemma_first_index_step(s, has_id::<R>(id), i as int);
                assert(s[i as int] == self.records@[i as int]@);
            }
            if self.records[i].task_id == id {
                return Some(i);
            }
            i += 1;
        }
        proof {
            lemma_first_index_all(s, has_id::<R>(id));
        }
        None
    }

    /// Records a submitted task at time `now` (see [`submitted`]).
    pub fn submit(&mut self, task_id: u128, agent_instance_id: u128, agent_name: &str, intent: &str, now: i64)
        ensures
            final(self).entries() == submitted(
                old(self).entries(),
                submitted_record::<R>(task_id, agent_instance_id, agent_name@, intent@, now),
            ),
    {
        let rec = BoardRecord {
            task_id,
            agent_instance_id,
            agent_name: owned(agent_name),
            intent: owned(intent),
            status: Status::InProgress,
            submitted_at: now,
            completed_at: None,
            response: None,
            error: None,
        };
        let ghost want = submitted_record::<R>(task_id, agent_instance_id, agent_name@, intent@, now);
        assert(rec@ == want);
        let ghost before = self.records@;
        match self.position(task_id) {
            Some(j) => {
                self.records.set(j, rec);
                assert(self.entries() =~= board_views(before).update(j as int, want));
            },
            None => {
                self.records.push(rec);
                assert(self.entries() =~= board_views(before).push(want));
            },
        }
    }

    /// Records a task's answer at time `now` (see [`finished`]); whether
    /// the task was on the board.
    pub fn finish(&mut self, task_id: u128, outcome: Result<R, String>, now: i64) -> (found: bool)
        ensures
            found == (first_index(old(self).entries(), has_id::<R>(task_id)) is Some),
            final(self).entries() == finished(old(self).entries(), task_id, outcome_view(outcome), now),
    {
        match self.position(task_id) {
            Some(i) => {
                let ghost before = self.records@;
                let ghost ov = outcome_view(outcome);
                let mut rec = self.records.remove(i);
                let ghost r0 = rec@;
                assert(r0 == board_views(before)[i as int]);
                match outcome {
                    Ok(resp) => {
                        rec.status = Status::Complete;
                        rec.completed_at = Some(now);
                        rec.response = Some(resp);
                    },
                    Err(e) => {
                        rec.status = Status::Failed;
                        rec.completed_at = Some(now);
                        rec.error = Some(e);
                    },
                }
                assert(rec@ == finished_record(r0, ov, now));
                self.records.insert(i, rec);
                assert(self.records@ =~= before.update(i as int, rec));
                assert(self.entries() =~= board_views(before).update(i as int, finished_record(r0, ov, now)));
                true
            },
            None => false,
        }
    }

    /// A task's record.
    pub fn get(&self, task_id: u128) -> (r: Option<&BoardRecord<R>>)
        ensures
            match r {
                Some(t) => board_lookup(self.entries(), task_id) == Some(t@),
                None => board_lookup(self.entries(), task_id) is None,
            },
    {
        match self.position(task_id) {
            Some(i) => Some(&self.records[i]),
            None => None,
        }
    }

    /// The records, in storage order.
    pub fn records(&self) -> (r: &Vec<BoardRecord<R>>)
        ensures
            board_views(r@) == self.entries(),
    {
        &self.records
    }

    /// The listing order of the tasks: their positions among `records()`,
    /// most recently submitted first, those submitted at the same time in
    /// storage order.
    pub fn newest_first(&self) -> (r: Vec<usize>)
        ensures
            r.len() == self.entries().len(),
            forall|j: int| 0 <= j < r.len() ==> #[trigger] r@[j] < self.entries().len(),
            forall|k: usize| k < self.entries().len() ==> #[trigger] r@.contains(k),
            forall|j: int, k: int|
                0 <= j < k < r.len() ==> time_after(
                    self.entries().map_values(|t: BoardView<R>| t.submitted_at),
                    #[trigger] r@[j] as int,
                    #[trigger] r@[k] as int,
                ),
    {
        let mut times: Vec<i64> = Vec::new();
        let mut i: usize = 0;
        while i < self.records.len()
            invariant
                i <= self.records@.len(),
                times@ == self.entries().take(i as int).map_values(|t: BoardView<R>| t.submitted_at),
                self.entries().len() == self.records@.len(),
            decreases self.records@.len() - i,
        {
            proof {
                assert(self.entries()[i as int] == self.records@[i as int]@);
                assert(self.entries().take(i + 1).map_values(|t: BoardView<R>| t.submitted_at)
                    =~= self.entries().take(i as int).map_values(|t: BoardView<R>| t.submitted_at).push(
                    self.records@[i as int].submitted_at,
                ));
            }
            times.push(self.records[i].submitted_at);
            i += 1;
        }
        proof {
            assert(self.entries().take(self.entries().len() as int) =~= self.entries());
        }
        order_by_time_desc(&times)
    }
}

// ─────────────────────────────── routing answers ───────────────────────────

/// Where an agent's answer went.
pub enum Routed<R> {
    /// A pipeline step is waiting for this sub-task: hand it the answer.
    ToWaiter(R),
    /// The task's record now holds the answer: announce its completion,
    /// once.
    Completed,
    /// No one waits for it and no record has it: nothing changed.
    Unknown,
}

/// Routes an answer: a sub-task some pipeline step waits for is resolved
/// first (it leaves the waiting set, the board untouched); else the task's
/// record is completed with the answer at `now`; an unknown task changes
/// nothing.
pub fn route_response<R>(pending: &mut HashSet<u128>, board: &mut TaskBoard<R>, task_id: u128, response: R, now: i64) -> (r: Routed<R>)
    ensures
        old(pending)@.contains(task_id) ==> r == Routed::ToWaiter(response) && final(pending)@ == old(pending)@.remove(
            task_id,
        ) && final(board).entries() == old(board).entries(),
        !old(pending)@.contains(task_id) ==> final(pending)@ == old(pending)@,
        !old(pending)@.contains(task_id) && first_index(old(board).entries(), has_id::<R>(task_id)) is Some ==> (r is Completed
            && final(board).entries() == finished(old(board).entries(), task_id, Ok(response), now)),
        !old(pending)@.contains(task_id) && first_index(old(board).entries(), has_id::<R>(task_id)) is None ==> (r is Unknown
            && final(board).entries() == old(board).entries()),
{
    if pending.remove(&task_id) {
        return Routed::ToWaiter(response);
    }
    let found = board.finish(task_id, Ok(response), now);
    if found {
        Routed::Completed
    } else {
        Routed::Unknown
    }
}

/// After an answer, a submitted task's record holds the outcome: complete
/// with the response, or failed with the error, stamped with the time.
pub proof fn law_answer_recorded<R>(s: Seq<BoardView<R>>, rec: BoardView<R>, outcome: Result<R, Seq<char>>, now: i64)
    ensures
        board_lookup(finished(submitted(s, rec), rec.task_id, outcome, now), rec.task_id) == Some(finished_record(rec, outcome, now)),
        finished_record(rec, outcome, now).status == (if outcome is Ok { Status::Complete } else { Status::Failed }),
{
    let id = rec.task_id;
    let s1 = submitted(s, rec);
    lemma_first_index(s, has_id::<R>(id));
    let k: int = match first_index(s, has_id::<R>(id)) {
        Some(i) => i,
        None => s.len() as int,
    };
    lemma_first_index(s1, has_id::<R>(id));
    assert(s1[k] == rec);
    match first_index(s1, has_id::<R>(id)) {
        Some(j) => {
            if j < k {
                assert(s1[j] == s[j]);
            } else if j > k {
                assert(has_id::<R>(id)(s1[k]));
            }
        },
        None => {
            assert(has_id::<R>(id)(s1[k]));
        },
    }
    let s2 = finished(s1, id, outcome, now);
    let f = finished_record(rec, outcome, now);
    assert(s2 == s1.update(k, f));
    lemma_first_index(s2, has_id::<R>(id));
    match first_index(s2, has_id::<R>(id)) {
        Some(j) => {
            if j < k {
                assert(s2[j] == s1[j]);
            } else if j > k {
                assert(has_id::<R>(id)(s2[k]));
            }
        },
        None => {
            assert(has_id::<R>(id)(s2[k]));
        },
    }
}

/// Answering a task leaves every other task's record as it was.
pub proof fn law_answer_is_local<R>(s: Seq<BoardView<R>>, id: u128, other: u128, outcome: Result<R, Seq<char>>, now: i64)
    requires
        other != id,
    ensures
        board_lookup(finished(s, id, outcome, now), other) == board_lookup(s, other),
{
    lemma_first_index(s, has_id::<R>(id));
    match first_index(s, has_id::<R>(id)) {
        Some(i) => {
            let x = finished_record(s[i], outcome, now);
            let t = s.update(i, x);
            crate::text::lemma_first_index_update_miss(s, has_id::<R>(other), i, x);
            lemma_first_index(s, has_id::<R>(other));
            match first_index(s, has_id::<R>(other)) {
                Some(j) => {
                    assert(j != i);
                    assert(t[j] == s[j]);
                },
                None => {},
            }
        },
        None => {},
    }
}

} // verus!
