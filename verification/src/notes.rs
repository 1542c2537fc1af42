//! Notes: the AI's short reading of what a Word is doing in one particular
//! Sighting's sentence.
//!
//! A Note is written in the background and answers come back in whatever order
//! they finish. `/explain` can ask again while an earlier answer is still in
//! the air, so every asking is numbered, and an answer to a question that has
//! since been asked again is dropped rather than allowed to overwrite the Note
//! that replaced it.
use std::collections::HashMap;

use vstd::prelude::*;

use crate::text::{trim, trimmed};

verus! {

broadcast use vstd::std_specs::hash::group_hash_axioms;

/// Everything a writer needs to read one Word in one sentence.
#[derive(Debug)]
pub struct NoteRequest {
    pub sighting_id: i64,
    pub spelling: String,
    pub sentence: String,
    pub book_name: String,
}

impl Clone for NoteRequest {
    fn clone(&self) -> (r: Self)
        ensures
            r == *self,
    {
        NoteRequest {
            sighting_id: self.sighting_id,
            spelling: self.spelling.clone(),
            sentence: self.sentence.clone(),
            book_name: self.book_name.clone(),
        }
    }
}

/// Why a Note wasn't written.
///
/// A writer that could not be reached will be reachable later, so its
/// Sighting is left queued. A writer that answered and said no is the
/// reader's to ask again.
#[derive(Debug)]
pub enum Unwritten {
    /// Never got through. The Sighting stays pending.
    Unreachable(String),
    /// Reached, and the answer was not a Note. The Sighting is marked failed.
    Refused(String),
}

/// What a writer came back with.
pub type Written = Result<String, Unwritten>;

/// One answer, and which asking it answers.
#[derive(Debug)]
pub struct NoteOutcome {
    pub sighting_id: i64,
    pub note: Written,
    pub attempt: u64,
}

/// Which asking each Sighting is on.
pub struct NoteLedger {
    attempt: HashMap<i64, u64>,
    asked: u64,
}

impl NoteLedger {
    /// The asking each Sighting with an answer outstanding is waiting on.
    pub closed spec fn waiting(self) -> Map<i64, u64> {
        self.attempt@
    }

    /// How many askings there have been.
    pub closed spec fn asked(self) -> u64 {
        self.asked
    }

    /// Every outstanding asking is one that has happened.
    #[verifier::type_invariant]
    spec fn wf(self) -> bool {
        forall|id: i64| #[trigger] self.attempt@.contains_key(id) ==> 1 <= self.attempt@[id] <= self.asked
    }

    pub fn new() -> (l: Self)
        ensures
            l.waiting() == Map::<i64, u64>::empty(),
            l.asked() == 0,
    {
        NoteLedger { attempt: HashMap::new(), asked: 0 }
    }

    /// Whether there is a number left for another asking.
    pub fn can_ask(&self) -> (b: bool)
        ensures
            b == (self.asked() < u64::MAX),
    {
        self.asked < u64::MAX
    }

    /// Number a new asking about `sighting_id`. It replaces any earlier asking
    /// about the same Sighting that is still outstanding.
    pub fn ask(&mut self, sighting_id: i64) -> (a: u64)
        requires
            old(self).asked() < u64::MAX,
        ensures
            a == old(self).asked() + 1,
            final(self).asked() == a,
            final(self).waiting() == old(self).waiting().insert(sighting_id, a),
    {
        proof {
            use_type_invariant(&*self);
        }
        self.asked = self.asked + 1;
        let a = self.asked;
        let mut attempt = HashMap::new();
        std::mem::swap(&mut attempt, &mut self.attempt);
        attempt.insert(sighting_id, a);
        self.attempt = attempt;
        a
    }

    /// Take an answer, unless it has been overtaken by a later asking about the
    /// same Sighting, or has already been taken.
    pub fn accept(&mut self, outcome: &NoteOutcome) -> (taken: bool)
        ensures
            final(self).asked() == old(self).asked(),
            taken == takes(old(self).waiting(), outcome.sighting_id, outcome.attempt),
            taken ==> final(self).waiting() == old(self).waiting().remove(outcome.sighting_id),
            !taken ==> final(self).waiting() == old(self).waiting(),
    {
        proof {
            use_type_invariant(&*self);
        }
        let current = match self.attempt.get(&outcome.sighting_id) {
            Some(a) => *a,
            None => 0,
        };
        if current != 0 && current == outcome.attempt {
            let mut attempt = HashMap::new();
            std::mem::swap(&mut attempt, &mut self.attempt);
            attempt.remove(&outcome.sighting_id);
            self.attempt = attempt;
            true
        } else {
            false
        }
    }
}

impl NoteLedger {
    /// Keep a finished Note, unless its asking has been overtaken. A writer
    /// that panicked leaves its Sighting pending rather than failed, so it is
    /// picked up again on the next launch.
    pub fn keep(&mut self, joined: Result<NoteOutcome, tokio::task::JoinError>, finished: &mut Vec<NoteOutcome>)
        ensures
            final(self).asked() == old(self).asked(),
            match joined {
                Ok(outcome) => if takes(old(self).waiting(), outcome.sighting_id, outcome.attempt) {
                    &&& final(finished)@ == old(finished)@.push(outcome)
                    &&& final(self).waiting() == old(self).waiting().remove(outcome.sighting_id)
                } else {
                    &&& final(finished)@ == old(finished)@
                    &&& final(self).waiting() == old(self).waiting()
                },
                Err(_) => final(finished)@ == old(finished)@ && final(self).waiting() == old(self).waiting(),
            },
    {
        match joined {
            Ok(outcome) => {
                if self.accept(&outcome) {
                    finished.push(outcome);
                }
            },
            Err(_) => {},
        }
    }
}

/// Whether an answer about `sighting_id` to asking number `attempt` is taken
/// while `waiting` is outstanding: only if it answers the asking its Sighting
/// is waiting on.
pub open spec fn takes(waiting: Map<i64, u64>, sighting_id: i64, attempt: u64) -> bool {
    waiting.contains_key(sighting_id) && waiting[sighting_id] == attempt
}

/// After two askings about one Sighting, numbered one after the other from
/// `asked` as `ask` numbers them, only the answer to the second is taken, and
/// only once, whichever of the two answers comes back first.
pub proof fn law_only_the_latest_answer_is_taken(waiting: Map<i64, u64>, asked: u64, sighting_id: i64)
    requires
        asked + 2 <= u64::MAX,
    ensures
        ({
            let first = (asked + 1) as u64;
            let second = (asked + 2) as u64;
            let after = waiting.insert(sighting_id, first).insert(sighting_id, second);
            let done = after.remove(sighting_id);
            &&& !takes(after, sighting_id, first)
            &&& takes(after, sighting_id, second)
            &&& !takes(done, sighting_id, first)
            &&& !takes(done, sighting_id, second)
        }),
{
}

/// What a finished Note does to its Sighting.
#[derive(Debug, PartialEq, Eq)]
pub enum Filing {
    /// Written: record the Note, trimmed, and mark the Sighting ready.
    Write(String),
    /// Refused: mark the Sighting failed, visible and retryable.
    Fail,
    /// Unreachable: leave the Sighting pending for a later launch.
    Leave,
}

pub fn filing(note: &Written) -> (f: Filing)
    ensures
        match note {
            Ok(text) => f matches Filing::Write(t) && t@ == trimmed(text@),
            Err(Unwritten::Refused(_)) => f == Filing::Fail,
            Err(Unwritten::Unreachable(_)) => f == Filing::Leave,
        },
{
    match note {
        Ok(text) => Filing::Write(trim(text.as_str())),
        Err(Unwritten::Refused(_)) => Filing::Fail,
        Err(Unwritten::Unreachable(_)) => Filing::Leave,
    }
}

} // verus!
