//! The vocabulary of the tool: Books, Words, Sightings, Notes and Senses.
use vstd::prelude::*;

use crate::text::{decimal, push_decimal, push_repeat, repeat, same_text};

verus! {

/// A source you are reading and capturing Words from.
#[derive(Debug, PartialEq, Eq)]
pub struct Book {
    pub id: i64,
    pub name: String,
    /// How many Words have been captured from this Book.
    pub word_count: usize,
}

impl Clone for Book {
    fn clone(&self) -> (r: Self)
        ensures
            r == *self,
    {
        Book { id: self.id, name: self.name.clone(), word_count: self.word_count }
    }
}

/// A single lexical item you didn't know, unique by spelling.
#[derive(Debug, PartialEq, Eq)]
pub struct Word {
    pub id: i64,
    pub spelling: String,
}

impl Clone for Word {
    fn clone(&self) -> (r: Self)
        ensures
            r == *self,
    {
        Word { id: self.id, spelling: self.spelling.clone() }
    }
}

/// A calendar date in the reader's own time zone.
#[derive(Debug, Clone, Copy, PartialEq, Eq)]
pub struct CalendarDate {
    pub year: i32,
    pub month: u32,
    pub day: u32,
}

/// Stored rather than inferred, so a Note that was pending when the process
/// exited is still pending when it starts again.
#[derive(Debug, Clone, Copy, PartialEq, Eq)]
pub enum NoteState {
    Pending,
    Ready,
    Failed,
}

/// One encounter with a Word: the sentence, the Book, and the date.
#[derive(Debug)]
pub struct Sighting {
    pub id: i64,
    pub sentence: String,
    pub book_name: String,
    pub captured_at: CalendarDate,
    /// The AI's reading of this Word in this sentence, once one is written.
    pub note: Option<String>,
    pub note_state: NoteState,
}

impl Clone for Sighting {
    fn clone(&self) -> (r: Self)
        ensures
            r == *self,
    {
        Sighting {
            id: self.id,
            sentence: self.sentence.clone(),
            book_name: self.book_name.clone(),
            captured_at: self.captured_at,
            note: match &self.note {
                Some(n) => Some(n.clone()),
                None => None,
            },
            note_state: self.note_state,
        }
    }
}

/// `n` in decimal, zero-padded on the left to at least `width` digits.
pub open spec fn padded(n: nat, width: nat) -> Seq<char> {
    let d = decimal(n);
    if d.len() < width {
        repeat('0', (width - d.len()) as nat) + d
    } else {
        d
    }
}

/// A year as `%Y` writes it: four digits between 0 and 9999, and an explicit
/// sign with at least four digits outside that range.
pub open spec fn year_text(y: int) -> Seq<char> {
    if 0 <= y <= 9999 {
        padded(y as nat, 4)
    } else if y > 9999 {
        seq!['+'] + decimal(y as nat)
    } else {
        seq!['-'] + padded((-y) as nat, 4)
    }
}

/// A date as `%Y-%m-%d` writes it.
pub open spec fn date_text(d: CalendarDate) -> Seq<char> {
    year_text(d.year as int) + seq!['-'] + padded(d.month as nat, 2) + seq!['-'] + padded(
        d.day as nat,
        2,
    )
}

/// Append `n` zero-padded to `width` digits.
pub fn push_padded(out: &mut String, n: u64, width: u64)
    requires
        width <= 4,
    ensures
        final(out)@ == old(out)@ + padded(n as nat, width as nat),
{
    proof {
        crate::text::lemma_decimal_len(n as nat);
    }
    let digits: u64 = if n < 10 {
        1
    } else if n < 100 {
        2
    } else if n < 1000 {
        3
    } else {
        4
    };
    assert(n < 10000 ==> decimal(n as nat).len() == digits);
    if digits < width && n < 10000 {
        push_repeat(out, '0', (width - digits) as usize);
    }
    push_decimal(out, n);
    assert(out@ =~= old(out)@ + padded(n as nat, width as nat));
}

impl Sighting {
    /// The capture date as a reader sees it.
    pub fn captured_on(&self) -> (s: String)
        ensures
            s@ == date_text(self.captured_at),
    {
        let d = self.captured_at;
        let mut s = String::new();
        let y = d.year as i64;
        if 0 <= y && y <= 9999 {
            push_padded(&mut s, y as u64, 4);
        } else if y > 9999 {
            s.push('+');
            push_decimal(&mut s, y as u64);
        } else {
            s.push('-');
            push_padded(&mut s, (-y) as u64, 4);
        }
        s.push('-');
        push_padded(&mut s, d.month as u64, 2);
        s.push('-');
        push_padded(&mut s, d.day as u64, 2);
        assert(s@ =~= date_text(d));
        s
    }
}

impl NoteState {
    pub fn as_str(self) -> (s: &'static str)
        ensures
            s@ == note_state_text(self),
    {
        match self {
            NoteState::Pending => "pending",
            NoteState::Ready => "ready",
            NoteState::Failed => "failed",
        }
    }

    /// Read a state back out of the database.
    ///
    /// Unrecognised values are treated as pending: a Note we cannot classify is
    /// one worth attempting again, and the Sighting itself is never at risk.
    pub fn from_stored(value: &str) -> (s: Self)
        ensures
            s == stored_state(value@),
    {
        if same_text(value, "ready") {
            NoteState::Ready
        } else if same_text(value, "failed") {
            NoteState::Failed
        } else {
            NoteState::Pending
        }
    }
}

/// The state a stored text reads back as: anything unrecognised is pending.
pub open spec fn stored_state(v: Seq<char>) -> NoteState {
    if v == "ready"@ {
        NoteState::Ready
    } else if v == "failed"@ {
        NoteState::Failed
    } else {
        NoteState::Pending
    }
}

/// Reading a state back out of the database gives the state that was written.
pub proof fn law_a_stored_state_reads_back(s: NoteState)
    ensures
        stored_state(note_state_text(s)) == s,
{
    reveal_strlit("ready");
    reveal_strlit("failed");
    reveal_strlit("pending");
    assert("pending"@[0] != "ready"@[0]);
    assert("pending"@[0] != "failed"@[0]);
    assert("failed"@[0] != "ready"@[0]);
}

/// The text `as_str` gives for each state.
pub open spec fn note_state_text(s: NoteState) -> Seq<char> {
    match s {
        NoteState::Pending => "pending"@,
        NoteState::Ready => "ready"@,
        NoteState::Failed => "failed"@,
    }
}

/// What the bundled dictionary says a Word means. A Word may have several.
#[derive(Debug, PartialEq, Eq)]
pub struct Sense {
    pub part_of_speech: String,
    pub definition: String,
}

impl Clone for Sense {
    fn clone(&self) -> (r: Self)
        ensures
            r == *self,
    {
        Sense { part_of_speech: self.part_of_speech.clone(), definition: self.definition.clone() }
    }
}

} // verus!
