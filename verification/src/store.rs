//! What the user database holds, and the rules it keeps.
//!
//! Reading and writing the database file happens outside the library; this
//! module holds the records it hands back and every decision made over them:
//! which Book a name means, how search's corpus is grouped by Word, and when a
//! Word's card is out of date.
use vstd::prelude::*;

use crate::domain::Book;
use crate::text::{chars_of, eq_ignore_ascii_case, same_chars, same_ignoring_ascii_case, trimmed, trimmed_chars};

verus! {

/// What one capture created: the Word it belongs to, and the Sighting itself.
#[derive(Debug, Clone, Copy, PartialEq, Eq)]
pub struct Captured {
    pub word_id: i64,
    pub sighting_id: i64,
}

/// One Word with everything search matches against.
#[derive(Debug)]
pub struct CorpusWord {
    pub word_id: i64,
    pub spelling: String,
    pub sentences: Vec<String>,
    pub books: Vec<String>,
}

/// A `CorpusWord` as plain text.
pub struct CorpusView {
    pub word_id: i64,
    pub spelling: Seq<char>,
    pub sentences: Seq<Seq<char>>,
    pub books: Seq<Seq<char>>,
}

pub open spec fn texts(v: Seq<String>) -> Seq<Seq<char>> {
    v.map_values(|s: String| s@)
}

impl View for CorpusWord {
    type V = CorpusView;

    open spec fn view(&self) -> CorpusView {
        CorpusView {
            word_id: self.word_id,
            spelling: self.spelling@,
            sentences: texts(self.sentences@),
            books: texts(self.books@),
        }
    }
}

/// One row of the join the corpus is read from: a Word, and one of its
/// Sightings with the name of its Book — or neither, for a Word with no
/// Sighting.
#[derive(Debug)]
pub struct CorpusRow {
    pub word_id: i64,
    pub spelling: String,
    pub sentence: Option<String>,
    pub book: Option<String>,
}

pub open spec fn opt_text(o: Option<String>) -> Option<Seq<char>> {
    match o {
        Some(s) => Some(s@),
        None => None,
    }
}

/// Fold one row into a corpus built so far: a row for a Word other than the
/// last one starts a new entry; its sentence is added, and its Book unless
/// that Book is already there.
pub open spec fn fold_row(c: Seq<CorpusView>, r: CorpusRow) -> Seq<CorpusView> {
    let started = if c.len() > 0 && c.last().word_id == r.word_id {
        c
    } else {
        c.push(
            CorpusView {
                word_id: r.word_id,
                spelling: r.spelling@,
                sentences: Seq::empty(),
                books: Seq::empty(),
            },
        )
    };
    let w = started.last();
    let with_sentence = match opt_text(r.sentence) {
        Some(s) => w.sentences.push(s),
        None => w.sentences,
    };
    let with_book = match opt_text(r.book) {
        Some(b) => if w.books.contains(b) {
            w.books
        } else {
            w.books.push(b)
        },
        None => w.books,
    };
    started.update(
        started.len() - 1,
        CorpusView { word_id: w.word_id, spelling: w.spelling, sentences: with_sentence, books: with_book },
    )
}

/// The corpus the rows make, one entry per run of rows for the same Word.
pub open spec fn grouped(rows: Seq<CorpusRow>) -> Seq<CorpusView>
    decreases rows.len(),
{
    if rows.len() == 0 {
        Seq::empty()
    } else {
        fold_row(grouped(rows.drop_last()), rows.last())
    }
}

pub open spec fn views(c: Seq<CorpusWord>) -> Seq<CorpusView> {
    c.map_values(|w: CorpusWord| w@)
}

fn contains_text(v: &Vec<String>, s: &String) -> (b: bool)
    ensures
        b == texts(v@).contains(s@),
{
    let target = chars_of(s.as_str());
    let mut i: usize = 0;
    while i < v.len()
        invariant
            0 <= i <= v@.len(),
            target@ == s@,
            forall|k: int| 0 <= k < i ==> v@[k]@ != s@,
        decreases v@.len() - i,
    {
        let here = chars_of(v[i].as_str());
        if same_chars(&here, &target) {
            assert(texts(v@)[i as int] == s@);
            return true;
        }
        i = i + 1;
    }
    assert(!texts(v@).contains(s@)) by {
        if texts(v@).contains(s@) {
            let k = choose|k: int| 0 <= k < texts(v@).len() && texts(v@)[k] == s@;
            assert(v@[k]@ == s@);
        }
    }
    false
}

/// Every Word with the sentences and Book names attached to it, from rows
/// read in order of Word.
pub fn group_corpus(rows: Vec<CorpusRow>) -> (corpus: Vec<CorpusWord>)
    ensures
        views(corpus@) == grouped(rows@),
{
    let ghost all = rows@;
    let mut corpus: Vec<CorpusWord> = Vec::new();
    let mut rows = rows;
    let n = rows.len();
    // Rows are taken from the front so each one can be moved into place.
    let mut rev: Vec<CorpusRow> = Vec::new();
    while rows.len() > 0
        invariant
            rows@.len() + rev@.len() == n,
            n == all.len(),
            forall|k: int| 0 <= k < rows@.len() ==> rows@[k] == all[k],
            forall|k: int| 0 <= k < rev@.len() ==> rev@[k] == all[n - 1 - k],
        decreases rows@.len(),
    {
        let r = rows.pop().unwrap();
        rev.push(r);
    }
    let mut i: usize = 0;
    while rev.len() > 0
        invariant
            rev@.len() + i == n,
            n == all.len(),
            forall|k: int| 0 <= k < rev@.len() ==> rev@[k] == all[n - 1 - k],
            views(corpus@) == grouped(all.subrange(0, i as int)),
        decreases rev@.len(),
    {
        let row = rev.pop().unwrap();
        let ghost g = row;
        proof {
            assert(row == all[i as int]);
            assert(all.subrange(0, i + 1).drop_last() =~= all.subrange(0, i as int));
            assert(all.subrange(0, i + 1).last() == all[i as int]);
        }
        let ghost before = views(corpus@);
        let start = corpus.len() == 0 || corpus[corpus.len() - 1].word_id != row.word_id;
        if start {
            corpus.push(
                CorpusWord {
                    word_id: row.word_id,
                    spelling: row.spelling,
                    sentences: Vec::new(),
                    books: Vec::new(),
                },
            );
        }
        let ghost started = views(corpus@);
        proof {
            let fresh = CorpusView {
                word_id: g.word_id,
                spelling: g.spelling@,
                sentences: Seq::empty(),
                books: Seq::empty(),
            };
            if start {
                assert(texts(Seq::<String>::empty()) =~= Seq::<Seq<char>>::empty());
                assert(started =~= before.push(fresh));
            } else {
                assert(started =~= before);
            }
        }
        let last = corpus.len() - 1;
        let mut entry = corpus.remove(last);
        let ghost e0 = entry;
        proof {
            assert(views(corpus@) =~= started.subrange(0, last as int));
            assert(e0@ == started.last());
        }
        match row.sentence {
            Some(s) => {
                entry.sentences.push(s);
                proof {
                    assert(texts(entry.sentences@) =~= texts(e0.sentences@).push(s@));
                }
            },
            None => {},
        }
        match row.book {
            Some(b) => {
                if !contains_text(&entry.books, &b) {
                    entry.books.push(b);
                    proof {
                        assert(texts(entry.books@) =~= texts(e0.books@).push(b@));
                    }
                }
            },
            None => {},
        }
        let ghost sub = views(corpus@);
        corpus.push(entry);
        proof {
            assert(views(corpus@) =~= sub.push(entry@));
            assert(views(corpus@) =~= fold_row(before, g));
        }
        i = i + 1;
    }
    assert(all.subrange(0, n as int) =~= all);
    corpus
}

/// Rows read in order of Word make a corpus in which every Word appears once,
/// in that order, and the last entry is the last row's Word.
pub proof fn law_each_word_appears_once(rows: Seq<CorpusRow>)
    requires
        forall|i: int, j: int| 0 <= i <= j < rows.len() ==> rows[i].word_id <= rows[j].word_id,
    ensures
        forall|i: int, j: int|
            0 <= i < j < grouped(rows).len() ==> grouped(rows)[i].word_id < grouped(rows)[j].word_id,
        rows.len() > 0 ==> grouped(rows).len() > 0 && grouped(rows).last().word_id
            == rows.last().word_id,
        rows.len() == 0 ==> grouped(rows).len() == 0,
    decreases rows.len(),
{
    if rows.len() > 0 {
        let prefix = rows.drop_last();
        law_each_word_appears_once(prefix);
        let c = grouped(prefix);
        let r = rows.last();
        if prefix.len() > 0 {
            assert(prefix.last().word_id <= r.word_id);
        }
    }
}

/// No Book is listed twice against one Word.
pub proof fn law_books_listed_once(rows: Seq<CorpusRow>)
    ensures
        forall|w: int, i: int, j: int|
            0 <= w < grouped(rows).len() && 0 <= i < j < grouped(rows)[w].books.len()
                ==> grouped(rows)[w].books[i] != grouped(rows)[w].books[j],
    decreases rows.len(),
{
    if rows.len() > 0 {
        law_books_listed_once(rows.drop_last());
        let c = grouped(rows.drop_last());
        let r = rows.last();
        let g = grouped(rows);
        assert forall|w: int, i: int, j: int|
            0 <= w < g.len() && 0 <= i < j < g[w].books.len() implies g[w].books[i]
            != g[w].books[j] by {
            if w == g.len() - 1 && r.book is Some && j == g[w].books.len() - 1 {
                let started = if c.len() > 0 && c.last().word_id == r.word_id {
                    c
                } else {
                    c.push(
                        CorpusView {
                            word_id: r.word_id,
                            spelling: r.spelling@,
                            sentences: Seq::empty(),
                            books: Seq::empty(),
                        },
                    )
                };
                let old_books = started.last().books;
                if !old_books.contains(r.book->0@) && j == old_books.len() {
                    assert(g[w].books[i] == old_books[i]);
                    if g[w].books[i] == g[w].books[j] {
                        assert(old_books.contains(r.book->0@));
                    }
                }
            }
        }
    }
}

// -- Books ----------------------------------------------------------------------

/// Whether `b` is the Book a reader means by `name`: the same name, ignoring
/// surrounding whitespace and the case of ASCII letters.
pub open spec fn names_book(b: Book, name: Seq<char>) -> bool {
    same_ignoring_ascii_case(b.name@, trimmed(name))
}

/// The first Book in `books` that `name` names.
pub fn find_book_in(books: &Vec<Book>, name: &str) -> (found: Option<Book>)
    ensures
        match found {
            Some(b) => exists|i: int|
                0 <= i < books@.len() && books@[i] == b && names_book(b, name@) && forall|
                    k: int,
                | 0 <= k < i ==> !names_book(#[trigger] books@[k], name@),
            None => forall|k: int| 0 <= k < books@.len() ==> !names_book(#[trigger] books@[k], name@),
        },
{
    let wanted = trimmed_chars(name);
    let mut i: usize = 0;
    while i < books.len()
        invariant
            0 <= i <= books@.len(),
            wanted@ == trimmed(name@),
            forall|k: int| 0 <= k < i ==> !names_book(#[trigger] books@[k], name@),
        decreases books@.len() - i,
    {
        let here = chars_of(books[i].name.as_str());
        if eq_ignore_ascii_case(&here, &wanted) {
            let b = books[i].clone();
            assert(books@[i as int] == b);
            return Some(b);
        }
        i = i + 1;
    }
    None
}

/// The Book in `books` with identifier `id`.
pub fn book_with_id(books: &Vec<Book>, id: i64) -> (found: Option<Book>)
    ensures
        match found {
            Some(b) => b.id == id && books@.contains(b),
            None => forall|k: int| 0 <= k < books@.len() ==> #[trigger] books@[k].id != id,
        },
{
    let mut i: usize = 0;
    while i < books.len()
        invariant
            0 <= i <= books@.len(),
            forall|k: int| 0 <= k < i ==> #[trigger] books@[k].id != id,
        decreases books@.len() - i,
    {
        if books[i].id == id {
            let b = books[i].clone();
            assert(books@[i as int] == b);
            return Some(b);
        }
        i = i + 1;
    }
    None
}

// -- The sync queue -------------------------------------------------------------

/// What the tool knows of one Word's card in Anki.
///
/// `changed` counts edits since the last successful push rather than flagging
/// them, so a Sighting captured while a push is in the air is not taken off
/// the queue by the answer to a question asked before it existed. Zero means
/// the card is up to date.
#[derive(Debug, Clone, Copy, PartialEq, Eq)]
pub struct SyncState {
    pub anki_note_id: Option<i64>,
    pub changed: i64,
}

impl SyncState {
    /// The state once the Word has changed again.
    pub open spec fn after_change(self) -> SyncState {
        SyncState { anki_note_id: self.anki_note_id, changed: (self.changed + 1) as i64 }
    }

    /// The state once a push of the card as it was at `revision` came back as
    /// note `anki_note_id`.
    pub open spec fn after_push(self, anki_note_id: i64, revision: i64) -> SyncState {
        SyncState {
            anki_note_id: Some(anki_note_id),
            changed: if self.changed == revision {
                0
            } else {
                self.changed
            },
        }
    }

    /// A Word just captured: never pushed, and on the queue.
    pub fn fresh() -> (s: Self)
        ensures
            s.anki_note_id is None,
            s.changed == 1,
    {
        SyncState { anki_note_id: None, changed: 1 }
    }

    /// The Word no longer says what its card says.
    pub fn changed_again(self) -> (s: Self)
        requires
            self.changed < i64::MAX,
        ensures
            s == self.after_change(),
    {
        SyncState { anki_note_id: self.anki_note_id, changed: self.changed + 1 }
    }

    /// A push of the card as it was at `revision` came back as note
    /// `anki_note_id`. The identifier is kept whatever else happened; the Word
    /// only comes off the queue if nothing has changed it since.
    pub fn pushed(self, anki_note_id: i64, revision: i64) -> (s: Self)
        ensures
            s == self.after_push(anki_note_id, revision),
    {
        SyncState {
            anki_note_id: Some(anki_note_id),
            changed: if self.changed == revision {
                0
            } else {
                self.changed
            },
        }
    }

    /// Whether the Word's card is out of date.
    pub fn queued(self) -> (q: bool)
        ensures
            q == (self.changed != 0),
    {
        self.changed != 0
    }
}

/// A push of the revision that is current takes the Word off the queue and
/// remembers its note.
pub proof fn law_push_of_current_revision_dequeues(s: SyncState, note: i64)
    ensures
        s.after_push(note, s.changed).changed == 0,
        s.after_push(note, s.changed).anki_note_id == Some(note),
{
}

/// However many changes are made while a push is in the air, the Word stays
/// queued once it comes back, and the note it came back with is remembered so
/// the next push updates that note rather than making a second one.
pub proof fn law_change_during_push_stays_queued(s: SyncState, note: i64, changes: nat)
    requires
        s.changed >= 0,
        changes >= 1,
        s.changed + changes <= i64::MAX,
    ensures
        ({
            let edited = SyncState { anki_note_id: s.anki_note_id, changed: (s.changed + changes) as i64 };
            &&& edited.after_push(note, s.changed).changed != 0
            &&& edited.after_push(note, s.changed).anki_note_id == Some(note)
        }),
{
}

/// Changing a Word repeatedly is counting its changes one by one.
pub proof fn law_changes_count_up(s: SyncState)
    requires
        s.changed < i64::MAX - 1,
    ensures
        s.after_change().after_change().changed == s.changed + 2,
        s.after_change().anki_note_id == s.anki_note_id,
{
}

} // verus!
