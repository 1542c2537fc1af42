//! Pushing a card to AnkiConnect: which actions a push asks for, in what
//! order, and what is made of each answer.
//!
//! The HTTP exchange itself happens outside the library: the caller posts the
//! action this module names and hands back what came of it as a [`Reply`].
//! Anki not running is an expected condition, not an error: the push comes
//! back unavailable, the Word stays queued, and nothing about it holds up
//! quitting.
use vstd::prelude::*;

use crate::cards::{Card, Pushed, Unpushed};
use crate::store::SyncState;
use crate::text::{chars_of, decimal, eq_ignore_ascii_case, joined, push_decimal, same_ignoring_ascii_case, trim, trimmed, trimmed_chars};

verus! {

/// One AnkiConnect action a push is made of.
#[derive(Debug, Clone, Copy, PartialEq, Eq)]
pub enum Action {
    /// Make the card's deck. Anki refuses a note for a deck it doesn't have,
    /// and making one that is already there changes nothing.
    CreateDeck,
    /// Add the card as a new note on the stock Basic note type.
    AddNote,
    /// Rewrite the fields of the note the Word already has, so a Word that
    /// gained a Sighting enriches its card rather than growing a second.
    UpdateNoteFields(i64),
    /// Delete the note of a Word that was taken out.
    DeleteNotes(i64),
}

/// The name AnkiConnect knows an action by.
pub open spec fn action_name(a: Action) -> Seq<char> {
    match a {
        Action::CreateDeck => "createDeck"@,
        Action::AddNote => "addNote"@,
        Action::UpdateNoteFields(_) => "updateNoteFields"@,
        Action::DeleteNotes(_) => "deleteNotes"@,
    }
}

impl Action {
    /// The name AnkiConnect knows this action by.
    pub fn name(&self) -> (s: &'static str)
        ensures
            s@ == action_name(*self),
    {
        match self {
            Action::CreateDeck => "createDeck",
            Action::AddNote => "addNote",
            Action::UpdateNoteFields(_) => "updateNoteFields",
            Action::DeleteNotes(_) => "deleteNotes",
        }
    }
}

/// The first action of a push: an update for a Word that already has a note,
/// and otherwise the making of its deck, ahead of the note itself.
pub open spec fn opening(anki_note_id: Option<i64>) -> Action {
    match anki_note_id {
        Some(id) => Action::UpdateNoteFields(id),
        None => Action::CreateDeck,
    }
}

/// The first action a push of `card` asks for.
pub fn first_action(card: &Card) -> (a: Action)
    ensures
        a == opening(card.anki_note_id),
{
    match card.anki_note_id {
        Some(id) => Action::UpdateNoteFields(id),
        None => Action::CreateDeck,
    }
}

/// What came of posting one action.
#[derive(Debug)]
pub enum Reply {
    /// No answer at all: Anki isn't there, or never answered.
    Silent { cause: String },
    /// An answer whose status was not a success. `status` is the status as it
    /// is printed, `body` what came with it.
    Status { status: String, body: String },
    /// A successful answer whose body was not an AnkiConnect answer.
    Unreadable { cause: String },
    /// An AnkiConnect answer, which always has this shape: one of `result` and
    /// `error` is null.
    Answer { result: Option<i64>, error: Option<String> },
}

/// What an action came to, given its reply.
pub open spec fn settled(name: Seq<char>, reply: Reply) -> Result<Option<i64>, (bool, Seq<char>)> {
    match reply {
        Reply::Silent { cause } => Err((true, "asking Anki to "@ + name + ": "@ + cause@)),
        Reply::Status { status, body } => Err(
            (false, "Anki answered "@ + status@ + " to "@ + name + ": "@ + trimmed(body@)),
        ),
        Reply::Unreadable { cause } => Err(
            (false, "reading Anki's answer to "@ + name + ": "@ + cause@),
        ),
        Reply::Answer { result, error } => match error {
            Some(complaint) => Err((false, "Anki wouldn't "@ + name + ": "@ + complaint@)),
            None => Ok(result),
        },
    }
}

/// `u` as the pair [`settled`] speaks of: whether it is unavailability, and
/// what it says.
pub open spec fn unpushed_view(u: Unpushed) -> (bool, Seq<char>) {
    match u {
        Unpushed::Unavailable(why) => (true, why@),
        Unpushed::Refused(why) => (false, why@),
    }
}

/// Read the reply to one action.
///
/// The two failure kinds are the whole of it. No answer at all means Anki
/// isn't there, the ordinary state of the machine, and the Word waits. An
/// answer that isn't a result means Anki was asked something it wouldn't do,
/// which is worth saying rather than retrying silently forever.
pub fn settle(action: Action, reply: Reply) -> (r: Result<Option<i64>, Unpushed>)
    ensures
        match settled(action_name(action), reply) {
            Ok(result) => r == Ok::<Option<i64>, Unpushed>(result),
            Err(why) => r matches Err(u) && unpushed_view(u) == why,
        },
{
    let name = action.name();
    match reply {
        Reply::Silent { cause } => {
            let mut why = joined("asking Anki to ", name);
            why.append(": ");
            why.append(cause.as_str());
            Err(Unpushed::Unavailable(why))
        },
        Reply::Status { status, body } => {
            let mut why = joined("Anki answered ", status.as_str());
            why.append(" to ");
            why.append(name);
            why.append(": ");
            why.append(trim(body.as_str()).as_str());
            Err(Unpushed::Refused(why))
        },
        Reply::Unreadable { cause } => {
            let mut why = joined("reading Anki's answer to ", name);
            why.append(": ");
            why.append(cause.as_str());
            Err(Unpushed::Refused(why))
        },
        Reply::Answer { result, error } => match error {
            Some(complaint) => {
                let mut why = joined("Anki wouldn't ", name);
                why.append(": ");
                why.append(complaint.as_str());
                Err(Unpushed::Refused(why))
            },
            None => Ok(result),
        },
    }
}

/// Where a push stands after an action was answered.
#[derive(Debug)]
pub enum Step {
    /// Post this action next.
    Ask(Action),
    /// The push is over, with this outcome.
    Done(Pushed),
}

/// Whether `complaint` is AnkiConnect saying that note `id` is not there:
/// its own words, `Note was not found: ` and the identifier, in either case.
/// The reading is narrow on purpose: anything else is a refusal, which leaves
/// the Word queued.
pub open spec fn missing_note(complaint: Seq<char>, id: i64) -> bool {
    id >= 0 && same_ignoring_ascii_case(
        trimmed(complaint),
        "note was not found: "@ + decimal(id as nat),
    )
}

/// Whether `reply` to `action` says the note being updated was deleted in
/// Anki.
pub open spec fn note_gone(action: Action, reply: Reply) -> bool {
    match action {
        Action::UpdateNoteFields(id) => match reply {
            Reply::Answer { error: Some(complaint), .. } => missing_note(complaint@, id),
            _ => false,
        },
        _ => false,
    }
}

/// The step after `action` was answered with `reply`.
///
/// A note deleted in Anki is written back as a new one: its stored identifier
/// is stale for good, so the push starts over as for a Word never pushed,
/// making the deck and then the note, and ends with the new note. Otherwise
/// any failure ends the push with it; a deck made is followed by the note; a
/// note added is the push's answer, as long as Anki named it; an update keeps
/// the note the Word already had, and a deletion answers for the note deleted.
pub open spec fn next_step(action: Action, reply: Reply) -> Result<Action, Result<i64, (bool, Seq<char>)>> {
    if note_gone(action, reply) {
        Ok(Action::CreateDeck)
    } else {
        match settled(action_name(action), reply) {
            Err(why) => Err(Err(why)),
            Ok(result) => match action {
                Action::CreateDeck => Ok(Action::AddNote),
                Action::AddNote => match result {
                    Some(id) => Err(Ok(id)),
                    None => Err(Err((false, "Anki added the note but named no identifier"@))),
                },
                Action::UpdateNoteFields(id) => Err(Ok(id)),
                Action::DeleteNotes(id) => Err(Ok(id)),
            },
        }
    }
}

pub open spec fn step_view(s: Step) -> Result<Action, Result<i64, (bool, Seq<char>)>> {
    match s {
        Step::Ask(a) => Ok(a),
        Step::Done(Ok(id)) => Err(Ok(id)),
        Step::Done(Err(u)) => Err(Err(unpushed_view(u))),
    }
}

/// Whether `complaint` says note `id` was not found.
fn says_missing(complaint: &str, id: i64) -> (b: bool)
    ensures
        b == missing_note(complaint@, id),
{
    if id < 0 {
        return false;
    }
    let mut expected = String::from_str("note was not found: ");
    push_decimal(&mut expected, id as u64);
    let wanted = chars_of(expected.as_str());
    let said = trimmed_chars(complaint);
    eq_ignore_ascii_case(&said, &wanted)
}

/// The step after `action` was answered with `reply`.
pub fn after(action: Action, reply: Reply) -> (s: Step)
    ensures
        step_view(s) == next_step(action, reply),
{
    let gone = match (&action, &reply) {
        (Action::UpdateNoteFields(id), Reply::Answer { error: Some(complaint), .. }) => says_missing(
            complaint.as_str(),
            *id,
        ),
        _ => false,
    };
    if gone {
        return Step::Ask(Action::CreateDeck);
    }
    match settle(action, reply) {
        Err(why) => Step::Done(Err(why)),
        Ok(result) => match action {
            Action::CreateDeck => Step::Ask(Action::AddNote),
            Action::AddNote => match result {
                Some(id) => Step::Done(Ok(id)),
                None => Step::Done(
                    Err(Unpushed::Refused(String::from_str("Anki added the note but named no identifier"))),
                ),
            },
            Action::UpdateNoteFields(id) => Step::Done(Ok(id)),
            Action::DeleteNotes(id) => Step::Done(Ok(id)),
        },
    }
}

// -- What is posted -----------------------------------------------------------

/// AnkiConnect listens here and nowhere else.
pub const ENDPOINT: &'static str = "http://127.0.0.1:8765";

/// The version of AnkiConnect's protocol these actions belong to.
pub const PROTOCOL: u8 = 6;

/// Anki's stock two-field note type, whose fields are `Front` and `Back`.
pub const NOTE_TYPE: &'static str = "Basic";

/// Put on every note written, so the reader can tell which cards came from here.
pub const TAG: &'static str = "vocab";

/// The parameters of one action, as AnkiConnect names them.
#[derive(Debug)]
pub enum Params {
    /// `createDeck`: `{ deck }`.
    Deck { deck: String },
    /// `addNote`: `{ note: { deckName, modelName, fields: { Front, Back },
    /// tags: [tag], options: { allowDuplicate } } }`.
    NewNote {
        deck_name: String,
        model_name: &'static str,
        front: String,
        back: String,
        tag: &'static str,
        allow_duplicate: bool,
    },
    /// `updateNoteFields`: `{ note: { id, fields: { Front, Back } } }`.
    ExistingNote { id: i64, front: String, back: String },
    /// `deleteNotes`: `{ notes }`.
    Notes { notes: Vec<i64> },
}

/// One request to AnkiConnect: `{ action, version, params }`, posted to
/// [`ENDPOINT`].
#[derive(Debug)]
pub struct Request {
    pub action: &'static str,
    pub version: u8,
    pub params: Params,
}

/// What `action` asks of Anki for `card`.
///
/// The Word's identity is the note identifier it stores, not its spelling, so
/// duplicates are allowed: a card the reader made for the same word is theirs
/// and does not block this one.
pub fn request_for(action: Action, card: &Card) -> (r: Request)
    ensures
        r.action@ == action_name(action),
        r.version == 6,
        match action {
            Action::CreateDeck => r.params matches Params::Deck { deck } && deck@ == card.deck@,
            Action::AddNote => r.params matches Params::NewNote {
                deck_name,
                model_name,
                front,
                back,
                tag,
                allow_duplicate,
            } && deck_name@ == card.deck@ && model_name@ == NOTE_TYPE@ && front@ == card.front@
                && back@ == card.back@ && tag@ == TAG@ && allow_duplicate,
            Action::UpdateNoteFields(id) => r.params matches Params::ExistingNote { id: i, front, back }
                && i == id && front@ == card.front@ && back@ == card.back@,
            Action::DeleteNotes(id) => r.params matches Params::Notes { notes } && notes@ == seq![id],
        },
{
    let params = match action {
        Action::CreateDeck => Params::Deck { deck: card.deck.clone() },
        Action::AddNote => Params::NewNote {
            deck_name: card.deck.clone(),
            model_name: NOTE_TYPE,
            front: card.front.clone(),
            back: card.back.clone(),
            tag: TAG,
            allow_duplicate: true,
        },
        Action::UpdateNoteFields(id) => Params::ExistingNote {
            id,
            front: card.front.clone(),
            back: card.back.clone(),
        },
        Action::DeleteNotes(id) => {
            let mut notes = Vec::new();
            notes.push(id);
            Params::Notes { notes }
        },
    };
    Request { action: action.name(), version: PROTOCOL, params }
}

/// The request that deletes note `id`.
pub fn deletion_request(id: i64) -> (r: Request)
    ensures
        r.action@ == "deleteNotes"@,
        r.version == 6,
        r.params matches Params::Notes { notes } && notes@ == seq![id],
{
    let mut notes = Vec::new();
    notes.push(id);
    Request { action: Action::DeleteNotes(id).name(), version: PROTOCOL, params: Params::Notes { notes } }
}

/// A push of a Word with a note is one update, and keeps that note.
pub proof fn law_an_update_keeps_the_note(id: i64, result: Option<i64>)
    ensures
        opening(Some(id)) == Action::UpdateNoteFields(id),
        next_step(opening(Some(id)), Reply::Answer { result, error: None })
            == Err::<Action, Result<i64, (bool, Seq<char>)>>(Ok(id)),
{
}

/// A push of a Word with no note makes the deck, then adds the note, and ends
/// with the note Anki named.
pub proof fn law_a_new_card_is_deck_then_note(deck: Option<i64>, id: i64)
    ensures
        opening(None) == Action::CreateDeck,
        next_step(Action::CreateDeck, Reply::Answer { result: deck, error: None })
            == Ok::<Action, Result<i64, (bool, Seq<char>)>>(Action::AddNote),
        next_step(Action::AddNote, Reply::Answer { result: Some(id), error: None })
            == Err::<Action, Result<i64, (bool, Seq<char>)>>(Ok(id)),
{
}

/// A note deleted in Anki is written back as a new one: the update that finds
/// it missing starts the push over at the deck, and the push ends with the new
/// note Anki names.
pub proof fn law_a_deleted_note_is_written_back(id: i64, complaint: String, fresh: i64)
    requires
        missing_note(complaint@, id),
    ensures
        next_step(Action::UpdateNoteFields(id), Reply::Answer { result: None, error: Some(complaint) })
            == Ok::<Action, Result<i64, (bool, Seq<char>)>>(Action::CreateDeck),
        next_step(Action::AddNote, Reply::Answer { result: Some(fresh), error: None })
            == Err::<Action, Result<i64, (bool, Seq<char>)>>(Ok(fresh)),
{
}

/// No answer from Anki, at any action, ends the push as unavailable, which
/// leaves the Word queued rather than synced.
pub proof fn law_silence_is_unavailability(action: Action, cause: String)
    ensures
        next_step(action, Reply::Silent { cause }) matches Err(Err(why)) && why.0,
{
}

/// A Word already in Anki that gains a Sighting goes back on the queue, and
/// its next push updates the note it has rather than making a second card.
pub proof fn law_a_new_sighting_updates_the_existing_card(s: SyncState, note: i64)
    requires
        s.anki_note_id == Some(note),
        0 <= s.changed < i64::MAX,
    ensures
        s.after_change().changed != 0,
        opening(s.after_change().anki_note_id) == Action::UpdateNoteFields(note),
{
}

} // verus!
