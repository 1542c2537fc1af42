use vocab::anki::{after, deletion_request, first_action, request_for, settle, Action, Params, Reply, Step};
use vocab::cards::{Card, Unpushed};

fn card(anki_note_id: Option<i64>) -> Card {
    Card {
        word_id: 1,
        revision: 1,
        anki_note_id,
        deck: "Vocab".to_string(),
        front: "cetacean".to_string(),
        back: "<div>a whale</div>".to_string(),
    }
}

fn answer(result: Option<i64>) -> Reply {
    Reply::Answer { result, error: None }
}

#[test]
fn a_word_never_pushed_starts_by_making_its_deck() {
    assert_eq!(first_action(&card(None)), Action::CreateDeck);
    assert_eq!(first_action(&card(Some(42))), Action::UpdateNoteFields(42));
}

#[test]
fn actions_go_by_ankiconnect_names() {
    assert_eq!(Action::CreateDeck.name(), "createDeck");
    assert_eq!(Action::AddNote.name(), "addNote");
    assert_eq!(Action::UpdateNoteFields(3).name(), "updateNoteFields");
    assert_eq!(Action::DeleteNotes(3).name(), "deleteNotes");
}

#[test]
fn a_new_card_is_a_deck_then_a_note() {
    assert!(matches!(after(Action::CreateDeck, answer(Some(1))), Step::Ask(Action::AddNote)));
    assert!(matches!(after(Action::AddNote, answer(Some(1700))), Step::Done(Ok(1700))));
}

#[test]
fn an_update_keeps_the_note_the_word_already_had() {
    assert!(matches!(after(Action::UpdateNoteFields(42), answer(None)), Step::Done(Ok(42))));
}

#[test]
fn a_note_deleted_in_anki_is_written_back_as_a_new_one() {
    let gone = Reply::Answer { result: None, error: Some("Note was not found: 42".to_string()) };
    assert!(matches!(after(Action::UpdateNoteFields(42), gone), Step::Ask(Action::CreateDeck)));

    // The wording is read narrowly: another note, or another complaint, is a
    // refusal that leaves the Word queued.
    let other = Reply::Answer { result: None, error: Some("Note was not found: 43".to_string()) };
    assert!(matches!(after(Action::UpdateNoteFields(42), other), Step::Done(Err(Unpushed::Refused(_)))));
    let odd = Reply::Answer { result: None, error: Some("collection is not available".to_string()) };
    assert!(matches!(after(Action::UpdateNoteFields(42), odd), Step::Done(Err(Unpushed::Refused(_)))));
}

#[test]
fn a_deletion_answers_for_the_note_deleted() {
    assert!(matches!(after(Action::DeleteNotes(9), answer(None)), Step::Done(Ok(9))));
}

#[test]
fn a_note_added_without_an_identifier_is_refused() {
    match after(Action::AddNote, answer(None)) {
        Step::Done(Err(Unpushed::Refused(why))) => {
            assert_eq!(why, "Anki added the note but named no identifier")
        },
        _ => panic!("a refusal was expected"),
    }
}

#[test]
fn no_answer_means_anki_is_not_running() {
    match after(Action::CreateDeck, Reply::Silent { cause: "connection refused".to_string() }) {
        Step::Done(Err(Unpushed::Unavailable(why))) => {
            assert_eq!(why, "asking Anki to createDeck: connection refused")
        },
        _ => panic!("unavailable was expected"),
    }
}

#[test]
fn an_error_in_the_answer_is_a_refusal() {
    let answer = settle(
        Action::AddNote,
        Reply::Answer { result: None, error: Some("model was not found: Basic".to_string()) },
    );

    assert!(matches!(answer, Err(Unpushed::Refused(why)) if why == "Anki wouldn't addNote: model was not found: Basic"));
}

#[test]
fn an_error_status_or_an_unreadable_body_is_a_refusal() {
    let status = settle(
        Action::AddNote,
        Reply::Status { status: "500 Internal Server Error".to_string(), body: " oops ".to_string() },
    );
    assert!(matches!(status, Err(Unpushed::Refused(why)) if why == "Anki answered 500 Internal Server Error to addNote: oops"));

    let unreadable = settle(Action::CreateDeck, Reply::Unreadable { cause: "EOF".to_string() });
    assert!(matches!(unreadable, Err(Unpushed::Refused(why)) if why == "reading Anki's answer to createDeck: EOF"));
}

#[test]
fn each_action_carries_what_anki_needs() {
    let c = card(Some(42));

    let deck = request_for(Action::CreateDeck, &c);
    assert_eq!((deck.action, deck.version), ("createDeck", 6));
    assert!(matches!(&deck.params, Params::Deck { deck } if deck == "Vocab"));

    let add = request_for(Action::AddNote, &c);
    assert_eq!(add.action, "addNote");
    match &add.params {
        Params::NewNote { deck_name, model_name, front, back, tag, allow_duplicate } => {
            assert_eq!(deck_name, "Vocab");
            assert_eq!(*model_name, "Basic");
            assert_eq!(front, "cetacean");
            assert_eq!(back, "<div>a whale</div>");
            assert_eq!(*tag, "vocab");
            assert!(*allow_duplicate);
        },
        _ => panic!("a new note was expected"),
    }

    let update = request_for(Action::UpdateNoteFields(42), &c);
    assert!(matches!(&update.params, Params::ExistingNote { id: 42, front, .. } if front == "cetacean"));

    let delete = deletion_request(77);
    assert_eq!((delete.action, delete.version), ("deleteNotes", 6));
    assert!(matches!(&delete.params, Params::Notes { notes } if notes == &vec![77]));
}
