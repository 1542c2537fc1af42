//! A reader's sessions, driven key by key through the library's App.
//!
//! The App asks for what it needs and is answered here, as the binary answers
//! it: from an in-memory stand-in for the database, a small stand-in for the
//! dictionary, a Note writer that never leaves the process, and an Anki that
//! never leaves it either. What is asserted is what the reader would see: the
//! lines the library draws, plus the cards handed to Anki, which have no
//! expression on screen.

use std::collections::BTreeMap;

use chrono::Datelike;
use vocab::app::{Answer, App, Ask, Key, KeyPress};
use vocab::cards::{Card, CardOutcome, CardRequest, Deletion, Synced, Unpushed};
use vocab::config::{Config, DEFAULT_DECK};
use vocab::dictionary::lookup_key;
use vocab::domain::{Book, CalendarDate, NoteState, Sense, Sighting, Word};
use vocab::notes::{filing, Filing, NoteLedger, NoteOutcome, NoteRequest, Unwritten};
use vocab::store::{book_with_id, find_book_in, group_corpus, Captured, CorpusRow, CorpusWord, SyncState};
use vocab::ui::{input_line, message_line, screen_lines, Line};

// -- The database -------------------------------------------------------------

struct SightingRow {
    id: i64,
    word_id: i64,
    book_id: i64,
    sentence: String,
    captured_at: CalendarDate,
    note: Option<String>,
    state: NoteState,
}

/// What survives a restart: Books, Words, Sightings, the Current Book, and
/// what Anki holds for each Word.
#[derive(Default)]
struct Db {
    books: Vec<(i64, String)>,
    current: Option<i64>,
    words: Vec<(i64, String)>,
    sightings: Vec<SightingRow>,
    sync: BTreeMap<i64, SyncState>,
    removals: Vec<i64>,
    last_id: i64,
}

fn today() -> CalendarDate {
    let now = chrono::Local::now();
    CalendarDate { year: now.year(), month: now.month(), day: now.day() }
}

impl Db {
    fn next_id(&mut self) -> i64 {
        self.last_id += 1;
        self.last_id
    }

    fn books(&self) -> Vec<Book> {
        let mut books: Vec<Book> = self
            .books
            .iter()
            .map(|(id, name)| {
                let mut words: Vec<i64> =
                    self.sightings.iter().filter(|s| s.book_id == *id).map(|s| s.word_id).collect();
                words.sort();
                words.dedup();
                Book { id: *id, name: name.clone(), word_count: words.len() }
            })
            .collect();
        books.sort_by_key(|b| b.name.to_lowercase());
        books
    }

    fn find_book(&self, name: &str) -> Option<Book> {
        find_book_in(&self.books(), name)
    }

    fn add_book(&mut self, name: &str) -> i64 {
        let name = name.trim();
        if let Some(book) = self.find_book(name) {
            return book.id;
        }
        let id = self.next_id();
        self.books.push((id, name.to_string()));
        id
    }

    fn current_book(&self) -> Option<Book> {
        self.current.and_then(|id| book_with_id(&self.books(), id))
    }

    fn find_word(&self, spelling: &str) -> Option<Word> {
        let spelling = spelling.trim();
        self.words
            .iter()
            .find(|(_, s)| s.eq_ignore_ascii_case(spelling))
            .map(|(id, s)| Word { id: *id, spelling: s.clone() })
    }

    fn word(&self, word_id: i64) -> Option<Word> {
        self.words.iter().find(|(id, _)| *id == word_id).map(|(id, s)| Word { id: *id, spelling: s.clone() })
    }

    fn capture(&mut self, spelling: &str, book_id: i64, sentence: &str) -> Captured {
        let spelling = spelling.trim();
        let word_id = match self.find_word(spelling) {
            Some(word) => word.id,
            None => {
                let id = self.next_id();
                self.words.push((id, spelling.to_string()));
                id
            },
        };
        let sighting_id = self.next_id();
        self.sightings.push(SightingRow {
            id: sighting_id,
            word_id,
            book_id,
            sentence: sentence.trim().to_string(),
            captured_at: today(),
            note: None,
            state: NoteState::Pending,
        });
        self.mark_card_changed(word_id);
        Captured { word_id, sighting_id }
    }

    fn book_name(&self, book_id: i64) -> String {
        self.books.iter().find(|(id, _)| *id == book_id).map(|(_, n)| n.clone()).unwrap_or_default()
    }

    /// Most recent first.
    fn sightings(&self, word_id: i64) -> Vec<Sighting> {
        let mut rows: Vec<&SightingRow> = self.sightings.iter().filter(|s| s.word_id == word_id).collect();
        rows.sort_by_key(|s| std::cmp::Reverse(s.id));
        rows.into_iter()
            .map(|s| Sighting {
                id: s.id,
                sentence: s.sentence.clone(),
                book_name: self.book_name(s.book_id),
                captured_at: s.captured_at,
                note: s.note.clone(),
                note_state: s.state,
            })
            .collect()
    }

    fn note_request(&self, sighting_id: i64) -> Option<NoteRequest> {
        let s = self.sightings.iter().find(|s| s.id == sighting_id)?;
        Some(NoteRequest {
            sighting_id,
            spelling: self.word(s.word_id)?.spelling,
            sentence: s.sentence.clone(),
            book_name: self.book_name(s.book_id),
        })
    }

    fn pending_notes(&self) -> Vec<NoteRequest> {
        self.sightings
            .iter()
            .filter(|s| s.state == NoteState::Pending)
            .filter_map(|s| self.note_request(s.id))
            .collect()
    }

    fn sighting_mut(&mut self, sighting_id: i64) -> Option<&mut SightingRow> {
        self.sightings.iter_mut().find(|s| s.id == sighting_id)
    }

    fn write_note(&mut self, sighting_id: i64, note: &str) {
        let word_id = self.sighting_mut(sighting_id).map(|s| {
            s.note = Some(note.trim().to_string());
            s.state = NoteState::Ready;
            s.word_id
        });
        if let Some(word_id) = word_id {
            self.mark_card_changed(word_id);
        }
    }

    fn fail_note(&mut self, sighting_id: i64) {
        if let Some(s) = self.sighting_mut(sighting_id) {
            s.state = NoteState::Failed;
        }
    }

    fn queue_note(&mut self, sighting_id: i64) {
        if let Some(s) = self.sighting_mut(sighting_id) {
            s.note = None;
            s.state = NoteState::Pending;
        }
    }

    fn correct_sentence(&mut self, sighting_id: i64, sentence: &str) {
        let word_id = self.sighting_mut(sighting_id).map(|s| {
            s.sentence = sentence.trim().to_string();
            s.note = None;
            s.state = NoteState::Pending;
            s.word_id
        });
        if let Some(word_id) = word_id {
            self.mark_card_changed(word_id);
        }
    }

    fn mark_card_changed(&mut self, word_id: i64) {
        let next = match self.sync.get(&word_id) {
            Some(state) => state.changed_again(),
            None => SyncState::fresh(),
        };
        self.sync.insert(word_id, next);
    }

    fn changed_cards(&self) -> Vec<CardRequest> {
        let mut words = self.words.clone();
        words.sort();
        words
            .into_iter()
            .filter_map(|(id, spelling)| {
                let state = self.sync.get(&id)?;
                (state.changed != 0).then(|| CardRequest {
                    word_id: id,
                    spelling,
                    anki_note_id: state.anki_note_id,
                    revision: state.changed,
                })
            })
            .collect()
    }

    fn mark_synced(&mut self, word_id: i64, anki_note_id: i64, revision: i64) {
        match self.sync.get(&word_id).copied() {
            Some(state) => {
                self.sync.insert(word_id, state.pushed(anki_note_id, revision));
            },
            None => self.queue_removal(anki_note_id),
        }
    }

    fn queue_removal(&mut self, anki_note_id: i64) {
        if !self.removals.contains(&anki_note_id) {
            self.removals.push(anki_note_id);
            self.removals.sort();
        }
    }

    fn removed(&mut self, anki_note_id: i64) {
        self.removals.retain(|n| *n != anki_note_id);
    }

    fn remove_word(&mut self, word_id: i64) {
        if let Some(SyncState { anki_note_id: Some(note), .. }) = self.sync.get(&word_id).copied() {
            self.queue_removal(note);
        }
        self.sightings.retain(|s| s.word_id != word_id);
        self.sync.remove(&word_id);
        self.words.retain(|(id, _)| *id != word_id);
    }

    fn corpus(&self) -> Vec<CorpusWord> {
        let mut words = self.words.clone();
        words.sort();
        let mut rows = Vec::new();
        for (id, spelling) in words {
            let mut mine: Vec<&SightingRow> = self.sightings.iter().filter(|s| s.word_id == id).collect();
            mine.sort_by_key(|s| s.id);
            if mine.is_empty() {
                rows.push(CorpusRow { word_id: id, spelling: spelling.clone(), sentence: None, book: None });
            }
            for s in mine {
                rows.push(CorpusRow {
                    word_id: id,
                    spelling: spelling.clone(),
                    sentence: Some(s.sentence.clone()),
                    book: Some(self.book_name(s.book_id)),
                });
            }
        }
        group_corpus(rows)
    }
}

// -- The dictionary -----------------------------------------------------------

/// The senses of the few Words these sessions look up, as the bundled WordNet
/// gives them, most common first.
fn look_up(spelling: &str) -> Vec<Sense> {
    let sense = |pos: &str, definition: &str| Sense {
        part_of_speech: pos.to_string(),
        definition: definition.to_string(),
    };
    match lookup_key(spelling).as_str() {
        "cetacean" => vec![
            sense(
                "noun",
                "large aquatic carnivorous mammal with fin-like forelimbs no hind limbs, including: whales; dolphins; porpoises; narwhals",
            ),
            sense("adjective", "relating to or belonging to the order Cetacea"),
        ],
        "abnegation" => vec![
            sense("noun", "renunciation of your own interests in favor of the interests of others"),
            sense("noun", "the denial and rejection of a doctrine or belief"),
            sense("noun", "the act of renouncing; sacrificing or giving up or surrendering (a possession or right or title or privilege etc.)"),
        ],
        "sesquipedalian" => vec![
            sense("noun", "a very long word"),
            sense("adjective", "given to the overuse of long words"),
        ],
        "doubloon" => vec![sense("noun", "a former Spanish gold coin")],
        "sonorous" => vec![sense("adjective", "full and loud and deep")],
        _ => Vec::new(),
    }
}

// -- The Note writer ----------------------------------------------------------

#[derive(Debug, Clone, Copy, PartialEq, Eq)]
enum Answering {
    /// Answers, every time.
    Always,
    /// Answers, but each answer lands after every answer asked after it.
    Slowly,
    /// Answers, and the answer is no.
    Refusing,
    /// Cannot be reached at all.
    Unreachable,
}

/// Numbers each answer, and echoes back the Word, the Book and the sentence it
/// was handed, so the screen alone shows what reached it.
struct Writer {
    attempts: usize,
    answering: Answering,
}

impl Writer {
    fn write(&mut self, request: &NoteRequest) -> Result<String, Unwritten> {
        self.attempts += 1;
        match self.answering {
            Answering::Refusing => Err(Unwritten::Refused("this writer was asked to refuse".to_string())),
            Answering::Unreachable => Err(Unwritten::Unreachable("this writer cannot be reached".to_string())),
            Answering::Always | Answering::Slowly => Ok(format!(
                "reading {} of {:?} from {}: {}",
                self.attempts, request.spelling, request.book_name, request.sentence
            )),
        }
    }
}

// -- Anki -----------------------------------------------------------------------

#[derive(Debug, Clone, Copy, PartialEq, Eq)]
enum Anki {
    Open,
    Shut,
    Refusing,
    /// Takes the question and never answers it.
    Hanging,
}

/// Keeps every card it took and every note it deleted.
struct FakeAnki {
    behaving: Anki,
    written: Vec<Card>,
    deleted: Vec<i64>,
    next_note_id: i64,
}

impl FakeAnki {
    fn push(&mut self, card: &Card) -> Option<Result<i64, Unpushed>> {
        match self.behaving {
            Anki::Hanging => None,
            Anki::Shut => Some(Err(Unpushed::Unavailable("this Anki isn't running".to_string()))),
            Anki::Refusing => Some(Err(Unpushed::Refused("this Anki was asked to refuse".to_string()))),
            Anki::Open => {
                let note = match card.anki_note_id {
                    Some(id) => id,
                    None => {
                        self.next_note_id += 1;
                        self.next_note_id
                    },
                };
                self.written.push(card.clone());
                Some(Ok(note))
            },
        }
    }

    fn delete(&mut self, note: i64) -> Option<Result<(), Unpushed>> {
        match self.behaving {
            Anki::Hanging => None,
            Anki::Shut => Some(Err(Unpushed::Unavailable("this Anki isn't running".to_string()))),
            Anki::Refusing => Some(Err(Unpushed::Refused("this Anki was asked to refuse".to_string()))),
            Anki::Open => {
                self.deleted.push(note);
                Some(Ok(()))
            },
        }
    }
}

// -- One session ----------------------------------------------------------------

#[derive(Debug, Clone, Copy)]
struct Setup {
    answering: Option<Answering>,
    anki: Anki,
    deck: &'static str,
    sync_on_exit: bool,
    complaint: Option<&'static str>,
}

impl Default for Setup {
    fn default() -> Self {
        Setup { answering: Some(Answering::Always), anki: Anki::Open, deck: DEFAULT_DECK, sync_on_exit: true, complaint: None }
    }
}

struct Harness {
    app: App,
    db: Db,
    setup: Setup,
    writer: Option<Writer>,
    anki: FakeAnki,
    ledger: NoteLedger,
    notes_in_flight: Vec<(NoteRequest, u64)>,
    pushes_in_flight: Vec<Card>,
    deletions_in_flight: Vec<i64>,
}

impl Harness {
    fn new() -> Self {
        Self::set_up(Setup::default())
    }

    fn failing() -> Self {
        Self::set_up(Setup { answering: Some(Answering::Refusing), ..Setup::default() })
    }

    #[allow(dead_code)]
    fn offline() -> Self {
        Self::set_up(Setup { answering: Some(Answering::Unreachable), ..Setup::default() })
    }

    #[allow(dead_code)]
    fn dawdling() -> Self {
        Self::set_up(Setup { answering: Some(Answering::Slowly), ..Setup::default() })
    }

    fn without_notes() -> Self {
        Self::set_up(Setup { answering: None, ..Setup::default() })
    }

    fn anki_closed() -> Self {
        Self::set_up(Setup { anki: Anki::Shut, ..Setup::default() })
    }

    fn anki_refusing() -> Self {
        Self::set_up(Setup { anki: Anki::Refusing, ..Setup::default() })
    }

    fn anki_hanging() -> Self {
        Self::set_up(Setup { anki: Anki::Hanging, ..Setup::default() })
    }

    fn with_deck(deck: &'static str) -> Self {
        Self::set_up(Setup { deck, ..Setup::default() })
    }

    fn without_sync_on_exit() -> Self {
        Self::set_up(Setup { sync_on_exit: false, ..Setup::default() })
    }

    fn with_an_unusable_config(complaint: &'static str) -> Self {
        Self::set_up(Setup { complaint: Some(complaint), ..Setup::default() })
    }

    fn set_up(setup: Setup) -> Self {
        let writer = setup.answering.map(|answering| Writer { attempts: 0, answering });
        let anki = FakeAnki { behaving: setup.anki, written: Vec::new(), deleted: Vec::new(), next_note_id: 1_700_000_000_000 };
        Self::open(Db::default(), setup, writer, anki)
    }

    fn open(db: Db, setup: Setup, writer: Option<Writer>, anki: FakeAnki) -> Self {
        let config = Config {
            deck: setup.deck.to_string(),
            sync_on_exit: setup.sync_on_exit,
            complaint: setup.complaint.map(str::to_string),
        };
        let app = App::new(db.corpus(), config, writer.is_some());
        let mut harness = Harness {
            app,
            db,
            setup,
            writer,
            anki,
            ledger: NoteLedger::new(),
            notes_in_flight: Vec::new(),
            pushes_in_flight: Vec::new(),
            deletions_in_flight: Vec::new(),
        };
        // The backlog: what was still pending when the tool last closed.
        for request in harness.db.pending_notes() {
            harness.enqueue(request);
        }
        harness
    }

    /// Close the tool and open it again on the same database. Whatever was in
    /// the air is gone; the writer and Anki carry over.
    fn restart(self) -> Self {
        let Harness { db, setup, writer, anki, .. } = self;
        Self::open(db, setup, writer, anki)
    }

    fn enqueue(&mut self, request: NoteRequest) {
        if self.writer.is_none() {
            return;
        }
        assert!(self.ledger.can_ask());
        let attempt = self.ledger.ask(request.sighting_id);
        self.notes_in_flight.push((request, attempt));
    }

    /// Answer what the App asks, until it asks for nothing more.
    fn serve(&mut self, mut ask: Ask) {
        loop {
            let answer = match ask {
                Ask::Nothing => return,
                Ask::Context { spelling } => {
                    Answer::Context { book: self.db.current_book(), word: self.db.find_word(&spelling) }
                },
                Ask::CurrentBook => Answer::Book(self.db.current_book()),
                Ask::Record { spelling, book_id, sentence } => {
                    let captured = self.db.capture(&spelling, book_id, &sentence);
                    Answer::Recorded { captured, corpus: self.db.corpus(), word: self.db.word(captured.word_id) }
                },
                Ask::Detail { word } => {
                    Answer::Detail { senses: look_up(&word.spelling), sightings: self.db.sightings(word.id) }
                },
                Ask::FindBook { name } => Answer::Book(self.db.find_book(&name)),
                Ask::SetCurrentBook { book_id } => {
                    self.db.current = Some(book_id);
                    Answer::Done
                },
                Ask::AddBook { name } => Answer::BookId(self.db.add_book(&name)),
                Ask::Books => Answer::Books(self.db.books()),
                Ask::Word { word_id } => Answer::Word(self.db.word(word_id)),
                Ask::WriteNote { sighting_id } => {
                    if let Some(request) = self.db.note_request(sighting_id) {
                        self.enqueue(request);
                    }
                    Answer::Done
                },
                Ask::Explain { sighting_id } => {
                    self.db.queue_note(sighting_id);
                    if let Some(request) = self.db.note_request(sighting_id) {
                        self.enqueue(request);
                    }
                    Answer::Done
                },
                Ask::Sync => Answer::Pushing(self.push_changed()),
                Ask::Correct { sighting_id, sentence } => {
                    self.db.correct_sentence(sighting_id, &sentence);
                    Answer::Corpus(self.db.corpus())
                },
                Ask::Remove { word_id } => {
                    self.db.remove_word(word_id);
                    Answer::Corpus(self.db.corpus())
                },
            };
            ask = self.app.answer(answer);
        }
    }

    fn push_changed(&mut self) -> usize {
        let removals = self.db.removals.clone();
        let requests = self.db.changed_cards();
        let count = removals.len() + requests.len();
        self.deletions_in_flight.extend(removals);
        let deck = self.app.deck().to_string();
        for request in requests {
            let senses = look_up(&request.spelling);
            let sightings = self.db.sightings(request.word_id);
            self.pushes_in_flight.push(Card::assemble(&request, &deck, &senses, &sightings));
        }
        count
    }

    // -- Driving ------------------------------------------------------------

    /// Let every Note and every card in the air come back, Notes first.
    fn settle(&mut self) -> &mut Self {
        self.settle_notes();
        let (outcomes, deletions) = self.answer_pushes();
        self.collect_synced(outcomes, deletions, false);
        self
    }

    fn settle_notes(&mut self) {
        let asked = std::mem::take(&mut self.notes_in_flight);
        if asked.is_empty() {
            return;
        }
        let writer = self.writer.as_mut().expect("a writer for the Notes in the air");
        let mut answered: Vec<NoteOutcome> = asked
            .iter()
            .map(|(request, attempt)| NoteOutcome {
                sighting_id: request.sighting_id,
                note: writer.write(request),
                attempt: *attempt,
            })
            .collect();
        if writer.answering == Answering::Slowly {
            answered.reverse();
        }
        let mut finished = Vec::new();
        for outcome in answered {
            self.ledger.keep(Ok::<NoteOutcome, tokio::task::JoinError>(outcome), &mut finished);
        }
        let mut filed = Vec::new();
        for outcome in finished {
            match filing(&outcome.note) {
                Filing::Write(note) => self.db.write_note(outcome.sighting_id, &note),
                Filing::Fail => self.db.fail_note(outcome.sighting_id),
                Filing::Leave => {},
            }
            filed.push(outcome.sighting_id);
        }
        let ask = self.app.notes_filed(&filed);
        self.serve(ask);
    }

    /// What Anki answered; what it never answered stays in the air.
    fn answer_pushes(&mut self) -> (Vec<CardOutcome>, Vec<Deletion>) {
        let mut outcomes = Vec::new();
        let mut waiting = Vec::new();
        for card in std::mem::take(&mut self.pushes_in_flight) {
            match self.anki.push(&card) {
                Some(pushed) => outcomes.push(CardOutcome { word_id: card.word_id, revision: card.revision, pushed }),
                None => waiting.push(card),
            }
        }
        self.pushes_in_flight = waiting;
        let mut deletions = Vec::new();
        let mut waiting = Vec::new();
        for note in std::mem::take(&mut self.deletions_in_flight) {
            match self.anki.delete(note) {
                Some(deleted) => deletions.push(Deletion { anki_note_id: note, deleted }),
                None => waiting.push(note),
            }
        }
        self.deletions_in_flight = waiting;
        (outcomes, deletions)
    }

    fn collect_synced(&mut self, outcomes: Vec<CardOutcome>, deletions: Vec<Deletion>, abandon: bool) {
        if outcomes.is_empty() && deletions.is_empty() && !abandon {
            return;
        }
        let (landed, deleted): (Vec<Synced>, Vec<i64>) = self.app.pushes_returned(outcomes, deletions, abandon);
        for synced in landed {
            self.db.mark_synced(synced.word_id, synced.anki_note_id, synced.revision);
        }
        for note in deleted {
            self.db.removed(note);
        }
    }

    /// Leave, pushing what changed on the way out and giving up on whatever
    /// Anki does not answer.
    fn leave(&mut self) -> &mut Self {
        let ask = self.app.start_leaving();
        self.serve(ask);
        if self.app.is_syncing() {
            let (outcomes, deletions) = self.answer_pushes();
            self.pushes_in_flight.clear();
            self.deletions_in_flight.clear();
            self.collect_synced(outcomes, deletions, true);
        }
        self
    }

    fn notes_recover(&mut self) -> &mut Self {
        self.writer.as_mut().expect("a writer to recover").answering = Answering::Always;
        self
    }

    fn anki_opens(&mut self) -> &mut Self {
        self.anki.behaving = Anki::Open;
        self
    }

    fn anki_shuts(&mut self) -> &mut Self {
        self.anki.behaving = Anki::Shut;
        self
    }

    fn press(&mut self, key: Key) -> &mut Self {
        let ask = self.app.handle_key(KeyPress { key, control: false, pressed: true });
        self.serve(ask);
        self
    }

    fn type_text(&mut self, text: &str) -> &mut Self {
        for c in text.chars() {
            self.press(Key::Char(c));
        }
        self
    }

    fn enter(&mut self) -> &mut Self {
        self.press(Key::Enter)
    }

    fn submit(&mut self, text: &str) -> &mut Self {
        self.type_text(text).enter()
    }

    fn is_running(&self) -> bool {
        self.app.is_running()
    }

    // -- Asserting ----------------------------------------------------------

    fn cards(&self) -> Vec<Card> {
        self.anki.written.clone()
    }

    fn cards_removed(&self) -> Vec<i64> {
        self.anki.deleted.clone()
    }

    fn farewell(&self) -> Option<&str> {
        self.app.farewell()
    }

    fn anki_notes_created(&self) -> usize {
        self.anki.written.iter().filter(|c| c.anki_note_id.is_none()).count()
    }

    fn screen(&mut self) -> String {
        let current = self.db.current_book();
        let mut lines: Vec<String> =
            screen_lines(self.app.screen(), self.app.input(), current.as_ref()).iter().map(text_of).collect();
        lines.push(text_of(&message_line(self.app.message())));
        lines.push(text_of(&input_line(self.app.prompt(), self.app.input())));
        lines.join("\n")
    }

    fn input_line(&mut self) -> String {
        text_of(&input_line(self.app.prompt(), self.app.input())).trim().to_string()
    }

    fn assert_shows(&mut self, expected: &str) -> &mut Self {
        let screen = self.screen();
        assert!(
            flatten(&screen).contains(&flatten(expected)),
            "expected the screen to show {expected:?}\n\n--- screen ---\n{screen}\n--------------"
        );
        self
    }

    fn assert_does_not_show(&mut self, unexpected: &str) -> &mut Self {
        let screen = self.screen();
        assert!(
            !flatten(&screen).contains(&flatten(unexpected)),
            "expected the screen not to show {unexpected:?}\n\n--- screen ---\n{screen}\n--------------"
        );
        self
    }

    fn count_of(&mut self, needle: &str) -> usize {
        flatten(&self.screen()).matches(&flatten(needle)).count()
    }

    fn assert_shows_in_order(&mut self, first: &str, second: &str) -> &mut Self {
        let screen = self.screen();
        let flattened = flatten(&screen);
        let (Some(above), Some(below)) = (flattened.find(&flatten(first)), flattened.find(&flatten(second))) else {
            panic!("expected the screen to show both {first:?} and {second:?}\n\n--- screen ---\n{screen}\n--------------");
        };
        assert!(above < below, "expected {first:?} to come before {second:?}\n\n--- screen ---\n{screen}\n--------------");
        self
    }
}

fn text_of(line: &Line) -> String {
    line.spans.iter().map(|s| s.text.as_str()).collect()
}

/// The screen as one whitespace-normalised line, so where a line wrapped
/// does not matter.
fn flatten(text: &str) -> String {
    text.split_whitespace().collect::<Vec<_>>().join(" ")
}

fn today_text() -> String {
    chrono::Local::now().format("%Y-%m-%d").to_string()
}

// -- orienting -------------------------------------------------------------
#[test]
fn the_opening_screen_shows_ascii_art() {
    let mut vocab = Harness::new();

    // The middle bar of the "v", which no other screen draws.
    vocab.assert_shows("╚██╗ ██╔╝");
}

#[test]
fn the_opening_screen_shows_which_book_is_being_read() {
    let mut vocab = Harness::new();
    vocab.submit("/book Moby-Dick").press(Key::Char('y'));

    vocab.assert_shows("Reading Moby-Dick");
}

#[test]
fn help_lists_every_command_and_what_it_takes() {
    let mut vocab = Harness::new();

    vocab.submit("/help");

    vocab
        .assert_shows("/add <word>")
        .assert_shows("/book <name>")
        .assert_shows("/library")
        .assert_shows("/help")
        .assert_shows("/quit");
}

#[test]
fn argument_hints_appear_as_a_command_is_typed() {
    let mut vocab = Harness::new();

    vocab.type_text("/ad");

    // The completion and the argument are both shown ahead of the cursor.
    vocab.assert_shows("/add <word>");
}

#[test]
fn a_hint_waits_until_one_command_is_meant() {
    let mut vocab = Harness::new();

    // A bare slash could still become any of them, so nothing is guessed.
    vocab.type_text("/");
    assert_eq!(vocab.input_line(), "› /");

    // One more character settles it.
    vocab.type_text("b");
    assert_eq!(vocab.input_line(), "› /book <name>");
}

#[test]
fn a_hint_stops_once_the_argument_is_being_typed() {
    let mut vocab = Harness::new();

    vocab.type_text("/add pequod");

    assert_eq!(vocab.input_line(), "› /add pequod");
}

#[test]
fn an_unknown_command_says_so_rather_than_searching() {
    let mut vocab = Harness::new();

    vocab.submit("/nonsense");

    vocab.assert_shows("isn't a command");
}

#[test]
fn add_on_its_own_says_what_it_needs() {
    let mut vocab = Harness::new();

    vocab.submit("/add");

    vocab.assert_shows("/add takes the Word you met");
}

#[test]
fn a_word_must_be_a_single_word() {
    let mut vocab = Harness::new();
    vocab.submit("/book Moby-Dick").press(Key::Char('y'));

    vocab.submit("/add hard cash");

    vocab.assert_shows("A Word is a single word");
}

/// Quitting is the one behaviour with no expression on screen — the tool is
/// gone. This is the only assertion in the suite that reads application state
/// rather than the rendered buffer.
#[test]
fn quit_stops_the_tool() {
    let mut vocab = Harness::new();
    assert!(vocab.is_running());

    vocab.submit("/quit");

    assert!(!vocab.is_running());
}

#[test]
fn escape_from_a_search_returns_to_the_opening_screen() {
    let mut vocab = Harness::new();
    vocab.submit("/book Moby-Dick").press(Key::Char('y'));
    vocab.type_text("cet");

    vocab.press(Key::Esc);

    vocab.assert_shows("Reading Moby-Dick");
}

// -- library ---------------------------------------------------------------
#[test]
fn switching_to_an_unknown_book_offers_to_add_it() {
    let mut vocab = Harness::new();

    vocab.submit("/book Moby-Dick");

    vocab.assert_shows("not in your Library");
}

#[test]
fn accepting_adds_the_book_and_starts_reading_it() {
    let mut vocab = Harness::new();

    vocab.submit("/book Moby-Dick").press(Key::Char('y'));

    vocab.assert_shows("Now reading Moby-Dick").assert_shows("Reading Moby-Dick");
}

#[test]
fn declining_leaves_the_library_alone() {
    let mut vocab = Harness::new();

    vocab.submit("/book Moby-Dick").press(Key::Char('n'));

    vocab.submit("/library");
    vocab.assert_shows("No Books yet");
}

#[test]
fn the_library_lists_every_book_with_its_capture_count() {
    let mut vocab = Harness::new();
    vocab.submit("/book Moby-Dick").press(Key::Char('y'));
    vocab.submit("/add cetacean");
    vocab.submit("A great cetacean surfaced.");
    vocab.submit("/add doubloon");
    vocab.submit("He nailed the doubloon to the mast.");
    vocab.submit("/book Dune").press(Key::Char('y'));

    vocab.submit("/library");

    vocab
        .assert_shows("Moby-Dick")
        .assert_shows("2 Words")
        .assert_shows("Dune")
        .assert_shows("0 Words");
}

#[test]
fn the_library_marks_which_book_is_being_read() {
    let mut vocab = Harness::new();
    vocab.submit("/book Moby-Dick").press(Key::Char('y'));
    vocab.submit("/book Dune").press(Key::Char('y'));

    vocab.submit("/library");

    vocab.assert_shows("Dune 0 Words ← reading");
}

#[test]
fn switching_to_a_book_already_in_the_library_just_switches() {
    let mut vocab = Harness::new();
    vocab.submit("/book Moby-Dick").press(Key::Char('y'));
    vocab.submit("/book Dune").press(Key::Char('y'));

    vocab.submit("/book Moby-Dick");

    vocab
        .assert_shows("Reading Moby-Dick")
        .assert_does_not_show("not in your Library");
}

#[test]
fn the_current_book_survives_a_restart() {
    let mut vocab = Harness::new();
    vocab.submit("/book Moby-Dick").press(Key::Char('y'));

    let mut vocab = vocab.restart();

    vocab.assert_shows("Reading Moby-Dick");
}

#[test]
fn captures_after_a_restart_go_to_the_remembered_book() {
    let mut vocab = Harness::new();
    vocab.submit("/book Moby-Dick").press(Key::Char('y'));

    let mut vocab = vocab.restart();
    vocab.submit("/add cetacean");
    vocab.submit("A great cetacean surfaced.");

    vocab.assert_shows("Moby-Dick");
}

#[test]
fn a_reader_with_no_book_is_told_so_on_the_opening_screen() {
    let mut vocab = Harness::new();

    vocab.assert_shows("No Book yet");
}

// -- capture ---------------------------------------------------------------
/// Start with a Book, since every Sighting is attributed to the Current Book.
fn reading(book: &str) -> Harness {
    let mut vocab = Harness::new();
    vocab.submit(&format!("/book {book}")).press(Key::Char('y'));
    vocab
}

#[test]
fn capturing_a_word_records_it_and_shows_the_definition() {
    let mut vocab = reading("Moby-Dick");

    vocab.submit("/add cetacean");
    vocab.submit("A great cetacean surfaced beside the boat.");

    vocab
        .assert_shows("cetacean")
        .assert_shows("large aquatic carnivorous mammal")
        .assert_shows("A great cetacean surfaced beside the boat.")
        .assert_shows("Moby-Dick")
        .assert_shows("1 Sighting");
}

#[test]
fn the_sentence_is_asked_for_after_the_word() {
    let mut vocab = reading("Moby-Dick");

    vocab.submit("/add cetacean");

    vocab.assert_shows("sentence:");
}

#[test]
fn the_capture_date_is_recorded_without_being_asked_for() {
    let mut vocab = reading("Moby-Dick");

    vocab.submit("/add cetacean");
    vocab.submit("A great cetacean surfaced.");

    let today = today_text();
    vocab.assert_shows(&today);
}

#[test]
fn a_word_the_dictionary_does_not_have_is_still_captured() {
    let mut vocab = reading("Moby-Dick");

    vocab.submit("/add pequod");
    vocab.submit("The Pequod sailed at dawn.");

    vocab
        .assert_shows("pequod")
        .assert_shows("No definition")
        .assert_shows("The Pequod sailed at dawn.")
        .assert_shows("1 Sighting");
}

#[test]
fn a_capture_can_be_cancelled_part_way_through() {
    let mut vocab = reading("Moby-Dick");

    vocab.submit("/add doubloon");
    vocab.type_text("a half-typed sen").press(Key::Esc);

    vocab.assert_shows("cancelled");

    // Nothing was saved, so there is nothing to find.
    vocab.type_text("doubloon");
    vocab.assert_shows("Nothing matches");
}

#[test]
fn capturing_needs_a_book_to_attribute_to() {
    let mut vocab = Harness::new();

    vocab.submit("/add cetacean");

    vocab.assert_shows("No Book yet");
}

// -- Meeting a Word again -------------------------------------------------

#[test]
fn meeting_a_word_again_says_so_and_shows_where_it_was_met_before() {
    let mut vocab = reading("Moby-Dick");
    vocab.submit("/add cetacean");
    vocab.submit("A great cetacean surfaced beside the boat.");

    vocab.submit("/add cetacean");

    vocab
        .assert_shows("You already have")
        .assert_shows("A great cetacean surfaced beside the boat.")
        .assert_shows("add another context");
}

#[test]
fn saying_yes_attaches_a_second_sighting_to_the_same_word() {
    let mut vocab = reading("Moby-Dick");
    vocab.submit("/add cetacean");
    vocab.submit("A great cetacean surfaced beside the boat.");

    vocab.submit("/add cetacean").press(Key::Char('y'));
    vocab.submit("Every cetacean in the bay had gone.");

    vocab
        .assert_shows("2 Sightings")
        .assert_shows("A great cetacean surfaced beside the boat.")
        .assert_shows("Every cetacean in the bay had gone.");
}

#[test]
fn saying_no_leaves_the_word_exactly_as_it_was() {
    let mut vocab = reading("Moby-Dick");
    vocab.submit("/add cetacean");
    vocab.submit("A great cetacean surfaced beside the boat.");

    vocab.submit("/add cetacean").press(Key::Char('n'));

    vocab
        .assert_shows("Left unchanged")
        .assert_shows("1 Sighting")
        .assert_does_not_show("2 Sightings");
}

#[test]
fn a_second_sighting_can_come_from_a_different_book() {
    let mut vocab = reading("Moby-Dick");
    vocab.submit("/add cetacean");
    vocab.submit("A great cetacean surfaced beside the boat.");

    vocab.submit("/book Dune").press(Key::Char('y'));
    vocab.submit("/add cetacean").press(Key::Char('y'));
    vocab.submit("No cetacean has ever crossed this sand.");

    vocab
        .assert_shows("2 Sightings")
        .assert_shows("Moby-Dick")
        .assert_shows("Dune");
}

#[test]
fn differing_case_reaches_the_same_word() {
    let mut vocab = reading("Moby-Dick");
    vocab.submit("/add cetacean");
    vocab.submit("A great cetacean surfaced.");

    vocab.submit("/add Cetacean");

    vocab.assert_shows("You already have");
}

// -- word screen -----------------------------------------------------------
#[test]
fn the_definition_is_always_there() {
    let mut vocab = Harness::new();
    vocab.submit("/book Moby-Dick").press(Key::Char('y'));

    vocab.submit("/add abnegation");
    vocab.submit("An abnegation of everything he had claimed.");

    vocab.assert_shows("the denial and rejection of a doctrine or belief");
}

#[test]
fn every_sense_of_the_word_is_shown_with_its_part_of_speech() {
    let mut vocab = Harness::new();
    vocab.submit("/book Moby-Dick").press(Key::Char('y'));

    vocab.submit("/add sesquipedalian");
    vocab.submit("A sesquipedalian streak ran through the prose.");

    vocab
        .assert_shows("(noun) a very long word")
        .assert_shows("(adjective) given to the overuse of long words");
}

#[test]
fn each_sighting_shows_its_sentence_its_book_and_its_date() {
    let mut vocab = Harness::new();
    vocab.submit("/book Moby-Dick").press(Key::Char('y'));
    vocab.submit("/add cetacean");
    vocab.submit("A great cetacean surfaced beside the boat.");

    let today = today_text();
    vocab
        .assert_shows(&format!("{today} · Moby-Dick"))
        .assert_shows("A great cetacean surfaced beside the boat.");
}

#[test]
fn sightings_are_ordered_most_recent_first() {
    let mut vocab = Harness::new();
    vocab.submit("/book Moby-Dick").press(Key::Char('y'));
    vocab.submit("/add cetacean");
    vocab.submit("The first time I met it.");
    vocab.submit("/add cetacean").press(Key::Char('y'));
    vocab.submit("The second time I met it.");

    vocab.assert_shows_in_order("The second time I met it.", "The first time I met it.");
}

#[test]
fn leaving_a_word_opened_from_the_library_returns_to_the_library() {
    let mut vocab = Harness::new();
    vocab.submit("/book Moby-Dick").press(Key::Char('y'));
    vocab.submit("/add cetacean");
    vocab.submit("A great cetacean surfaced.");

    vocab.submit("/library");
    vocab.assert_shows("Library");

    vocab.press(Key::Esc);
    vocab.assert_shows("Reading Moby-Dick");
}

// -- searching -------------------------------------------------------------
/// A small corpus: two Words from one Book, one from another.
fn stocked() -> Harness {
    let mut vocab = Harness::new();
    vocab.submit("/book Moby-Dick").press(Key::Char('y'));
    vocab.submit("/add cetacean");
    vocab.submit("A great cetacean surfaced beside the boat.");
    vocab.submit("/add doubloon");
    vocab.submit("He nailed the doubloon to the mast.");
    vocab.submit("/book Dune").press(Key::Char('y'));
    vocab.submit("/add sonorous");
    vocab.submit("His voice was sonorous in the still air.");
    vocab
}

#[test]
fn plain_text_with_no_command_prefix_searches() {
    let mut vocab = stocked();

    vocab.type_text("cetacean");

    vocab.assert_shows("1 matching Word").assert_shows("word");
}

#[test]
fn results_update_on_every_keystroke() {
    let mut vocab = stocked();

    vocab.type_text("cet");
    vocab.assert_shows("cetacean");

    // Three more characters that cannot match narrow it to nothing, without
    // anything having been submitted.
    vocab.type_text("zzz");
    vocab.assert_shows("Nothing matches");
}

#[test]
fn a_half_remembered_spelling_still_finds_the_word() {
    let mut vocab = stocked();

    vocab.type_text("ctcn");

    vocab.assert_shows("cetacean");
}

#[test]
fn searching_matches_the_sentences_too() {
    let mut vocab = stocked();

    vocab.type_text("nailed");

    vocab.assert_shows("doubloon").assert_shows("sentence");
}

#[test]
fn searching_matches_book_names() {
    let mut vocab = stocked();

    vocab.type_text("Moby");

    vocab
        .assert_shows("2 matching Words")
        .assert_shows("book")
        .assert_shows("cetacean")
        .assert_shows("doubloon");
}

#[test]
fn word_matches_are_ranked_above_sentence_matches() {
    let mut vocab = Harness::new();
    vocab.submit("/book Moby-Dick").press(Key::Char('y'));
    vocab.submit("/add cetacean");
    vocab.submit("It surfaced beside the boat.");
    vocab.submit("/add doubloon");
    vocab.submit("The cetacean had taken it.");

    vocab.type_text("cetacean");

    vocab.assert_shows_in_order("cetacean", "doubloon");
}

#[test]
fn sentence_matches_are_ranked_above_book_matches() {
    let mut vocab = Harness::new();
    // The Book name is the query, so every Word in it matches on the Book band.
    vocab.submit("/book Cetacean Weekly").press(Key::Char('y'));
    vocab.submit("/add doubloon");
    vocab.submit("He nailed it to the mast.");
    vocab.submit("/add sonorous");
    vocab.submit("A cetacean broke the surface.");

    vocab.type_text("cetacean");

    // sonorous matched a sentence; doubloon only matched the Book it came from.
    vocab.assert_shows_in_order("sonorous", "doubloon");
}

#[test]
fn each_result_says_which_kind_of_match_it_is() {
    let mut vocab = Harness::new();
    vocab.submit("/book Moby-Dick").press(Key::Char('y'));
    vocab.submit("/add cetacean");
    vocab.submit("It surfaced beside the boat.");
    vocab.submit("/add doubloon");
    vocab.submit("The cetacean had taken it.");

    vocab.type_text("cetacean");

    // A sentence hit must not be mistakable for a Word hit.
    vocab
        .assert_shows("cetacean word")
        .assert_shows("doubloon sentence The cetacean had taken it.");
}

#[test]
fn a_word_met_several_times_appears_once() {
    let mut vocab = Harness::new();
    vocab.submit("/book Moby-Dick").press(Key::Char('y'));
    vocab.submit("/add cetacean");
    vocab.submit("A great cetacean surfaced.");
    vocab.submit("/add cetacean").press(Key::Char('y'));
    vocab.submit("Every cetacean had gone.");

    vocab.type_text("cetacea");

    vocab.assert_shows("1 matching Word");
}

#[test]
fn nothing_matching_says_so_plainly() {
    let mut vocab = stocked();

    vocab.type_text("zzzzz");

    vocab
        .assert_shows("Nothing matches")
        .assert_shows("never captured this one");
}

#[test]
fn opening_a_result_lands_on_that_words_detail() {
    let mut vocab = stocked();

    vocab.type_text("cetacean").enter();

    vocab
        .assert_shows("large aquatic carnivorous mammal")
        .assert_shows("A great cetacean surfaced beside the boat.");
}

#[test]
fn the_arrow_keys_choose_between_results() {
    let mut vocab = stocked();

    vocab.type_text("Moby").press(Key::Down).enter();

    // Results are ordered cetacean then doubloon, so one step down opens the second.
    vocab.assert_shows("He nailed the doubloon to the mast.");
}

#[test]
fn leaving_a_word_returns_to_the_search_that_found_it() {
    let mut vocab = stocked();
    vocab.type_text("Moby").enter();

    vocab.press(Key::Esc);

    vocab.assert_shows("2 matching Words").assert_shows("book");
}

#[test]
fn clearing_the_query_returns_to_the_opening_screen() {
    let mut vocab = stocked();
    vocab.type_text("cet");

    for _ in 0..3 {
        vocab.press(Key::Backspace);
    }

    vocab.assert_shows("Reading Dune");
}

// -- notes -----------------------------------------------------------------
/// Start with a Book and one captured Word, which is where every Note begins.
fn captured_with(mut vocab: Harness) -> Harness {
    vocab.submit("/book Moby-Dick").press(Key::Char('y'));
    vocab.submit("/add cetacean");
    vocab.submit("A great cetacean surfaced beside the boat.");
    vocab
}

#[test]
fn a_capture_comes_back_before_its_note_does() {
    let mut vocab = captured_with(Harness::new());

    vocab
        .assert_shows("A great cetacean surfaced beside the boat.")
        .assert_shows("Note pending")
        .assert_does_not_show("reading 1");
}

#[test]
fn the_note_arrives_without_the_reader_going_anywhere() {
    let mut vocab = captured_with(Harness::new());

    vocab.settle();

    vocab
        .assert_shows("reading 1")
        .assert_does_not_show("Note pending");
}

#[test]
fn the_writer_is_given_the_word_the_book_and_the_sentence() {
    let mut vocab = captured_with(Harness::new());

    vocab.settle();

    // The stub echoes back all three, so this only matches if all three
    // reached it.
    vocab.assert_shows(r#""cetacean" from Moby-Dick: A great cetacean surfaced beside the boat."#);
}

#[test]
fn the_note_sits_beside_the_definition_rather_than_replacing_it() {
    let mut vocab = captured_with(Harness::new());

    vocab.settle();

    vocab
        .assert_shows("large aquatic carnivorous mammal")
        .assert_shows_in_order("large aquatic carnivorous mammal", "Note");
}

#[test]
fn each_sighting_gets_its_own_note() {
    let mut vocab = captured_with(Harness::new());
    vocab.submit("/add cetacean").press(Key::Char('y'));
    vocab.submit("Every cetacean in the bay had gone.");

    vocab.settle();

    vocab
        .assert_shows("A great cetacean surfaced beside the boat.")
        .assert_shows("Every cetacean in the bay had gone.")
        .assert_does_not_show("Note pending");
    assert_eq!(vocab.count_of("from Moby-Dick:"), 2);
}

// -- Surviving a restart --------------------------------------------------

#[test]
fn a_note_left_pending_is_written_on_the_next_launch() {
    // Captured with the Note never settled, as if the tool was closed on a
    // train before the writer ever ran.
    let vocab = captured_with(Harness::new());

    let mut vocab = vocab.restart();
    vocab.type_text("cetacean").enter();
    vocab.assert_shows("Note pending");

    vocab.settle();

    vocab
        .assert_shows("reading 1")
        .assert_does_not_show("Note pending");
}

#[test]
fn a_note_already_written_is_not_written_again() {
    let mut vocab = captured_with(Harness::new());
    vocab.settle();

    let mut vocab = vocab.restart();
    vocab.type_text("cetacean").enter();
    vocab.settle();

    // Still the first reading: the backlog was empty, so the writer was never
    // asked a second time.
    vocab.assert_shows("reading 1");
}

// -- When the writer fails ------------------------------------------------

#[test]
fn a_failed_note_says_so_and_leaves_its_sighting_whole() {
    let mut vocab = captured_with(Harness::failing());

    vocab.settle();

    vocab
        .assert_shows("Note couldn't be written")
        .assert_shows("/explain")
        .assert_shows("A great cetacean surfaced beside the boat.")
        .assert_shows("large aquatic carnivorous mammal")
        .assert_shows("1 Sighting");
}

#[test]
fn a_failed_note_stays_failed_across_a_restart_rather_than_retrying_itself() {
    let mut vocab = captured_with(Harness::failing());
    vocab.settle();

    let mut vocab = vocab.restart();
    vocab.type_text("cetacean").enter();

    // Failure is recoverable, but on the reader's say-so — not silently on
    // every launch.
    vocab
        .assert_shows("Note couldn't be written")
        .assert_does_not_show("Note pending");
}

// -- With no API key ------------------------------------------------------

#[test]
fn notes_are_off_without_a_key_and_the_tool_says_so_once() {
    let mut vocab = Harness::without_notes();

    vocab.assert_shows("Notes are off");

    vocab.submit("/book Moby-Dick").press(Key::Char('y'));
    vocab.submit("/add cetacean");
    vocab.submit("A great cetacean surfaced beside the boat.");

    // The capture is ordinary — the missing key is not an error per capture.
    vocab
        .assert_shows("Captured from Moby-Dick")
        .assert_shows("Note pending")
        .assert_does_not_show("Notes are off");
}

// -- /explain -------------------------------------------------------------

#[test]
fn explain_is_listed_in_help() {
    let mut vocab = Harness::new();

    vocab.submit("/help");

    vocab.assert_shows("/explain");
}

#[test]
fn explain_rewrites_a_note_that_was_already_written() {
    let mut vocab = captured_with(Harness::new());
    vocab.settle();
    vocab.assert_shows("reading 1");

    vocab.submit("/explain");
    vocab
        .assert_shows("Note pending")
        .assert_does_not_show("reading 1");

    vocab.settle();
    vocab
        .assert_shows("reading 2")
        .assert_does_not_show("reading 1");
}

#[test]
fn explain_retries_a_note_that_failed() {
    let mut vocab = captured_with(Harness::failing());
    vocab.settle();
    vocab.assert_shows("Note couldn't be written");

    vocab.notes_recover();
    vocab.submit("/explain").settle();

    vocab
        .assert_shows(r#""cetacean" from Moby-Dick: A great cetacean surfaced beside the boat."#)
        .assert_does_not_show("Note couldn't be written");
}

#[test]
fn explain_asks_again_about_the_sighting_being_looked_at() {
    let mut vocab = captured_with(Harness::failing());
    vocab.submit("/add cetacean").press(Key::Char('y'));
    vocab.submit("Every cetacean in the bay had gone.");
    vocab.settle();
    assert_eq!(vocab.count_of("Note couldn't be written"), 2);

    // Sightings run most recent first, so the second one down is the older.
    vocab.notes_recover();
    vocab.press(Key::Down);
    vocab.submit("/explain").settle();

    vocab
        .assert_shows("from Moby-Dick: A great cetacean surfaced beside the boat.")
        .assert_does_not_show("from Moby-Dick: Every cetacean in the bay had gone.");
    assert_eq!(vocab.count_of("Note couldn't be written"), 1);
}

#[test]
fn explain_needs_a_sighting_to_work_on() {
    let mut vocab = Harness::new();

    vocab.submit("/explain");

    vocab.assert_shows("open a Word first");
}

#[test]
fn explain_says_nothing_will_happen_when_notes_are_off() {
    let mut vocab = Harness::without_notes();
    vocab.submit("/book Moby-Dick").press(Key::Char('y'));
    vocab.submit("/add cetacean");
    vocab.submit("A great cetacean surfaced beside the boat.");

    vocab.submit("/explain");

    vocab.assert_shows("Notes are off");
}

// -- sync ------------------------------------------------------------------
#[test]
fn sync_is_listed_in_help() {
    let mut vocab = Harness::new();

    vocab.submit("/help");

    vocab.assert_shows("/sync");
}

#[test]
fn sync_pushes_a_captured_word_and_says_so() {
    let mut vocab = captured_with(Harness::new());

    vocab.submit("/sync").settle();

    vocab.assert_shows("Synced 1 Word to Anki");
    assert_eq!(vocab.cards().len(), 1);
}

#[test]
fn syncing_with_nothing_captured_says_there_is_nothing_to_do() {
    let mut vocab = Harness::new();

    vocab.submit("/sync").settle();

    vocab.assert_shows("Nothing to sync");
    assert_eq!(vocab.cards().len(), 0);
}

// -- What the card carries ------------------------------------------------

#[test]
fn the_front_of_the_card_is_the_word() {
    let mut vocab = captured_with(Harness::new());

    vocab.submit("/sync").settle();

    assert_eq!(vocab.cards()[0].front, "cetacean");
}

#[test]
fn the_back_carries_the_definition_and_the_sighting() {
    let mut vocab = captured_with(Harness::new());

    vocab.submit("/sync").settle();

    let card = vocab.cards().remove(0);
    let today = today_text();
    for expected in [
        "large aquatic carnivorous mammal",
        "A great cetacean surfaced beside the boat.",
        "Moby-Dick",
        &today,
    ] {
        assert!(
            card.back.contains(expected),
            "expected the back to carry {expected:?}\n\n--- back ---\n{}\n------------",
            card.back
        );
    }
}

#[test]
fn the_back_carries_the_note_once_it_has_been_written() {
    let mut vocab = captured_with(Harness::new());
    vocab.settle();

    vocab.submit("/sync").settle();

    let card = vocab.cards().remove(0);
    assert!(
        card.back.contains("reading 1"),
        "expected the back to carry the Note\n\n--- back ---\n{}\n------------",
        card.back
    );
}

#[test]
fn a_word_with_no_definition_still_becomes_a_card() {
    let mut vocab = Harness::new();
    vocab.submit("/book Moby-Dick").press(Key::Char('y'));
    vocab.submit("/add pequod");
    vocab.submit("The Pequod sailed at dawn.");

    vocab.submit("/sync").settle();

    let card = vocab.cards().remove(0);
    assert_eq!(card.front, "pequod");
    assert!(
        card.back.contains("The Pequod sailed at dawn."),
        "the Sighting is the whole of the card here\n\n--- back ---\n{}\n------------",
        card.back
    );
}

// -- One card per Word ----------------------------------------------------

#[test]
fn a_word_is_one_card_however_many_sightings_it_has() {
    let mut vocab = captured_with(Harness::new());
    vocab.submit("/sync").settle();

    vocab.submit("/add cetacean").press(Key::Char('y'));
    vocab.submit("Every cetacean in the bay had gone.");
    vocab.submit("/sync").settle();

    // Pushed twice, but the second push carried the identifier the first came
    // back with — so it updated that card rather than making a second one.
    assert_eq!(vocab.cards().len(), 2);
    assert_eq!(vocab.anki_notes_created(), 1);
}

#[test]
fn a_new_sighting_puts_both_sentences_on_the_one_card() {
    let mut vocab = captured_with(Harness::new());
    vocab.submit("/sync").settle();

    vocab.submit("/add cetacean").press(Key::Char('y'));
    vocab.submit("Every cetacean in the bay had gone.");
    vocab.submit("/sync").settle();

    let card = vocab.cards().pop().expect("the updated card");
    assert!(
        card.back
            .contains("A great cetacean surfaced beside the boat.")
    );
    assert!(card.back.contains("Every cetacean in the bay had gone."));
}

#[test]
fn a_word_that_has_not_changed_is_not_pushed_again() {
    let mut vocab = captured_with(Harness::new());
    vocab.settle();
    vocab.submit("/sync").settle();

    vocab.submit("/sync").settle();

    assert_eq!(vocab.cards().len(), 1);
    vocab.assert_shows("Nothing to sync");
}

/// A Note is written in the background, well after the Sighting it belongs to —
/// so the card that was pushed before it arrived is one Note short, and the
/// Word belongs back on the queue.
#[test]
fn a_note_arriving_after_a_sync_puts_the_word_back_on_the_queue() {
    let mut vocab = captured_with(Harness::new());
    vocab.submit("/sync").settle();
    assert!(!vocab.cards()[0].back.contains("reading 1"));

    vocab.submit("/sync").settle();

    let card = vocab.cards().pop().expect("the second push");
    assert!(
        card.back.contains("reading 1"),
        "expected the Note on the card by now\n\n--- back ---\n{}\n------------",
        card.back
    );
    assert_eq!(vocab.anki_notes_created(), 1);
}

// -- When Anki isn't there ------------------------------------------------

#[test]
fn anki_not_running_says_so_plainly_and_keeps_the_word_queued() {
    let mut vocab = captured_with(Harness::anki_closed());

    vocab.submit("/sync").settle();

    vocab.assert_shows("Anki isn't running");
    assert_eq!(vocab.cards().len(), 0);
}

#[test]
fn a_word_queued_while_anki_was_closed_goes_once_it_opens() {
    let mut vocab = captured_with(Harness::anki_closed());
    vocab.submit("/sync").settle();

    vocab.anki_opens();
    vocab.submit("/sync").settle();

    assert_eq!(vocab.cards().len(), 1);
    vocab.assert_shows("Synced 1 Word to Anki");
}

#[test]
fn a_queue_left_by_a_closed_anki_survives_a_restart() {
    let vocab = captured_with(Harness::anki_closed());

    let mut vocab = vocab.restart();
    vocab.anki_opens();
    vocab.submit("/sync").settle();

    assert_eq!(vocab.cards().len(), 1);
}

#[test]
fn anki_refusing_a_card_keeps_it_queued_rather_than_calling_it_synced() {
    let mut vocab = captured_with(Harness::anki_refusing());
    vocab.submit("/sync").settle();
    vocab.assert_shows("stays queued");

    vocab.anki_opens();
    vocab.submit("/sync").settle();

    assert_eq!(vocab.cards().len(), 1);
}

// -- Which deck ------------------------------------------------------------

#[test]
fn cards_land_in_the_vocab_deck_by_default() {
    let mut vocab = captured_with(Harness::new());

    vocab.submit("/sync").settle();

    assert_eq!(vocab.cards()[0].deck, "Vocab");
}

#[test]
fn the_deck_can_be_configured() {
    let mut vocab = captured_with(Harness::with_deck("Reading"));

    vocab.submit("/sync").settle();

    assert_eq!(vocab.cards()[0].deck, "Reading");
}

// -- Leaving ---------------------------------------------------------------

#[test]
fn quitting_syncs_on_the_way_out() {
    let mut vocab = captured_with(Harness::new());

    vocab.submit("/quit").leave();

    assert!(!vocab.is_running());
    assert_eq!(vocab.cards().len(), 1);
    vocab.assert_shows("Synced 1 Word to Anki");
}

#[test]
fn quit_now_leaves_without_syncing() {
    let mut vocab = captured_with(Harness::new());

    vocab.submit("/quit now").leave();

    assert!(!vocab.is_running());
    assert_eq!(vocab.cards().len(), 0);
}

#[test]
fn quit_now_is_listed_in_help() {
    let mut vocab = Harness::new();

    vocab.submit("/help");

    vocab.assert_shows("/quit [now]");
}

#[test]
fn what_quit_now_skipped_is_still_there_next_time() {
    let vocab = captured_with(Harness::new());
    let mut vocab = vocab;
    vocab.submit("/quit now").leave();

    let mut vocab = vocab.restart();
    vocab.submit("/sync").settle();

    assert_eq!(vocab.cards().len(), 1);
}

#[test]
fn syncing_on_exit_can_be_turned_off() {
    let mut vocab = captured_with(Harness::without_sync_on_exit());

    vocab.submit("/quit").leave();

    assert!(!vocab.is_running());
    assert_eq!(vocab.cards().len(), 0);
}

#[test]
fn a_closed_anki_does_not_hold_up_the_exit() {
    let vocab = captured_with(Harness::anki_closed());
    let mut vocab = vocab;

    vocab.submit("/quit").leave();

    assert!(!vocab.is_running());
    vocab.assert_shows("Anki isn't running");

    // Left queued, so the next launch with Anki open pushes it.
    let mut vocab = vocab.restart();
    vocab.anki_opens();
    vocab.submit("/sync").settle();
    assert_eq!(vocab.cards().len(), 1);
}

/// The stub never answers at all, so without a deadline on the way out this
/// test would hang for ever. **That it finishes is the assertion** — there is
/// deliberately no timing assertion here, because the harness runs with the
/// clock paused, which would make one vacuous. What is bounded is the tool's
/// waiting, not the wall clock.
#[test]
fn a_hanging_anki_does_not_hold_up_the_exit() {
    let mut vocab = captured_with(Harness::anki_hanging());

    vocab.submit("/quit").leave();

    assert!(!vocab.is_running());
    assert_eq!(vocab.cards().len(), 0);
    vocab.assert_shows("stays queued");
}

/// What never answered is still queued, so nothing was lost by having asked.
#[test]
fn a_word_a_hanging_anki_never_answered_for_goes_next_time() {
    let vocab = captured_with(Harness::anki_hanging());
    let mut vocab = vocab;
    vocab.submit("/quit").leave();

    let mut vocab = vocab.restart();
    vocab.anki_opens();
    vocab.submit("/sync").settle();

    assert_eq!(vocab.cards().len(), 1);
}

// -- Being told the truth on the way out ----------------------------------

/// Leaving without syncing must not repeat what the last `/sync` said, as
/// though it had just happened again.
#[test]
fn quit_now_does_not_claim_credit_for_an_earlier_sync() {
    let mut vocab = captured_with(Harness::new());
    vocab.submit("/sync").settle();
    assert_eq!(vocab.farewell(), Some("Synced 1 Word to Anki."));

    vocab.submit("/quit now").leave();

    assert_eq!(vocab.farewell(), None);
}

#[test]
fn an_exit_that_syncs_nothing_because_it_was_turned_off_says_nothing() {
    let mut vocab = captured_with(Harness::without_sync_on_exit());

    vocab.submit("/quit").leave();

    assert_eq!(vocab.farewell(), None);
}

#[test]
fn an_exit_that_synced_says_so_where_it_can_still_be_read() {
    let mut vocab = captured_with(Harness::new());

    vocab.submit("/quit").leave();

    assert_eq!(vocab.farewell(), Some("Synced 1 Word to Anki."));
}

// -- A settings file that can't be used ------------------------------------

/// The tool's whole promise is that capturing a Word is cheap. An optional
/// settings file is never worth standing between the reader and that.
#[test]
fn an_unusable_config_is_reported_but_does_not_stop_anything() {
    let mut vocab = Harness::with_an_unusable_config(
        "Ignoring config.toml — unknown field `dekc`. Carrying on with the defaults.",
    );

    vocab.assert_shows("Ignoring config.toml");

    vocab.submit("/book Moby-Dick").press(Key::Char('y'));
    vocab.submit("/add cetacean");
    vocab.submit("A great cetacean surfaced beside the boat.");
    vocab.submit("/sync").settle();

    vocab.assert_shows("Synced 1 Word to Anki");
    // The defaults are what is in force, and they are ordinary defaults.
    assert_eq!(vocab.cards()[0].deck, "Vocab");
}

// -- correcting ------------------------------------------------------------
/// The wrong sentence, as mistyped, and the same sentence as the Book has it.
const MISTYPED: &str = "A great cetacean surfaced beside the goat.";
const CORRECTED: &str = "A great cetacean surfaced beside the boat.";

/// The word that was got wrong, which is all a reader has to back over.
const MISTAKE: &str = "goat.";

/// A Word already captured with the sentence typed wrong, sitting on the Word
/// screen where `/edit` is reached from.
fn miscaptured() -> Harness {
    let mut vocab = Harness::new();
    vocab
        .submit("/book Moby-Dick")
        .press(Key::Char('y'))
        .submit("/add cetacean")
        .submit(MISTYPED);
    vocab
}

/// Correct it the way a reader does: `/edit` starts the line on the sentence
/// that is already there, so putting it right means backing over the word that
/// is wrong and typing it again — not entering the sentence a second time.
fn put_right(vocab: &mut Harness) {
    vocab.submit("/edit");
    for _ in 0..MISTAKE.len() {
        vocab.press(Key::Backspace);
    }
    vocab.submit("boat.");
}

#[test]
fn a_mistyped_sentence_can_be_put_right() {
    let mut vocab = miscaptured();

    put_right(&mut vocab);

    vocab.assert_shows(CORRECTED);
    let screen = vocab.screen();
    assert!(
        !screen.contains("goat"),
        "the sentence as mistyped is still on screen\n\n--- screen ---\n{screen}\n--------------"
    );
}

/// A correction is usually a word or two out of place. Starting from an empty
/// line would mean retyping the sentence to fix one of them, which is the thing
/// that mistyped it in the first place.
#[test]
fn the_line_starts_on_the_sentence_being_corrected() {
    let mut vocab = miscaptured();

    vocab.submit("/edit");

    vocab.assert_shows("corrected sentence:");
    let line = vocab.input_line();
    assert!(
        line.contains("beside the goat."),
        "the line did not start on the sentence: {line:?}"
    );
}

/// One encounter stays one Sighting. The alternative — capturing it again —
/// records a second meeting with the Word that never happened.
#[test]
fn correcting_a_sentence_does_not_make_a_second_sighting() {
    let mut vocab = miscaptured();

    put_right(&mut vocab);

    vocab.assert_shows("1 Sighting");
}

/// The Note is a reading of the Word *in that sentence*. Left alone it would go
/// on explaining a sentence that was never in the Book.
#[test]
fn correcting_a_sentence_has_the_note_written_again() {
    let mut vocab = miscaptured();
    vocab.settle();
    // The stub echoes the sentence it was handed, so the first Note is proof
    // the wrong one reached the writer.
    vocab.assert_shows("beside the goat.");

    put_right(&mut vocab);
    vocab.settle();

    // Numbered by the stub, so this is the second asking rather than the first
    // one still on screen.
    vocab.assert_shows("reading 2").assert_shows(CORRECTED);
}

#[test]
fn a_sighting_being_corrected_shows_its_note_as_pending() {
    let mut vocab = miscaptured();
    vocab.settle();

    put_right(&mut vocab);

    // Before the answer lands: the old reading is gone rather than left
    // standing over a sentence it was not written about.
    vocab.assert_shows("pending");
}

/// Anki holds the sentence too, so a correction that stopped at the database
/// would leave the deck still drilling the mistake.
#[test]
fn a_corrected_sentence_goes_to_anki() {
    let mut vocab = miscaptured();
    vocab.submit("/sync").settle();

    put_right(&mut vocab);
    vocab.settle();
    vocab.submit("/sync").settle();

    let card = vocab.cards().pop().expect("a card to have been pushed");
    assert!(
        card.back.contains(CORRECTED) && !card.back.contains("goat"),
        "the card still carries the mistyped sentence\n\n--- back ---\n{}\n------------",
        card.back
    );
}

/// Sentences are searchable, and the corpus search matches against is held in
/// memory — so a correction has to reach it as well as the database.
#[test]
fn a_corrected_sentence_is_what_search_matches_against() {
    let mut vocab = miscaptured();

    put_right(&mut vocab);
    vocab.press(Key::Esc);
    vocab.type_text("boat");

    vocab.assert_shows("cetacean");
}

#[test]
fn escape_leaves_the_sentence_as_it_was() {
    let mut vocab = miscaptured();

    vocab
        .submit("/edit")
        .type_text(" and away")
        .press(Key::Esc);

    vocab.assert_shows(MISTYPED);
    vocab.assert_shows("Left as it was");
}

/// Emptying the line is not how a Sighting loses its sentence — a Sighting
/// without one is not a Sighting.
#[test]
fn a_sentence_cannot_be_emptied() {
    let mut vocab = miscaptured();

    vocab.submit("/edit");
    for _ in 0..MISTYPED.len() {
        vocab.press(Key::Backspace);
    }
    vocab.enter();

    vocab.assert_shows("Type the sentence as the Book has it.");
    vocab.press(Key::Esc).assert_shows(MISTYPED);
}

#[test]
fn edit_away_from_a_word_says_what_it_needs() {
    let mut vocab = Harness::new();

    vocab.submit("/edit");

    vocab.assert_shows("open a Word first");
}

#[test]
fn typing_a_correction_does_not_run_a_search() {
    let mut vocab = miscaptured();

    // "cetacean" would match the Word if this were taken for a query, and the
    // Word screen the correction was started from would be gone.
    vocab.submit("/edit").type_text(" cetacean");

    vocab.assert_shows("1 Sighting");
}

// -- removing --------------------------------------------------------------
const SENTENCE: &str = "A great cetacean surfaced beside the boat.";
const AGAIN: &str = "Every cetacean in the bay had gone.";

/// One captured Word, sitting on the Word screen where `/remove` is reached
/// from.
fn one_captured() -> Harness {
    let mut vocab = Harness::new();
    vocab
        .submit("/book Moby-Dick")
        .press(Key::Char('y'))
        .submit("/add cetacean")
        .submit(SENTENCE);
    vocab
}

/// Meet the same Word a second time, so there is more than one Sighting to lose.
fn met_again(vocab: &mut Harness) {
    vocab
        .submit("/add cetacean")
        .press(Key::Char('y'))
        .submit(AGAIN);
}

fn remove_it(vocab: &mut Harness) {
    vocab.submit("/remove").press(Key::Char('y'));
}

// -- The asking -----------------------------------------------------------

#[test]
fn remove_is_listed_in_help() {
    let mut vocab = Harness::new();

    vocab.submit("/help");

    vocab.assert_shows("/remove");
}

#[test]
fn the_word_screen_says_how_to_remove_what_is_on_it() {
    let mut vocab = one_captured();

    vocab.assert_shows("/remove this Word");
}

#[test]
fn removing_asks_before_anything_goes() {
    let mut vocab = one_captured();

    vocab.submit("/remove");

    vocab.assert_shows("remove \"cetacean\" and its 1 Sighting?");
    // Nothing has happened yet: the Word is still on the screen behind it.
    vocab.assert_shows(SENTENCE);
}

/// The Sightings are the part a reader is likely to have forgotten, and they go
/// too — so the asking counts them rather than naming only the Word.
#[test]
fn the_asking_names_how_many_sightings_go() {
    let mut vocab = one_captured();
    met_again(&mut vocab);

    vocab.submit("/remove");

    vocab.assert_shows("and its 2 Sightings?");
}

#[test]
fn declining_leaves_the_word_exactly_as_it_was() {
    let mut vocab = one_captured();

    vocab.submit("/remove").press(Key::Char('n'));

    vocab.assert_shows("\"cetacean\" was not removed.");
    vocab.assert_shows(SENTENCE);
    // Still there to be found, not merely still drawn.
    vocab.press(Key::Esc).type_text("cetacean");
    vocab.assert_shows("1 matching Word");
}

#[test]
fn escape_declines_a_removal() {
    let mut vocab = one_captured();

    vocab.submit("/remove").press(Key::Esc);

    vocab.assert_shows("was not removed");
}

/// Nothing here can be got back, so a key that means neither yes nor no leaves
/// the question standing rather than being read as one of them.
#[test]
fn a_stray_key_neither_removes_nor_declines() {
    let mut vocab = one_captured();

    vocab.submit("/remove").press(Key::Char('x'));

    vocab.assert_shows("remove \"cetacean\"");
}

#[test]
fn remove_away_from_a_word_says_what_it_needs() {
    let mut vocab = Harness::new();

    vocab.submit("/remove");

    vocab.assert_shows("open one first");
}

// -- What goes with it ----------------------------------------------------

#[test]
fn a_word_that_was_removed_can_no_longer_be_found() {
    let mut vocab = one_captured();

    remove_it(&mut vocab);

    vocab.assert_shows("Removed \"cetacean\"");
    vocab.type_text("cetacean");
    vocab.assert_shows("Nothing matches");
}

#[test]
fn a_removed_word_is_still_gone_next_time() {
    let mut vocab = one_captured();
    remove_it(&mut vocab);

    let mut vocab = vocab.restart();
    vocab.type_text("cetacean");

    vocab.assert_shows("Nothing matches");
}

/// The Sightings go with the Word — an encounter with nothing is not a Sighting.
/// Capturing the Word again is a first meeting rather than a third.
#[test]
fn the_sightings_go_with_the_word() {
    let mut vocab = one_captured();
    met_again(&mut vocab);
    remove_it(&mut vocab);

    vocab.submit("/add cetacean");

    vocab.assert_does_not_show("You already have");
    vocab.submit(SENTENCE);
    vocab.assert_shows("1 Sighting");
}

#[test]
fn the_book_stops_counting_a_removed_word() {
    let mut vocab = one_captured();
    remove_it(&mut vocab);

    vocab.submit("/library");

    vocab.assert_shows("Moby-Dick").assert_shows("0 Words");
}

/// Removing from a search returns to it, and the results behind it are the
/// results now — otherwise the Word would still be listed, one keystroke from
/// opening a Screen about nothing.
#[test]
fn removing_from_a_search_goes_back_to_it_without_the_word() {
    let mut vocab = one_captured();
    vocab.press(Key::Esc).type_text("cetacean").enter();
    vocab.assert_shows("1 Sighting");

    remove_it(&mut vocab);

    vocab
        .assert_shows("Removed")
        .assert_shows("Nothing matches");
}

// -- And the card in Anki -------------------------------------------------

#[test]
fn removing_a_word_deletes_its_card_in_anki() {
    let mut vocab = one_captured();
    vocab.submit("/sync").settle();

    remove_it(&mut vocab);
    vocab.submit("/sync").settle();

    assert_eq!(vocab.cards_removed().len(), 1);
    vocab.assert_shows("Removed 1 Card from Anki");
}

/// The note deleted is the note this Word had, read off the identifier Anki
/// handed back — not whatever card happens to carry the same word on its front.
#[test]
fn the_card_deleted_is_the_one_the_word_had() {
    let mut vocab = one_captured();
    vocab.submit("/sync").settle();
    // A second Sighting, so the next push carries the identifier the first came
    // back with and the test can read it.
    met_again(&mut vocab);
    vocab.submit("/sync").settle();
    let had = vocab
        .cards()
        .pop()
        .expect("the second push")
        .anki_note_id
        .expect("the identifier the first push came back with");

    remove_it(&mut vocab);
    vocab.submit("/sync").settle();

    assert_eq!(vocab.cards_removed(), vec![had]);
}

#[test]
fn a_word_that_never_reached_anki_leaves_nothing_to_delete() {
    let mut vocab = one_captured();

    remove_it(&mut vocab);
    vocab.submit("/sync").settle();

    vocab.assert_shows("Nothing to sync");
    assert!(vocab.cards().is_empty());
    assert!(vocab.cards_removed().is_empty());
}

/// Anki is shut most of the time, and removing a Word must cost nothing when it
/// is. The deletion queues exactly as a push does.
#[test]
fn a_removal_made_while_anki_was_shut_lands_once_it_opens() {
    let mut vocab = one_captured();
    vocab.submit("/sync").settle();
    vocab.anki_shuts();

    remove_it(&mut vocab);
    vocab.submit("/sync").settle();
    vocab.assert_shows("Anki isn't running");
    assert!(vocab.cards_removed().is_empty());

    vocab.anki_opens();
    vocab.submit("/sync").settle();

    assert_eq!(vocab.cards_removed().len(), 1);
}

#[test]
fn a_queued_removal_survives_a_restart() {
    let mut vocab = one_captured();
    vocab.submit("/sync").settle();
    vocab.anki_shuts();
    remove_it(&mut vocab);
    vocab.submit("/sync").settle();

    let mut vocab = vocab.restart();
    vocab.anki_opens();
    vocab.submit("/sync").settle();

    assert_eq!(vocab.cards_removed().len(), 1);
}

#[test]
fn a_card_already_deleted_is_not_asked_about_again() {
    let mut vocab = one_captured();
    vocab.submit("/sync").settle();
    remove_it(&mut vocab);
    vocab.submit("/sync").settle();

    vocab.submit("/sync").settle();

    vocab.assert_shows("Nothing to sync");
    assert_eq!(vocab.cards_removed().len(), 1);
}

/// The narrow window the whole of the queue exists for: the Word is taken out
/// while Anki is still being told about it. The answer comes back for a Word
/// that no longer exists, and the card it just made would otherwise be one
/// nothing here remembers — orphaned in the deck for good.
#[test]
fn a_word_removed_while_its_push_was_in_the_air_leaves_no_card_behind() {
    let mut vocab = one_captured();
    // Deliberately not settled: the push is in the air.
    vocab.submit("/sync");

    remove_it(&mut vocab);
    vocab.settle();
    vocab.submit("/sync").settle();

    assert_eq!(vocab.cards().len(), 1, "the card was made");
    assert_eq!(vocab.cards_removed().len(), 1, "and then taken out again");
}

