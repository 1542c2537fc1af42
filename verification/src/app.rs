//! The application: what is on screen, what the input line is collecting, and
//! what each key does.
//!
//! `App` holds no terminal, no database and no network of its own. A key goes
//! in and comes back as an [`Ask`]: something the caller must fetch or do
//! before the App can carry on. The caller does it and hands the result back
//! as an [`Answer`], until the App asks for nothing more. Every decision is
//! made here; only the doing is left outside.
use vstd::prelude::*;

use crate::cards::{deleted_notes, deleted_of, deletions_upto, report_text, synced_of, tally, tally_upto, CardOutcome, Deletion, SyncProgress, SyncTally, Synced};
use crate::config::Config;
use crate::domain::{Book, Sense, Sighting, Word};
use crate::search::{found_of, search_results, Search, SearchResult};
use crate::store::{views, Captured, CorpusWord};
use crate::text::{
    begins_with, chars_of, has_ws, holds_whitespace, joined, owned,
    push_decimal, same_chars, split_once_ws, split_ws, starts_with, string_of, trim, trimmed,
    trimmed_chars,
};
use crate::ui::plural;

verus! {

/// std's `String::pop`: the last character is removed and handed back, and
/// an empty string is left empty with nothing handed back.
pub assume_specification[ String::pop ](string: &mut String) -> (popped: Option<char>)
    ensures
        old(string)@.len() > 0 ==> final(string)@ == old(string)@.drop_last() && popped == Some(
            old(string)@.last(),
        ),
        old(string)@.len() == 0 ==> final(string)@ == old(string)@ && popped is None,
;

// -- The command surface --------------------------------------------------------

/// A command, as `/help` lists it and the argument hints describe it.
#[derive(Debug)]
pub struct Command {
    pub name: &'static str,
    pub argument: &'static str,
    pub help: &'static str,
}

/// The command surface, in the order `/help` lists it.
pub open spec fn command_table() -> Seq<(Seq<char>, Seq<char>)> {
    seq![
        ("/add"@, "<word>"@),
        ("/book"@, "<name>"@),
        ("/library"@, ""@),
        ("/explain"@, ""@),
        ("/edit"@, ""@),
        ("/remove"@, ""@),
        ("/sync"@, ""@),
        ("/help"@, ""@),
        ("/quit"@, "[now]"@),
    ]
}

/// What each command does, in the order of [`command_table`].
pub open spec fn help_table() -> Seq<Seq<char>> {
    seq![
        "capture a Word you didn't know"@,
        "switch the Book you are reading"@,
        "list every Book you have added"@,
        "ask again for the Note on the Sighting you are looking at"@,
        "correct the sentence of the Sighting you are looking at"@,
        "take the Word you are looking at out, with its Sightings"@,
        "push every Word that changed to Anki"@,
        "list every command"@,
        "leave, restoring your terminal — `now` skips the sync"@,
    ]
}

pub open spec fn surface(c: Command) -> (Seq<char>, Seq<char>) {
    (c.name@, c.argument@)
}

/// Every command, with what it takes and what it does.
pub fn commands() -> (v: Vec<Command>)
    ensures
        v@.len() == command_table().len(),
        forall|i: int| 0 <= i < v@.len() ==> surface(#[trigger] v@[i]) == command_table()[i],
        forall|i: int| 0 <= i < v@.len() ==> (#[trigger] v@[i]).help@ == help_table()[i],
{
    let v = vec![
        Command { name: "/add", argument: "<word>", help: "capture a Word you didn't know" },
        Command { name: "/book", argument: "<name>", help: "switch the Book you are reading" },
        Command { name: "/library", argument: "", help: "list every Book you have added" },
        Command {
            name: "/explain",
            argument: "",
            help: "ask again for the Note on the Sighting you are looking at",
        },
        Command {
            name: "/edit",
            argument: "",
            help: "correct the sentence of the Sighting you are looking at",
        },
        Command {
            name: "/remove",
            argument: "",
            help: "take the Word you are looking at out, with its Sightings",
        },
        Command { name: "/sync", argument: "", help: "push every Word that changed to Anki" },
        Command { name: "/help", argument: "", help: "list every command" },
        Command {
            name: "/quit",
            argument: "[now]",
            help: "leave, restoring your terminal — `now` skips the sync",
        },
    ];
    assert(v@.len() == 9);
    v
}

/// The first command in `t` named exactly `name`.
pub open spec fn named(t: Seq<(Seq<char>, Seq<char>)>, name: Seq<char>) -> Option<(Seq<char>, Seq<char>)>
    decreases t.len(),
{
    if t.len() == 0 {
        None
    } else if t[0].0 == name {
        Some(t[0])
    } else {
        named(t.drop_first(), name)
    }
}

/// How many commands in `t` begin with `input`.
pub open spec fn prefixed_count(t: Seq<(Seq<char>, Seq<char>)>, input: Seq<char>) -> nat
    decreases t.len(),
{
    if t.len() == 0 {
        0
    } else {
        (if begins_with(t[0].0, input) {
            1nat
        } else {
            0nat
        }) + prefixed_count(t.drop_first(), input)
    }
}

/// The first command in `t` that begins with `input`.
pub open spec fn first_prefixed(t: Seq<(Seq<char>, Seq<char>)>, input: Seq<char>) -> Option<(Seq<char>, Seq<char>)>
    decreases t.len(),
{
    if t.len() == 0 {
        None
    } else if begins_with(t[0].0, input) {
        Some(t[0])
    } else {
        first_prefixed(t.drop_first(), input)
    }
}

/// What is shown after the cursor to complete `c` from the typed `input`.
pub open spec fn completion(c: (Seq<char>, Seq<char>), input: Seq<char>) -> Seq<char> {
    let rest = c.0.subrange(input.len() as int, c.0.len() as int);
    if c.1.len() == 0 {
        rest
    } else {
        rest + seq![' '] + c.1
    }
}

/// The completion and argument hint for a partly typed command: `None` for
/// anything but a command, once an argument has been typed, or when the input
/// is not a prefix of exactly one command.
pub open spec fn hint_for(input: Seq<char>) -> Option<Seq<char>> {
    if !begins_with(input, "/"@) {
        None
    } else {
        match split_ws(input) {
            Some((name, argument)) => match named(command_table(), name) {
                Some(c) => if trimmed(argument).len() == 0 && c.1.len() > 0 {
                    Some(c.1)
                } else {
                    None
                },
                None => None,
            },
            None => if prefixed_count(command_table(), input) == 1 {
                match first_prefixed(command_table(), input) {
                    Some(c) => Some(completion(c, input)),
                    None => None,
                }
            } else {
                None
            },
        }
    }
}

proof fn lemma_first_prefixed_begins(t: Seq<(Seq<char>, Seq<char>)>, input: Seq<char>)
    ensures
        first_prefixed(t, input) matches Some(c) ==> begins_with(c.0, input),
        prefixed_count(t, input) > 0 <==> first_prefixed(t, input) is Some,
    decreases t.len(),
{
    if t.len() > 0 {
        lemma_first_prefixed_begins(t.drop_first(), input);
    }
}

/// The completion and argument hint for a partly typed command, shown dimmed
/// after the cursor so the surface is learned by using it.
pub fn argument_hint(input: &str) -> (hint: Option<String>)
    ensures
        match hint {
            Some(h) => hint_for(input@) == Some(h@),
            None => hint_for(input@) is None,
        },
{
    if !starts_with(input, "/") {
        return None;
    }
    let table = commands();
    let ghost t = command_table();
    let typed = chars_of(input);
    assert(t.subrange(0, t.len() as int) =~= t);
    match split_once_ws(&typed) {
        Some((name, argument)) => {
            let mut i: usize = 0;
            while i < table.len()
                invariant
                    typed@ == input@,
                    begins_with(input@, "/"@),
                    split_ws(input@) == Some((name@, argument@)),
                    0 <= i <= table@.len(),
                    table@.len() == t.len(),
                    t == command_table(),
                    forall|k: int| 0 <= k < table@.len() ==> surface(#[trigger] table@[k]) == t[k],
                    named(t, name@) == named(t.subrange(i as int, t.len() as int), name@),
                decreases table@.len() - i,
            {
                proof {
                    assert(t.subrange(i as int, t.len() as int).drop_first() =~= t.subrange(
                        i + 1,
                        t.len() as int,
                    ));
                    assert(t.subrange(i as int, t.len() as int)[0] == t[i as int]);
                }
                assert(surface(table@[i as int]) == t[i as int]);
                let here = chars_of(table[i].name);
                if same_chars(&here, &name) {
                    let blank = trimmed_chars(string_of(&argument).as_str()).len() == 0;
                    if blank && !table[i].argument.is_empty() {
                        return Some(owned(table[i].argument));
                    } else {
                        return None;
                    }
                }
                i = i + 1;
            }
            None
        },
        None => {
            let mut count: usize = 0;
            let mut found: Option<usize> = None;
            let mut i: usize = 0;
            while i < table.len()
                invariant
                    typed@ == input@,
                    0 <= i <= table@.len(),
                    table@.len() == t.len(),
                    t == command_table(),
                    forall|k: int| 0 <= k < table@.len() ==> surface(#[trigger] table@[k]) == t[k],
                    count <= i,
                    prefixed_count(t, typed@) == count + prefixed_count(
                        t.subrange(i as int, t.len() as int),
                        typed@,
                    ),
                    match found {
                        Some(f) => f < i && first_prefixed(t, typed@) == Some(t[f as int]),
                        None => count == 0 && first_prefixed(t, typed@) == first_prefixed(
                            t.subrange(i as int, t.len() as int),
                            typed@,
                        ),
                    },
                decreases table@.len() - i,
            {
                proof {
                    assert(t.subrange(i as int, t.len() as int).drop_first() =~= t.subrange(
                        i + 1,
                        t.len() as int,
                    ));
                    assert(t.subrange(i as int, t.len() as int)[0] == t[i as int]);
                }
                assert(surface(table@[i as int]) == t[i as int]);
                if starts_with(table[i].name, input) {
                    count = count + 1;
                    if found.is_none() {
                        found = Some(i);
                    }
                }
                i = i + 1;
            }
            proof {
                assert(t.subrange(t.len() as int, t.len() as int).len() == 0);
            }
            if count != 1 {
                return None;
            }
            match found {
                Some(f) => {
                    let name = chars_of(table[f].name);
                    proof {
                        lemma_first_prefixed_begins(t, typed@);
                    }
                    let mut hint = string_of_from(&name, typed.len());
                    if !table[f].argument.is_empty() {
                        hint.push(' ');
                        hint.append(table[f].argument);
                    }
                    assert(hint@ =~= completion(t[f as int], input@));
                    Some(hint)
                },
                None => None,
            }
        },
    }
}

/// The characters of `v` from `from` on.
fn string_of_from(v: &Vec<char>, from: usize) -> (s: String)
    requires
        from <= v@.len(),
    ensures
        s@ == v@.subrange(from as int, v@.len() as int),
{
    crate::text::string_of_range(v, from, v.len())
}

// -- What the App shows ---------------------------------------------------------

/// What the input line is collecting. Capture is a prompt sequence rather than
/// a Screen of its own.
#[derive(Debug)]
pub enum Prompt {
    /// The ordinary input line: a search, or a command.
    Plain,
    /// The word is known; collecting the sentence it was met in.
    Sentence { spelling: String },
    /// This Word is already held — add another context for it?
    AnotherSighting { spelling: String },
    /// This Book is not in the Library yet — add it?
    AddBook { name: String },
    /// Correcting the sentence of a Sighting; the line starts on the sentence
    /// as it was captured.
    Correction { sighting_id: i64 },
    /// Take this Word out, with its Sightings?
    Removal { spelling: String, word_id: i64, sightings: usize },
}

/// The text shown at the head of the input line.
pub open spec fn prompt_label(p: Prompt) -> Option<Seq<char>> {
    match p {
        Prompt::Plain => None,
        Prompt::Sentence { .. } => Some("sentence:"@),
        Prompt::AnotherSighting { spelling } => Some(
            "add another context for \""@ + spelling@ + "\"? [y/n]"@,
        ),
        Prompt::AddBook { name } => Some(
            "\""@ + name@ + "\" is not in your Library — add it? [y/n]"@,
        ),
        Prompt::Correction { .. } => Some("corrected sentence:"@),
        Prompt::Removal { spelling, sightings, .. } => Some(
            "remove \""@ + spelling@ + "\" and its "@ + crate::text::decimal(sightings as nat) + " "@
                + crate::ui::plural_text(sightings as nat, "Sighting"@) + "? [y/n]"@,
        ),
    }
}

/// Whether a prompt takes typed text rather than a single keypress.
pub open spec fn prompt_takes_text(p: Prompt) -> bool {
    p is Plain || p is Sentence || p is Correction
}

impl Prompt {
    /// The text shown at the head of the input line.
    pub fn label(&self) -> (l: Option<String>)
        ensures
            match l {
                Some(t) => prompt_label(*self) == Some(t@),
                None => prompt_label(*self) is None,
            },
    {
        match self {
            Prompt::Plain => None,
            Prompt::Sentence { .. } => Some(owned("sentence:")),
            Prompt::AnotherSighting { spelling } => {
                let mut t = joined("add another context for \"", spelling.as_str());
                t.append("\"? [y/n]");
                Some(t)
            },
            Prompt::AddBook { name } => {
                let mut t = joined("\"", name.as_str());
                t.append("\" is not in your Library — add it? [y/n]");
                Some(t)
            },
            Prompt::Correction { .. } => Some(owned("corrected sentence:")),
            Prompt::Removal { spelling, sightings, .. } => {
                let mut t = joined("remove \"", spelling.as_str());
                t.append("\" and its ");
                push_decimal(&mut t, *sightings as u64);
                t.append(" ");
                t.append(plural(*sightings, "Sighting").as_str());
                t.append("? [y/n]");
                Some(t)
            },
        }
    }

    /// Whether this prompt takes typed text rather than a single keypress.
    pub fn takes_text(&self) -> (b: bool)
        ensures
            b == prompt_takes_text(*self),
    {
        match self {
            Prompt::Plain => true,
            Prompt::Sentence { .. } => true,
            Prompt::Correction { .. } => true,
            _ => false,
        }
    }
}

#[derive(Debug, Clone, Copy, PartialEq, Eq)]
pub enum Tone {
    Info,
    Warning,
}

#[derive(Debug)]
pub struct Message {
    pub text: String,
    pub tone: Tone,
}

/// Where a Word screen was opened from, so leaving it returns there.
#[derive(Debug)]
pub enum Origin {
    Home,
    Search { query: String },
    Library,
}

impl Clone for Origin {
    fn clone(&self) -> (r: Self)
        ensures
            r == *self,
    {
        match self {
            Origin::Home => Origin::Home,
            Origin::Search { query } => Origin::Search { query: query.clone() },
            Origin::Library => Origin::Library,
        }
    }
}

#[derive(Debug)]
pub struct WordView {
    pub word: Word,
    pub senses: Vec<Sense>,
    pub sightings: Vec<Sighting>,
    /// Where this screen was opened from, so leaving it returns there.
    pub origin: Origin,
    /// Which Sighting `/explain` would ask about.
    pub selected: usize,
}

/// Each Screen wholly replaces the last.
#[derive(Debug)]
pub enum Screen {
    Home,
    Search { results: Vec<SearchResult>, selected: usize },
    Word(WordView),
    Library { books: Vec<Book>, selected: usize },
    Help,
}

// -- Keys, asks and answers ----------------------------------------------------------

/// A key, as far as the App distinguishes keys.
#[derive(Debug, Clone, Copy, PartialEq, Eq)]
pub enum Key {
    Char(char),
    Enter,
    Esc,
    Backspace,
    Up,
    Down,
    Other,
}

/// A key event: which key, whether Control was held, and whether it was a
/// press rather than a release or a repeat.
#[derive(Debug, Clone, Copy, PartialEq, Eq)]
pub struct KeyPress {
    pub key: Key,
    pub control: bool,
    pub pressed: bool,
}

/// What the App needs done before it can carry on.
#[derive(Debug)]
pub enum Ask {
    /// Nothing: the key has been dealt with.
    Nothing,
    /// The Current Book, and the Word spelled `spelling` if there is one.
    /// Answered with [`Answer::Context`].
    Context { spelling: String },
    /// The Current Book. Answered with [`Answer::Book`].
    CurrentBook,
    /// Record a Sighting, then read back the corpus and the Word. Answered with
    /// [`Answer::Recorded`].
    Record { spelling: String, book_id: i64, sentence: String },
    /// The Senses and Sightings of `word`. Answered with [`Answer::Detail`].
    Detail { word: Word },
    /// The Book named `name`. Answered with [`Answer::Book`].
    FindBook { name: String },
    /// Make `book_id` the Current Book. Answered with [`Answer::Done`].
    SetCurrentBook { book_id: i64 },
    /// Add a Book named `name`. Answered with [`Answer::BookId`].
    AddBook { name: String },
    /// Every Book. Answered with [`Answer::Books`], or [`Answer::Failed`].
    Books,
    /// The Word with identifier `word_id`. Answered with [`Answer::Word`].
    Word { word_id: i64 },
    /// Have a Note written for a new Sighting. Answered with [`Answer::Done`].
    WriteNote { sighting_id: i64 },
    /// Clear a Sighting's Note and have it written again. Answered with
    /// [`Answer::Done`].
    Explain { sighting_id: i64 },
    /// Push every changed Word to Anki, and delete the cards of Words taken
    /// out. Answered with [`Answer::Pushing`].
    Sync,
    /// Put `sentence` in place of the Sighting's, clear its Note and queue it
    /// to be written again, and mark its Word's card changed. Answered with
    /// [`Answer::Corpus`].
    Correct { sighting_id: i64, sentence: String },
    /// Take the Word out with its Sightings, and queue the deletion of its
    /// card if it has one. Answered with [`Answer::Corpus`].
    Remove { word_id: i64 },
}

/// What the caller came back with.
#[derive(Debug)]
pub enum Answer {
    Done,
    /// The asking could not be done.
    Failed,
    Context { book: Option<Book>, word: Option<Word> },
    Book(Option<Book>),
    BookId(i64),
    Books(Vec<Book>),
    Word(Option<Word>),
    Recorded { captured: Captured, corpus: Vec<CorpusWord>, word: Option<Word> },
    Detail { senses: Vec<Sense>, sightings: Vec<Sighting> },
    /// How many cards are now being pushed or deleted.
    Pushing(usize),
    /// The corpus as it now stands.
    Corpus(Vec<CorpusWord>),
}

/// What the App is waiting to be told.
#[derive(Debug)]
#[allow(inconsistent_fields)]
pub enum Waiting {
    Idle,
    StartCapture { spelling: String },
    AlreadyHave { spelling: String, word: Word },
    Capture { spelling: String, sentence: String },
    Record { book: Book },
    NoteAsked { book: Book, word: Option<Word> },
    Captured { book: Book, word: Word },
    Switch { name: String },
    Switched { name: String },
    Adding { name: String },
    ShowLibrary,
    BackToLibrary,
    Open { origin: Origin },
    Show { word: Word, origin: Origin, selected: usize },
    Explained { word: Word, origin: Origin, selected: usize },
    Syncing,
    Correcting { sighting_id: i64, word: Word, origin: Origin, selected: usize },
    Recorrected,
    Removing { spelling: String, origin: Origin },
}

// -- Messages ----------------------------------------------------------------------

pub open spec fn notes_off_text() -> Seq<char> {
    "Notes are off — set DEEPSEEK_API_KEY to have them written."@
}

pub struct App {
    search: Search,
    corpus: Vec<CorpusWord>,
    screen: Screen,
    input: String,
    prompt: Prompt,
    message: Option<Message>,
    running: bool,
    waiting: Waiting,
    notes_on: bool,
    config: Config,
    quit_now: bool,
    /// How far the sync under way has got.
    progress: SyncProgress,
    syncing: bool,
    farewell: Option<String>,
}

impl App {
    pub closed spec fn screen_of(self) -> Screen {
        self.screen
    }

    pub closed spec fn input_of(self) -> Seq<char> {
        self.input@
    }

    pub closed spec fn prompt_of(self) -> Prompt {
        self.prompt
    }

    pub closed spec fn message_of(self) -> Option<Message> {
        self.message
    }

    pub closed spec fn running_of(self) -> bool {
        self.running
    }

    pub closed spec fn corpus_of(self) -> Seq<CorpusWord> {
        self.corpus@
    }

    pub closed spec fn waiting_of(self) -> Waiting {
        self.waiting
    }

    pub closed spec fn notes_on_of(self) -> bool {
        self.notes_on
    }

    pub closed spec fn quit_now_of(self) -> bool {
        self.quit_now
    }

    pub closed spec fn farewell_of(self) -> Option<Seq<char>> {
        match self.farewell {
            Some(f) => Some(f@),
            None => None,
        }
    }

    pub closed spec fn deck_of(self) -> Seq<char> {
        self.config.deck@
    }

    pub closed spec fn syncing_of(self) -> bool {
        self.syncing
    }

    pub closed spec fn progress_of(self) -> SyncProgress {
        self.progress
    }

    pub closed spec fn sync_on_exit_of(self) -> bool {
        self.config.sync_on_exit
    }

    /// Start on the opening screen, with the corpus search runs against.
    ///
    /// A configuration file that could not be used is said once, at launch;
    /// so is the absence of a key to write Notes with.
    pub fn new(corpus: Vec<CorpusWord>, config: Config, notes_on: bool) -> (app: Self)
        ensures
            app.running_of(),
            app.screen_of() is Home,
            app.input_of().len() == 0,
            app.prompt_of() is Plain,
            app.waiting_of() is Idle,
            app.corpus_of() == corpus@,
            app.notes_on_of() == notes_on,
            app.deck_of() == config.deck@,
            !app.syncing_of(),
            app.farewell_of() is None,
            match config.complaint {
                Some(c) => app.message_of() matches Some(m) && m.text@ == c@ && m.tone
                    == Tone::Warning,
                None => if notes_on {
                    app.message_of() is None
                } else {
                    app.message_of() matches Some(m) && m.text@ == notes_off_text() && m.tone
                        == Tone::Info
                },
            },
    {
        let message = match &config.complaint {
            Some(c) => Some(Message { text: c.clone(), tone: Tone::Warning }),
            None => if notes_on {
                None
            } else {
                Some(
                    Message {
                        text: owned("Notes are off — set DEEPSEEK_API_KEY to have them written."),
                        tone: Tone::Info,
                    },
                )
            },
        };
        App {
            search: Search::new(),
            corpus,
            screen: Screen::Home,
            input: String::new(),
            prompt: Prompt::Plain,
            message,
            running: true,
            waiting: Waiting::Idle,
            notes_on,
            config,
            quit_now: false,
            progress: SyncProgress::start(0),
            syncing: false,
            farewell: None,
        }
    }

    pub fn is_running(&self) -> (b: bool)
        ensures
            b == self.running_of(),
    {
        self.running
    }

    pub fn screen(&self) -> (s: &Screen)
        ensures
            *s == self.screen_of(),
    {
        &self.screen
    }

    pub fn input(&self) -> (s: &str)
        ensures
            s@ == self.input_of(),
    {
        self.input.as_str()
    }

    pub fn prompt(&self) -> (p: &Prompt)
        ensures
            *p == self.prompt_of(),
    {
        &self.prompt
    }

    pub fn message(&self) -> (m: Option<&Message>)
        ensures
            match m {
                Some(x) => self.message_of() == Some(*x),
                None => self.message_of() is None,
            },
    {
        match &self.message {
            Some(x) => Some(x),
            None => None,
        }
    }

    /// What to say once the terminal is the reader's again: how the last sync
    /// went, unless leaving did not sync.
    pub fn farewell(&self) -> (f: Option<&str>)
        ensures
            match f {
                Some(x) => self.farewell_of() == Some(x@),
                None => self.farewell_of() is None,
            },
    {
        match &self.farewell {
            Some(x) => Some(x.as_str()),
            None => None,
        }
    }

    /// The Anki deck cards are written to.
    pub fn deck(&self) -> (d: &str)
        ensures
            d@ == self.deck_of(),
    {
        self.config.deck.as_str()
    }

    /// Whether a sync is under way.
    pub fn is_syncing(&self) -> (b: bool)
        ensures
            b == self.syncing_of(),
    {
        self.syncing
    }

    fn inform(&mut self, tone: Tone, text: String)
        ensures
            final(self).message_of() == Some(Message { text, tone }),
            final(self).screen_of() == old(self).screen_of(),
            final(self).input_of() == old(self).input_of(),
            final(self).prompt_of() == old(self).prompt_of(),
            final(self).running_of() == old(self).running_of(),
            final(self).corpus_of() == old(self).corpus_of(),
            final(self).waiting_of() == old(self).waiting_of(),
            final(self).notes_on_of() == old(self).notes_on_of(),
            final(self).syncing_of() == old(self).syncing_of(),
            final(self).farewell_of() == old(self).farewell_of(),
            final(self).deck_of() == old(self).deck_of(),
            final(self).quit_now_of() == old(self).quit_now_of(),
    {
        self.message = Some(Message { text, tone });
    }

    fn go_home(&mut self)
        ensures
            final(self).screen_of() is Home,
            final(self).input_of().len() == 0,
            final(self).message_of() == old(self).message_of(),
            final(self).prompt_of() == old(self).prompt_of(),
            final(self).running_of() == old(self).running_of(),
            final(self).corpus_of() == old(self).corpus_of(),
            final(self).waiting_of() == old(self).waiting_of(),
            final(self).notes_on_of() == old(self).notes_on_of(),
            final(self).syncing_of() == old(self).syncing_of(),
            final(self).farewell_of() == old(self).farewell_of(),
            final(self).deck_of() == old(self).deck_of(),
            final(self).quit_now_of() == old(self).quit_now_of(),
    {
        self.input = String::new();
        self.screen = Screen::Home;
    }
}

/// Whether `press` is Control-C.
pub open spec fn is_interrupt(press: KeyPress) -> bool {
    press.control && press.key == Key::Char('c')
}

pub open spec fn is_yes(k: Key) -> bool {
    k == Key::Char('y') || k == Key::Char('Y')
}

pub open spec fn is_no(k: Key) -> bool {
    k == Key::Char('n') || k == Key::Char('N') || k == Key::Esc
}

/// The screen a search for the current input shows.
pub open spec fn searched(app: App, results: Seq<SearchResult>) -> bool {
    found_of(results) == search_results(views(app.corpus_of()), app.input_of())
}

impl App {
    /// Recompute what the screen shows for what is now typed: nothing typed is
    /// the opening screen, a command being typed is not a search, and anything
    /// else searches everything captured.
    fn input_changed(&mut self)
        ensures
            final(self).prompt_of() == old(self).prompt_of(),
            final(self).running_of() == old(self).running_of(),
            final(self).corpus_of() == old(self).corpus_of(),
            final(self).waiting_of() == old(self).waiting_of(),
            final(self).notes_on_of() == old(self).notes_on_of(),
            final(self).syncing_of() == old(self).syncing_of(),
            final(self).farewell_of() == old(self).farewell_of(),
            final(self).deck_of() == old(self).deck_of(),
            final(self).quit_now_of() == old(self).quit_now_of(),
            !(old(self).prompt_of() is Plain) ==> final(self).screen_of() == old(self).screen_of()
                && final(self).input_of() == old(self).input_of() && final(self).message_of()
                == old(self).message_of(),
            old(self).prompt_of() is Plain ==> {
                let q = trimmed(old(self).input_of());
                &&& final(self).message_of() is None
                &&& q.len() == 0 ==> final(self).screen_of() is Home && final(self).input_of().len()
                    == 0
                &&& q.len() > 0 ==> final(self).input_of() == old(self).input_of()
                &&& q.len() > 0 && begins_with(q, "/"@) ==> final(self).screen_of()
                    == old(self).screen_of()
                &&& q.len() > 0 && !begins_with(q, "/"@) ==> (final(self).screen_of() matches Screen::Search {
                    results,
                    selected,
                } && selected == 0 && searched(*final(self), results@))
            },
    {
        match self.prompt {
            Prompt::Plain => {},
            _ => {
                return;
            },
        }
        self.message = None;
        let query = trim(self.input.as_str());
        if query.as_str().is_empty() {
            self.go_home();
            return;
        }
        if starts_with(query.as_str(), "/") {
            return;
        }
        let results = self.search.run(&self.corpus, self.input.as_str());
        self.screen = Screen::Search { results, selected: 0 };
    }

    /// Move whatever is selected on this screen one step up or down, staying
    /// within the list.
    fn move_selection(&mut self, up: bool)
        ensures
            final(self).input_of() == old(self).input_of(),
            final(self).prompt_of() == old(self).prompt_of(),
            final(self).message_of() == old(self).message_of(),
            final(self).running_of() == old(self).running_of(),
            final(self).corpus_of() == old(self).corpus_of(),
            final(self).waiting_of() == old(self).waiting_of(),
            final(self).notes_on_of() == old(self).notes_on_of(),
            final(self).syncing_of() == old(self).syncing_of(),
            final(self).farewell_of() == old(self).farewell_of(),
            final(self).deck_of() == old(self).deck_of(),
            final(self).quit_now_of() == old(self).quit_now_of(),
            final(self).screen_of() == moved(old(self).screen_of(), up),
    {
        let mut screen = Screen::Home;
        std::mem::swap(&mut screen, &mut self.screen);
        self.screen = match screen {
            Screen::Search { results, selected } => {
                let n = results.len();
                Screen::Search { results, selected: step(selected, n, up) }
            },
            Screen::Library { books, selected } => {
                let n = books.len();
                Screen::Library { books, selected: step(selected, n, up) }
            },
            Screen::Word(view) => {
                let n = view.sightings.len();
                let selected = step(view.selected, n, up);
                Screen::Word(WordView { selected, ..view })
            },
            other => other,
        };
    }
}

/// A selection moved one step within a list of `n`: an empty list keeps it,
/// and it never leaves the list.
pub open spec fn stepped(selected: usize, n: nat, up: bool) -> usize {
    if n == 0 {
        selected
    } else if up {
        if selected == 0 {
            0
        } else {
            (selected - 1) as usize
        }
    } else {
        if selected + 1 < n {
            (selected + 1) as usize
        } else {
            (n - 1) as usize
        }
    }
}

/// Up moves the selection one item towards the top and Down one towards the
/// bottom, neither past the end of the list; in an empty list nothing moves.
/// Down then Up, away from the bottom, comes back to where it started.
pub proof fn law_the_arrows_move_the_selection_one_step(selected: usize, n: nat)
    requires
        n <= usize::MAX,
    ensures
        n > 0 ==> stepped(selected, n, true) <= selected,
        n > 0 && selected > 0 ==> stepped(selected, n, true) == selected - 1,
        n > 0 && selected == 0 ==> stepped(selected, n, true) == 0,
        n > 0 ==> stepped(selected, n, false) < n,
        selected + 1 < n ==> stepped(selected, n, false) == selected + 1,
        n > 0 && selected + 1 >= n ==> stepped(selected, n, false) == n - 1,
        selected + 1 < n ==> stepped(stepped(selected, n, false), n, true) == selected,
        n == 0 ==> stepped(selected, n, true) == selected && stepped(selected, n, false) == selected,
{
}

fn step(selected: usize, n: usize, up: bool) -> (s: usize)
    ensures
        s == stepped(selected, n as nat, up),
{
    if n == 0 {
        selected
    } else if up {
        selected.saturating_sub(1)
    } else if selected < n - 1 {
        selected + 1
    } else {
        n - 1
    }
}

// -- Frames -------------------------------------------------------------------------

/// Everything but the screen, the input line, the prompt, the message, the
/// corpus and what is being waited on is as it was.
pub open spec fn same_settings(a: App, b: App) -> bool {
    &&& a.running_of() == b.running_of()
    &&& a.notes_on_of() == b.notes_on_of()
    &&& a.syncing_of() == b.syncing_of()
    &&& a.farewell_of() == b.farewell_of()
    &&& a.deck_of() == b.deck_of()
    &&& a.quit_now_of() == b.quit_now_of()
}

/// Nothing a reader could see or the App could do has changed.
pub open spec fn unchanged(a: App, b: App) -> bool {
    &&& same_settings(a, b)
    &&& a.corpus_of() == b.corpus_of()
    &&& a.screen_of() == b.screen_of()
    &&& a.input_of() == b.input_of()
    &&& a.prompt_of() == b.prompt_of()
    &&& a.message_of() == b.message_of()
    &&& a.waiting_of() == b.waiting_of()
}

/// `b` is `a` with only the message replaced by `text` in `tone`.
pub open spec fn only_told(a: App, b: App, tone: Tone, text: Seq<char>) -> bool {
    &&& same_settings(a, b)
    &&& a.corpus_of() == b.corpus_of()
    &&& a.screen_of() == b.screen_of()
    &&& a.input_of() == b.input_of()
    &&& a.prompt_of() == b.prompt_of()
    &&& a.waiting_of() == b.waiting_of()
    &&& b.message_of() matches Some(m) && m.tone == tone && m.text@ == text
}

/// `b` shows what typing `input` over `a` shows: the opening screen for
/// nothing, the same screen for a command being typed, and otherwise the
/// results of searching for it.
pub open spec fn shows_typed(a: App, b: App, input: Seq<char>) -> bool {
    let q = trimmed(input);
    &&& same_settings(a, b)
    &&& a.corpus_of() == b.corpus_of()
    &&& a.prompt_of() == b.prompt_of()
    &&& b.message_of() is None
    &&& q.len() == 0 ==> b.screen_of() is Home && b.input_of().len() == 0
    &&& q.len() > 0 ==> b.input_of() == input
    &&& q.len() > 0 && begins_with(q, "/"@) ==> b.screen_of() == a.screen_of()
    &&& q.len() > 0 && !begins_with(q, "/"@) ==> (b.screen_of() matches Screen::Search {
        results,
        selected,
    } && selected == 0 && found_of(results@) == search_results(views(a.corpus_of()), input))
}

/// Nothing a reader could see has changed, and nothing is being waited on.
pub open spec fn kept(a: App, b: App) -> bool {
    &&& same_settings(a, b)
    &&& a.corpus_of() == b.corpus_of()
    &&& a.screen_of() == b.screen_of()
    &&& a.input_of() == b.input_of()
    &&& a.prompt_of() == b.prompt_of()
    &&& a.message_of() == b.message_of()
    &&& b.waiting_of() is Idle
}

/// `b` is `a` told `text` in `tone`, with the input line left to the caller
/// and nothing waited on.
pub open spec fn told(a: App, b: App, tone: Tone, text: Seq<char>) -> bool {
    &&& same_settings(a, b)
    &&& a.corpus_of() == b.corpus_of()
    &&& a.screen_of() == b.screen_of()
    &&& a.prompt_of() == b.prompt_of()
    &&& b.waiting_of() is Idle
    &&& b.message_of() matches Some(m) && m.tone == tone && m.text@ == text
}

/// Only what is being waited on may differ, besides the input line.
pub open spec fn only_waiting(a: App, b: App) -> bool {
    &&& same_settings(a, b)
    &&& a.corpus_of() == b.corpus_of()
    &&& a.screen_of() == b.screen_of()
    &&& a.prompt_of() == b.prompt_of()
    &&& a.message_of() == b.message_of()
}

/// What the command `line` does to `a`, and what it asks for.
pub open spec fn commanded(a: App, b: App, line: Seq<char>, ask: Ask) -> bool {
    let (name, argument) = command_parts(line);
    if name == "/add"@ {
        if argument.len() == 0 {
            told(a, b, Tone::Warning, "/add takes the Word you met: /add <word>"@) && ask is Nothing
        } else if has_ws(argument) {
            told(a, b, Tone::Warning, "A Word is a single word — the sentence comes next."@)
                && ask is Nothing
        } else {
            &&& ask matches Ask::Context { spelling } && spelling@ == argument
            &&& b.waiting_of() matches Waiting::StartCapture { spelling } && spelling@ == argument
            &&& only_waiting(a, b)
        }
    } else if name == "/book"@ {
        if argument.len() == 0 {
            told(a, b, Tone::Warning, "/book takes the title: /book <name>"@) && ask is Nothing
        } else {
            &&& ask matches Ask::FindBook { name } && name@ == argument
            &&& b.waiting_of() matches Waiting::Switch { name } && name@ == argument
            &&& only_waiting(a, b)
        }
    } else if name == "/library"@ {
        ask is Books && b.waiting_of() is ShowLibrary && only_waiting(a, b)
    } else if name == "/help"@ {
        &&& b.screen_of() is Help
        &&& ask is Nothing
        &&& b.waiting_of() is Idle
        &&& same_settings(a, b)
        &&& a.corpus_of() == b.corpus_of()
        &&& a.prompt_of() == b.prompt_of()
        &&& a.message_of() == b.message_of()
    } else if name == "/quit"@ {
        &&& !b.running_of()
        &&& b.quit_now_of() == (argument == "now"@)
        &&& ask is Nothing
        &&& b.waiting_of() is Idle
        &&& a.screen_of() == b.screen_of()
        &&& a.corpus_of() == b.corpus_of()
        &&& a.prompt_of() == b.prompt_of()
        &&& a.message_of() == b.message_of()
        &&& a.notes_on_of() == b.notes_on_of()
        &&& a.syncing_of() == b.syncing_of()
        &&& a.farewell_of() == b.farewell_of()
        &&& a.deck_of() == b.deck_of()
    } else if name == "/explain"@ {
        match a.screen_of() {
            Screen::Word(v) if v.selected < v.sightings@.len() => if a.notes_on_of() {
                &&& ask == (Ask::Explain { sighting_id: v.sightings@[v.selected as int].id })
                &&& b.waiting_of() == (Waiting::Explained {
                    word: v.word,
                    origin: v.origin,
                    selected: v.selected,
                })
                &&& only_waiting(a, b)
            } else {
                told(a, b, Tone::Warning, notes_off_text()) && ask is Nothing
            },
            _ => told(a, b, Tone::Warning, explain_needs_text()) && ask is Nothing,
        }
    } else if name == "/edit"@ {
        match a.screen_of() {
            Screen::Word(v) if v.selected < v.sightings@.len() => {
                &&& b.prompt_of() == (Prompt::Correction { sighting_id: v.sightings@[v.selected as int].id })
                &&& b.input_of() == v.sightings@[v.selected as int].sentence@
                &&& ask is Nothing
                &&& b.waiting_of() is Idle
                &&& same_settings(a, b)
                &&& a.corpus_of() == b.corpus_of()
                &&& a.screen_of() == b.screen_of()
                &&& a.message_of() == b.message_of()
            },
            _ => told(a, b, Tone::Warning, "/edit needs a Sighting — open a Word first."@) && ask is Nothing,
        }
    } else if name == "/remove"@ {
        match a.screen_of() {
            Screen::Word(v) => {
                &&& b.prompt_of() matches Prompt::Removal { spelling, word_id, sightings }
                    && spelling@ == v.word.spelling@ && word_id == v.word.id && sightings == v.sightings@.len()
                &&& ask is Nothing
                &&& b.waiting_of() is Idle
                &&& same_settings(a, b)
                &&& a.corpus_of() == b.corpus_of()
                &&& a.screen_of() == b.screen_of()
                &&& a.message_of() == b.message_of()
            },
            _ => told(a, b, Tone::Warning, "/remove needs a Word — open one first."@) && ask is Nothing,
        }
    } else if name == "/sync"@ {
        if a.syncing_of() {
            told(a, b, Tone::Info, "A sync is already under way."@) && ask is Nothing
        } else {
            ask is Sync && b.waiting_of() is Syncing && only_waiting(a, b)
        }
    } else {
        told(a, b, Tone::Warning, name + " isn't a command. Try /help."@) && ask is Nothing
    }
}

/// What Enter does on a correction with something typed: the trimmed line
/// is asked to stand in place of the Sighting's sentence, and once it has, the
/// Word screen it was corrected from is read again.
pub open spec fn corrected(a: App, b: App, sighting_id: i64, ask: Ask) -> bool {
    &&& ask matches Ask::Correct { sighting_id: id, sentence } && id == sighting_id && sentence@
        == trimmed(a.input_of())
    &&& b.input_of().len() == 0
    &&& b.prompt_of() is Plain
    &&& match a.screen_of() {
        Screen::Word(v) => b.waiting_of() == (Waiting::Correcting {
            sighting_id,
            word: v.word,
            origin: v.origin,
            selected: v.selected,
        }),
        _ => b.waiting_of() is Recorrected,
    }
    &&& same_settings(a, b)
    &&& a.corpus_of() == b.corpus_of()
    &&& a.screen_of() == b.screen_of()
    &&& a.message_of() == b.message_of()
}

/// What Enter does on the ordinary input line: on nothing typed, start
/// reading the Book chosen in the Library; on a command, run it; on anything
/// else, open the search result chosen.
pub open spec fn submitted(a: App, b: App, ask: Ask) -> bool {
    let line = trimmed(a.input_of());
    if line.len() == 0 {
        match a.screen_of() {
            Screen::Library { books, selected } if selected < books@.len() => {
                &&& ask == (Ask::SetCurrentBook { book_id: books@[selected as int].id })
                &&& b.waiting_of() == (Waiting::Switched { name: books@[selected as int].name })
                &&& b.input_of() == a.input_of()
                &&& only_waiting(a, b)
            },
            _ => kept(a, b) && ask is Nothing,
        }
    } else if begins_with(line, "/"@) {
        (b.prompt_of() is Correction || b.input_of().len() == 0) && commanded(a, b, line, ask)
    } else {
        match a.screen_of() {
            Screen::Search { results, selected } if selected < results@.len() => {
                &&& ask == (Ask::Word { word_id: results@[selected as int].word_id })
                &&& b.waiting_of() matches Waiting::Open { origin: Origin::Search { query } }
                    && query@ == line
                &&& b.input_of() == a.input_of()
                &&& only_waiting(a, b)
            },
            _ => kept(a, b) && ask is Nothing,
        }
    }
}

/// What Escape does on the ordinary input line: a Word goes back to where it
/// was opened from, and anything else goes back to the opening screen.
pub open spec fn cancelled(a: App, b: App, ask: Ask) -> bool {
    match a.screen_of() {
        Screen::Word(v) => match v.origin {
            Origin::Search { query } => shows_typed(a, b, query@) && b.waiting_of() is Idle
                && ask is Nothing,
            Origin::Library => {
                &&& b.input_of().len() == 0
                &&& b.waiting_of() is BackToLibrary
                &&& ask is Books
                &&& only_waiting(a, b)
            },
            Origin::Home => {
                &&& b.screen_of() is Home
                &&& b.input_of().len() == 0
                &&& b.waiting_of() is Idle
                &&& ask is Nothing
                &&& same_settings(a, b)
                &&& a.corpus_of() == b.corpus_of()
                &&& a.prompt_of() == b.prompt_of()
                &&& a.message_of() == b.message_of()
            },
        },
        _ => {
            &&& b.screen_of() is Home
            &&& b.input_of().len() == 0
            &&& b.waiting_of() is Idle
            &&& ask is Nothing
            &&& same_settings(a, b)
            &&& a.corpus_of() == b.corpus_of()
            &&& a.prompt_of() == b.prompt_of()
            &&& a.message_of() == b.message_of()
        },
    }
}

/// `s` with its selection moved one step up or down, staying within the list.
pub open spec fn moved(s: Screen, up: bool) -> Screen {
    match s {
        Screen::Search { results, selected } => Screen::Search {
            results,
            selected: stepped(selected, results@.len(), up),
        },
        Screen::Library { books, selected } => Screen::Library {
            books,
            selected: stepped(selected, books@.len(), up),
        },
        Screen::Word(v) => Screen::Word(
            WordView { selected: stepped(v.selected, v.sightings@.len(), up), ..v },
        ),
        other => other,
    }
}

/// On the search results, the Library and a Word's Sightings, Up selects the
/// item above the one selected and Down the item below, staying in the list
/// and changing nothing else on the Screen.
pub proof fn law_up_and_down_move_through_the_list_shown(s: Screen)
    requires
        match s {
            Screen::Search { results, .. } => results@.len() <= usize::MAX,
            Screen::Library { books, .. } => books@.len() <= usize::MAX,
            Screen::Word(v) => v.sightings@.len() <= usize::MAX,
            _ => true,
        },
    ensures
        match s {
            Screen::Search { results, selected } => results@.len() > 0 ==> (match moved(s, true) {
                Screen::Search { results: r, selected: up } => r == results && up <= selected && (selected > 0
                    ==> up == selected - 1),
                _ => false,
            }) && (match moved(s, false) {
                Screen::Search { results: r, selected: down } => r == results && down < results@.len() && (
                selected + 1 < results@.len() ==> down == selected + 1),
                _ => false,
            }),
            Screen::Library { books, selected } => books@.len() > 0 ==> (match moved(s, true) {
                Screen::Library { books: b, selected: up } => b == books && up <= selected && (selected > 0
                    ==> up == selected - 1),
                _ => false,
            }) && (match moved(s, false) {
                Screen::Library { books: b, selected: down } => b == books && down < books@.len() && (selected
                    + 1 < books@.len() ==> down == selected + 1),
                _ => false,
            }),
            Screen::Word(v) => v.sightings@.len() > 0 ==> (match moved(s, true) {
                Screen::Word(w) => w == (WordView { selected: w.selected, ..v }) && w.selected <= v.selected && (
                v.selected > 0 ==> w.selected == v.selected - 1),
                _ => false,
            }) && (match moved(s, false) {
                Screen::Word(w) => w == (WordView { selected: w.selected, ..v }) && w.selected
                    < v.sightings@.len() && (v.selected + 1 < v.sightings@.len() ==> w.selected == v.selected
                    + 1),
                _ => false,
            }),
            _ => moved(s, true) == s && moved(s, false) == s,
        },
{
    match s {
        Screen::Search { results, selected } => {
            law_the_arrows_move_the_selection_one_step(selected, results@.len());
        },
        Screen::Library { books, selected } => {
            law_the_arrows_move_the_selection_one_step(selected, books@.len());
        },
        Screen::Word(v) => {
            law_the_arrows_move_the_selection_one_step(v.selected, v.sightings@.len());
        },
        _ => {},
    }
}

// -- Key handling ---------------------------------------------------------------------

fn is_yes_key(k: Key) -> (b: bool)
    ensures
        b == is_yes(k),
{
    match k {
        Key::Char(c) => c == 'y' || c == 'Y',
        _ => false,
    }
}

fn is_no_key(k: Key) -> (b: bool)
    ensures
        b == is_no(k),
{
    match k {
        Key::Char(c) => c == 'n' || c == 'N',
        Key::Esc => true,
        _ => false,
    }
}

/// `name` followed by `tail`.
fn with_tail(name: &String, tail: &str) -> (s: String)
    ensures
        s@ == name@ + tail@,
{
    joined(name.as_str(), tail)
}

/// `head`, then `middle`, then `tail`.
fn framed(head: &str, middle: &str, tail: &str) -> (s: String)
    ensures
        s@ == head@ + middle@ + tail@,
{
    let mut s = joined(head, middle);
    s.append(tail);
    s
}

impl App {
    fn take_prompt(&mut self) -> (p: Prompt)
        ensures
            p == old(self).prompt_of(),
            final(self).prompt_of() is Plain,
            final(self).screen_of() == old(self).screen_of(),
            final(self).input_of() == old(self).input_of(),
            final(self).message_of() == old(self).message_of(),
            final(self).corpus_of() == old(self).corpus_of(),
            final(self).waiting_of() == old(self).waiting_of(),
            same_settings(*old(self), *final(self)),
    {
        let mut p = Prompt::Plain;
        std::mem::swap(&mut p, &mut self.prompt);
        p
    }

    fn take_waiting(&mut self) -> (w: Waiting)
        ensures
            w == old(self).waiting_of(),
            final(self).waiting_of() is Idle,
            final(self).prompt_of() == old(self).prompt_of(),
            final(self).screen_of() == old(self).screen_of(),
            final(self).input_of() == old(self).input_of(),
            final(self).message_of() == old(self).message_of(),
            final(self).corpus_of() == old(self).corpus_of(),
            same_settings(*old(self), *final(self)),
    {
        let mut w = Waiting::Idle;
        std::mem::swap(&mut w, &mut self.waiting);
        w
    }

    /// Answer a yes/no prompt. Anything that isn't yes or no leaves the
    /// question standing — only an explicit `n` or Escape declines, so a stray
    /// key cannot discard a capture.
    fn answer_prompt(&mut self, key: Key) -> (ask: Ask)
        requires
            !prompt_takes_text(old(self).prompt_of()),
            old(self).waiting_of() is Idle,
        ensures
            !is_yes(key) && !is_no(key) ==> unchanged(*old(self), *final(self)) && ask is Nothing,
            is_yes(key) || is_no(key) ==> match old(self).prompt_of() {
                Prompt::AnotherSighting { spelling } => if is_yes(key) {
                    &&& final(self).prompt_of() == (Prompt::Sentence { spelling })
                    &&& final(self).screen_of() == old(self).screen_of()
                    &&& final(self).input_of() == old(self).input_of()
                    &&& final(self).message_of() == old(self).message_of()
                    &&& final(self).corpus_of() == old(self).corpus_of()
                    &&& final(self).waiting_of() is Idle
                    &&& same_settings(*old(self), *final(self))
                    &&& ask is Nothing
                } else {
                    &&& final(self).prompt_of() is Plain
                    &&& final(self).message_of() matches Some(m) && m.tone == Tone::Info
                        && m.text@ == "Left unchanged."@
                    &&& final(self).screen_of() == old(self).screen_of()
                    &&& final(self).waiting_of() is Idle
                    &&& same_settings(*old(self), *final(self))
                    &&& ask is Nothing
                },
                Prompt::AddBook { name } => if is_yes(key) {
                    &&& final(self).prompt_of() is Plain
                    &&& final(self).waiting_of() == (Waiting::Adding { name })
                    &&& ask matches Ask::AddBook { name: n } && n@ == name@
                    &&& final(self).screen_of() == old(self).screen_of()
                    &&& same_settings(*old(self), *final(self))
                } else {
                    &&& final(self).prompt_of() is Plain
                    &&& final(self).message_of() matches Some(m) && m.tone == Tone::Info
                        && m.text@ == name@ + " was not added."@
                    &&& final(self).screen_of() == old(self).screen_of()
                    &&& final(self).waiting_of() is Idle
                    &&& same_settings(*old(self), *final(self))
                    &&& ask is Nothing
                },
                Prompt::Removal { spelling, word_id, .. } => if is_yes(key) {
                    &&& final(self).prompt_of() is Plain
                    &&& ask == (Ask::Remove { word_id })
                    &&& final(self).waiting_of() matches Waiting::Removing { spelling: sp, origin }
                        && sp@ == spelling@ && origin == origin_of(old(self).screen_of())
                    &&& final(self).screen_of() == old(self).screen_of()
                    &&& final(self).corpus_of() == old(self).corpus_of()
                    &&& same_settings(*old(self), *final(self))
                } else {
                    &&& final(self).prompt_of() is Plain
                    &&& final(self).message_of() matches Some(m) && m.tone == Tone::Info
                        && m.text@ == "\""@ + spelling@ + "\" was not removed."@
                    &&& final(self).screen_of() == old(self).screen_of()
                    &&& final(self).corpus_of() == old(self).corpus_of()
                    &&& final(self).waiting_of() is Idle
                    &&& same_settings(*old(self), *final(self))
                    &&& ask is Nothing
                },
                _ => unchanged(*old(self), *final(self)) && ask is Nothing,
            },
    {
        let yes = is_yes_key(key);
        let no = is_no_key(key);
        if !yes && !no {
            return Ask::Nothing;
        }
        let prompt = self.take_prompt();
        match prompt {
            Prompt::AnotherSighting { spelling } => {
                if yes {
                    self.prompt = Prompt::Sentence { spelling };
                } else {
                    self.inform(Tone::Info, owned("Left unchanged."));
                }
                Ask::Nothing
            },
            Prompt::AddBook { name } => {
                if yes {
                    self.waiting = Waiting::Adding { name: name.clone() };
                    Ask::AddBook { name }
                } else {
                    let text = with_tail(&name, " was not added.");
                    self.inform(Tone::Info, text);
                    Ask::Nothing
                }
            },
            Prompt::Removal { spelling, word_id, .. } => {
                if yes {
                    let origin = match &self.screen {
                        Screen::Word(v) => v.origin.clone(),
                        _ => Origin::Home,
                    };
                    self.waiting = Waiting::Removing { spelling, origin };
                    Ask::Remove { word_id }
                } else {
                    let text = framed("\"", spelling.as_str(), "\" was not removed.");
                    self.inform(Tone::Info, text);
                    Ask::Nothing
                }
            },
            other => {
                self.prompt = other;
                Ask::Nothing
            },
        }
    }
}

/// Where leaving `s` goes back to: the origin of a Word screen, and otherwise
/// the opening screen.
pub open spec fn origin_of(s: Screen) -> Origin {
    match s {
        Screen::Word(v) => v.origin,
        _ => Origin::Home,
    }
}

/// A command line split into the command's name and its trimmed argument.
pub open spec fn command_parts(input: Seq<char>) -> (Seq<char>, Seq<char>) {
    match split_ws(input) {
        Some((name, argument)) => (name, trimmed(argument)),
        None => (input, Seq::empty()),
    }
}

pub open spec fn explain_needs_text() -> Seq<char> {
    "/explain needs a Sighting — open a Word first."@
}

impl App {
    fn return_to(&mut self, origin: Origin) -> (ask: Ask)
        requires
            old(self).prompt_of() is Plain,
        ensures
            match origin {
                Origin::Search { query } => shows_typed(*old(self), *final(self), query@)
                    && final(self).waiting_of() == old(self).waiting_of() && ask is Nothing,
                Origin::Library => {
                    &&& final(self).input_of().len() == 0
                    &&& final(self).waiting_of() is BackToLibrary
                    &&& final(self).screen_of() == old(self).screen_of()
                    &&& final(self).prompt_of() == old(self).prompt_of()
                    &&& final(self).message_of() == old(self).message_of()
                    &&& final(self).corpus_of() == old(self).corpus_of()
                    &&& same_settings(*old(self), *final(self))
                    &&& ask is Books
                },
                Origin::Home => {
                    &&& final(self).screen_of() is Home
                    &&& final(self).input_of().len() == 0
                    &&& final(self).prompt_of() == old(self).prompt_of()
                    &&& final(self).message_of() == old(self).message_of()
                    &&& final(self).waiting_of() == old(self).waiting_of()
                    &&& final(self).corpus_of() == old(self).corpus_of()
                    &&& same_settings(*old(self), *final(self))
                    &&& ask is Nothing
                },
            },
    {
        match origin {
            Origin::Search { query } => {
                self.input = query;
                self.input_changed();
                Ask::Nothing
            },
            Origin::Library => {
                self.input = String::new();
                self.waiting = Waiting::BackToLibrary;
                Ask::Books
            },
            Origin::Home => {
                self.go_home();
                Ask::Nothing
            },
        }
    }

    /// Escape backs out of wherever you are: a part-finished capture first,
    /// then a Screen, then to Home.
    fn cancel(&mut self) -> (ask: Ask)
        requires
            prompt_takes_text(old(self).prompt_of()),
            old(self).waiting_of() is Idle,
        ensures
            old(self).prompt_of() is Sentence ==> {
                &&& final(self).prompt_of() is Plain
                &&& final(self).input_of().len() == 0
                &&& final(self).message_of() matches Some(m) && m.tone == Tone::Info && m.text@
                    == "Capture cancelled — nothing was saved."@
                &&& final(self).screen_of() == old(self).screen_of()
                &&& final(self).corpus_of() == old(self).corpus_of()
                &&& final(self).waiting_of() is Idle
                &&& same_settings(*old(self), *final(self))
                &&& ask is Nothing
            },
            old(self).prompt_of() is Correction ==> {
                &&& final(self).prompt_of() is Plain
                &&& final(self).input_of().len() == 0
                &&& final(self).message_of() matches Some(m) && m.tone == Tone::Info && m.text@
                    == "Left as it was."@
                &&& final(self).screen_of() == old(self).screen_of()
                &&& final(self).corpus_of() == old(self).corpus_of()
                &&& final(self).waiting_of() is Idle
                &&& same_settings(*old(self), *final(self))
                &&& ask is Nothing
            },
            old(self).prompt_of() is Plain ==> cancelled(*old(self), *final(self), ask),
    {
        if let Prompt::Sentence { .. } = self.prompt {
            self.prompt = Prompt::Plain;
            self.input = String::new();
            self.inform(Tone::Info, owned("Capture cancelled — nothing was saved."));
            return Ask::Nothing;
        }
        if let Prompt::Correction { .. } = self.prompt {
            self.prompt = Prompt::Plain;
            self.input = String::new();
            self.inform(Tone::Info, owned("Left as it was."));
            return Ask::Nothing;
        }
        let origin = match &self.screen {
            Screen::Word(view) => Some(view.origin.clone()),
            _ => None,
        };
        match origin {
            Some(o) => self.return_to(o),
            None => {
                self.go_home();
                Ask::Nothing
            },
        }
    }

    fn start_capture(&mut self, argument: Vec<char>) -> (ask: Ask)
        requires
            old(self).waiting_of() is Idle,
            argument@ == trimmed(argument@),
        ensures
            argument@.len() == 0 ==> only_told(*old(self), *final(self), Tone::Warning, "/add takes the Word you met: /add <word>"@) && ask is Nothing,
            argument@.len() > 0 && has_ws(argument@) ==> only_told(*old(self), *final(self), Tone::Warning, "A Word is a single word — the sentence comes next."@) && ask is Nothing,
            argument@.len() > 0 && !has_ws(argument@) ==> {
                &&& ask matches Ask::Context { spelling } && spelling@ == argument@
                &&& final(self).waiting_of() matches Waiting::StartCapture { spelling } && spelling@ == argument@
                &&& final(self).corpus_of() == old(self).corpus_of()
                &&& final(self).input_of() == old(self).input_of()
                &&& final(self).screen_of() == old(self).screen_of()
                &&& final(self).prompt_of() == old(self).prompt_of()
                &&& final(self).message_of() == old(self).message_of()
                &&& same_settings(*old(self), *final(self))
            },
    {
        if argument.len() == 0 {
            self.inform(Tone::Warning, owned("/add takes the Word you met: /add <word>"));
            return Ask::Nothing;
        }
        if holds_whitespace(&argument) {
            self.inform(Tone::Warning, owned("A Word is a single word — the sentence comes next."));
            return Ask::Nothing;
        }
        let spelling = string_of(&argument);
        self.waiting = Waiting::StartCapture { spelling: spelling.clone() };
        Ask::Context { spelling }
    }

    fn switch_book(&mut self, argument: Vec<char>) -> (ask: Ask)
        requires
            old(self).waiting_of() is Idle,
        ensures
            argument@.len() == 0 ==> only_told(*old(self), *final(self), Tone::Warning, "/book takes the title: /book <name>"@) && ask is Nothing,
            argument@.len() > 0 ==> {
                &&& ask matches Ask::FindBook { name } && name@ == argument@
                &&& final(self).waiting_of() matches Waiting::Switch { name } && name@ == argument@
                &&& final(self).corpus_of() == old(self).corpus_of()
                &&& final(self).input_of() == old(self).input_of()
                &&& final(self).screen_of() == old(self).screen_of()
                &&& final(self).prompt_of() == old(self).prompt_of()
                &&& final(self).message_of() == old(self).message_of()
                &&& same_settings(*old(self), *final(self))
            },
    {
        if argument.len() == 0 {
            self.inform(Tone::Warning, owned("/book takes the title: /book <name>"));
            return Ask::Nothing;
        }
        let name = string_of(&argument);
        self.waiting = Waiting::Switch { name: name.clone() };
        Ask::FindBook { name }
    }

    /// `/explain`: ask again about the Sighting being looked at.
    fn explain(&mut self) -> (ask: Ask)
        requires
            old(self).waiting_of() is Idle,
        ensures
            match old(self).screen_of() {
                Screen::Word(v) if v.selected < v.sightings@.len() => if old(self).notes_on_of() {
                    &&& ask == (Ask::Explain { sighting_id: v.sightings@[v.selected as int].id })
                    &&& final(self).waiting_of() == (Waiting::Explained {
                        word: v.word,
                        origin: v.origin,
                        selected: v.selected,
                    })
                    &&& final(self).input_of() == old(self).input_of()
                    &&& final(self).screen_of() == old(self).screen_of()
                    &&& final(self).prompt_of() == old(self).prompt_of()
                    &&& final(self).message_of() == old(self).message_of()
                    &&& final(self).corpus_of() == old(self).corpus_of()
                    &&& same_settings(*old(self), *final(self))
                } else {
                    only_told(*old(self), *final(self), Tone::Warning, notes_off_text())
                        && ask is Nothing
                },
                _ => only_told(*old(self), *final(self), Tone::Warning, explain_needs_text())
                    && ask is Nothing,
            },
    {
        let target = match &self.screen {
            Screen::Word(view) => {
                if view.selected < view.sightings.len() {
                    Some(
                        (
                            view.word.clone(),
                            view.origin.clone(),
                            view.selected,
                            view.sightings[view.selected].id,
                        ),
                    )
                } else {
                    None
                }
            },
            _ => None,
        };
        match target {
            Some((word, origin, selected, sighting_id)) => {
                if !self.notes_on {
                    self.inform(
                        Tone::Warning,
                        owned("Notes are off — set DEEPSEEK_API_KEY to have them written."),
                    );
                    return Ask::Nothing;
                }
                self.waiting = Waiting::Explained { word, origin, selected };
                Ask::Explain { sighting_id }
            },
            None => {
                self.inform(Tone::Warning, owned("/explain needs a Sighting — open a Word first."));
                Ask::Nothing
            },
        }
    }

    /// `/edit`: start correcting the sentence of the Sighting being looked at,
    /// with the line starting on the sentence as it was captured.
    fn edit(&mut self) -> (ask: Ask)
        requires
            old(self).waiting_of() is Idle,
            old(self).prompt_of() is Plain,
        ensures
            match old(self).screen_of() {
                Screen::Word(v) if v.selected < v.sightings@.len() => {
                    &&& final(self).prompt_of() == (Prompt::Correction { sighting_id: v.sightings@[v.selected as int].id })
                    &&& final(self).input_of() == v.sightings@[v.selected as int].sentence@
                    &&& ask is Nothing
                    &&& final(self).waiting_of() is Idle
                    &&& same_settings(*old(self), *final(self))
                    &&& old(self).corpus_of() == final(self).corpus_of()
                    &&& old(self).screen_of() == final(self).screen_of()
                    &&& old(self).message_of() == final(self).message_of()
                },
                _ => only_told(*old(self), *final(self), Tone::Warning, "/edit needs a Sighting — open a Word first."@)
                    && ask is Nothing,
            },
    {
        let target = match &self.screen {
            Screen::Word(view) => {
                if view.selected < view.sightings.len() {
                    Some((view.sightings[view.selected].id, view.sightings[view.selected].sentence.clone()))
                } else {
                    None
                }
            },
            _ => None,
        };
        match target {
            Some((sighting_id, sentence)) => {
                self.prompt = Prompt::Correction { sighting_id };
                self.input = sentence;
                Ask::Nothing
            },
            None => {
                self.inform(Tone::Warning, owned("/edit needs a Sighting — open a Word first."));
                Ask::Nothing
            },
        }
    }

    /// `/remove`: ask before taking out the Word being looked at, naming how
    /// many Sightings go with it.
    fn remove(&mut self) -> (ask: Ask)
        requires
            old(self).waiting_of() is Idle,
        ensures
            match old(self).screen_of() {
                Screen::Word(v) => {
                    &&& final(self).prompt_of() matches Prompt::Removal { spelling, word_id, sightings }
                        && spelling@ == v.word.spelling@ && word_id == v.word.id && sightings == v.sightings@.len()
                    &&& ask is Nothing
                    &&& final(self).waiting_of() is Idle
                    &&& final(self).input_of() == old(self).input_of()
                    &&& same_settings(*old(self), *final(self))
                    &&& old(self).corpus_of() == final(self).corpus_of()
                    &&& old(self).screen_of() == final(self).screen_of()
                    &&& old(self).message_of() == final(self).message_of()
                },
                _ => only_told(*old(self), *final(self), Tone::Warning, "/remove needs a Word — open one first."@)
                    && ask is Nothing,
            },
    {
        let target = match &self.screen {
            Screen::Word(view) => Some((view.word.spelling.clone(), view.word.id, view.sightings.len())),
            _ => None,
        };
        match target {
            Some((spelling, word_id, sightings)) => {
                self.prompt = Prompt::Removal { spelling, word_id, sightings };
                Ask::Nothing
            },
            None => {
                self.inform(Tone::Warning, owned("/remove needs a Word — open one first."));
                Ask::Nothing
            },
        }
    }

    /// `/sync`: push every changed Word, unless a sync is already under way —
    /// starting a second over the top of the first would push the same Word
    /// twice, both times as a card Anki has never seen.
    fn sync(&mut self) -> (ask: Ask)
        requires
            old(self).waiting_of() is Idle,
        ensures
            old(self).syncing_of() ==> only_told(*old(self), *final(self), Tone::Info, "A sync is already under way."@) && ask is Nothing,
            !old(self).syncing_of() ==> {
                &&& ask is Sync
                &&& final(self).waiting_of() is Syncing
                &&& final(self).input_of() == old(self).input_of()
                &&& final(self).screen_of() == old(self).screen_of()
                &&& final(self).message_of() == old(self).message_of()
                &&& final(self).prompt_of() == old(self).prompt_of()
                &&& final(self).corpus_of() == old(self).corpus_of()
                &&& same_settings(*old(self), *final(self))
            },
    {
        if self.syncing {
            self.inform(Tone::Info, owned("A sync is already under way."));
            return Ask::Nothing;
        }
        self.waiting = Waiting::Syncing;
        Ask::Sync
    }

    fn run_command(&mut self, line: String) -> (ask: Ask)
        requires
            old(self).waiting_of() is Idle,
            old(self).prompt_of() is Plain,
        ensures
            final(self).prompt_of() is Correction || final(self).input_of() == old(self).input_of(),
            commanded(*old(self), *final(self), line@, ask),
    {
        let chars = chars_of(line.as_str());
        let (name, argument) = match split_once_ws(&chars) {
            Some((n, a)) => {
                let t = trimmed_chars(string_of(&a).as_str());
                (n, t)
            },
            None => (chars, Vec::new()),
        };
        proof {
            assert(argument@ == command_parts(line@).1);
            if split_ws(line@) is None {
                assert(argument@ =~= Seq::<char>::empty());
                crate::text::lemma_trimmed_shape(Seq::<char>::empty());
                assert(trimmed(Seq::<char>::empty()) =~= Seq::<char>::empty());
            } else {
                let parts = split_ws(line@)->0;
                crate::text::lemma_trim_idempotent(parts.1);
            }
        }
        if same_chars(&name, &chars_of("/add")) {
            self.start_capture(argument)
        } else if same_chars(&name, &chars_of("/book")) {
            self.switch_book(argument)
        } else if same_chars(&name, &chars_of("/library")) {
            self.waiting = Waiting::ShowLibrary;
            Ask::Books
        } else if same_chars(&name, &chars_of("/help")) {
            self.screen = Screen::Help;
            Ask::Nothing
        } else if same_chars(&name, &chars_of("/quit")) {
            self.running = false;
            self.quit_now = same_chars(&argument, &chars_of("now"));
            Ask::Nothing
        } else if same_chars(&name, &chars_of("/explain")) {
            self.explain()
        } else if same_chars(&name, &chars_of("/edit")) {
            self.edit()
        } else if same_chars(&name, &chars_of("/remove")) {
            self.remove()
        } else if same_chars(&name, &chars_of("/sync")) {
            self.sync()
        } else {
            let mut text = string_of(&name);
            text.append(" isn't a command. Try /help.");
            self.inform(Tone::Warning, text);
            Ask::Nothing
        }
    }
}

impl App {
    /// Enter on the Library: start reading the Book that is selected.
    fn choose_book(&mut self) -> (ask: Ask)
        requires
            old(self).waiting_of() is Idle,
        ensures
            match old(self).screen_of() {
                Screen::Library { books, selected } if selected < books@.len() => {
                    &&& ask == (Ask::SetCurrentBook { book_id: books@[selected as int].id })
                    &&& final(self).waiting_of() == (Waiting::Switched { name: books@[selected as int].name })
                    &&& final(self).screen_of() == old(self).screen_of()
                    &&& final(self).input_of() == old(self).input_of()
                    &&& final(self).prompt_of() == old(self).prompt_of()
                    &&& final(self).message_of() == old(self).message_of()
                    &&& final(self).corpus_of() == old(self).corpus_of()
                    &&& same_settings(*old(self), *final(self))
                },
                _ => unchanged(*old(self), *final(self)) && ask is Nothing,
            },
    {
        let target = match &self.screen {
            Screen::Library { books, selected } => {
                if *selected < books.len() {
                    Some((books[*selected].id, books[*selected].name.clone()))
                } else {
                    None
                }
            },
            _ => None,
        };
        match target {
            Some((book_id, name)) => {
                self.waiting = Waiting::Switched { name };
                Ask::SetCurrentBook { book_id }
            },
            None => Ask::Nothing,
        }
    }

    /// Enter on a search: open what is selected.
    fn open_selected(&mut self) -> (ask: Ask)
        requires
            old(self).waiting_of() is Idle,
        ensures
            match old(self).screen_of() {
                Screen::Search { results, selected } if selected < results@.len() => {
                    &&& ask == (Ask::Word { word_id: results@[selected as int].word_id })
                    &&& final(self).waiting_of() matches Waiting::Open { origin: Origin::Search { query } }
                        && query@ == trimmed(old(self).input_of())
                    &&& final(self).screen_of() == old(self).screen_of()
                    &&& final(self).input_of() == old(self).input_of()
                    &&& final(self).prompt_of() == old(self).prompt_of()
                    &&& final(self).message_of() == old(self).message_of()
                    &&& final(self).corpus_of() == old(self).corpus_of()
                    &&& same_settings(*old(self), *final(self))
                },
                _ => unchanged(*old(self), *final(self)) && ask is Nothing,
            },
    {
        let target = match &self.screen {
            Screen::Search { results, selected } => {
                if *selected < results.len() {
                    Some(results[*selected].word_id)
                } else {
                    None
                }
            },
            _ => None,
        };
        match target {
            Some(word_id) => {
                let query = trim(self.input.as_str());
                self.waiting = Waiting::Open { origin: Origin::Search { query } };
                Ask::Word { word_id }
            },
            None => Ask::Nothing,
        }
    }

    fn submit(&mut self) -> (ask: Ask)
        requires
            prompt_takes_text(old(self).prompt_of()),
            old(self).waiting_of() is Idle,
        ensures
            match old(self).prompt_of() {
                Prompt::Sentence { spelling } => if trimmed(old(self).input_of()).len() == 0 {
                    only_told(*old(self), *final(self), Tone::Warning, "Type the sentence you met the word in."@) && ask is Nothing
                } else {
                    &&& ask is CurrentBook
                    &&& final(self).waiting_of() matches Waiting::Capture { spelling: sp, sentence }
                        && sp == spelling && sentence@ == trimmed(old(self).input_of())
                    &&& final(self).input_of().len() == 0
                    &&& final(self).prompt_of() is Plain
                    &&& final(self).screen_of() == old(self).screen_of()
                    &&& same_settings(*old(self), *final(self))
                },
                Prompt::Correction { sighting_id } => if trimmed(old(self).input_of()).len() == 0 {
                    only_told(*old(self), *final(self), Tone::Warning, "Type the sentence as the Book has it."@) && ask is Nothing
                } else {
                    corrected(*old(self), *final(self), sighting_id, ask)
                },
                _ => submitted(*old(self), *final(self), ask),
            },
    {
        let prompt = self.take_prompt();
        match prompt {
            Prompt::Sentence { spelling } => {
                let sentence = trim(self.input.as_str());
                if sentence.as_str().is_empty() {
                    self.prompt = Prompt::Sentence { spelling };
                    self.inform(Tone::Warning, owned("Type the sentence you met the word in."));
                    return Ask::Nothing;
                }
                self.input = String::new();
                self.waiting = Waiting::Capture { spelling, sentence };
                return Ask::CurrentBook;
            },
            Prompt::Correction { sighting_id } => {
                let sentence = trim(self.input.as_str());
                if sentence.as_str().is_empty() {
                    self.prompt = Prompt::Correction { sighting_id };
                    self.inform(Tone::Warning, owned("Type the sentence as the Book has it."));
                    return Ask::Nothing;
                }
                self.input = String::new();
                let shown = match &self.screen {
                    Screen::Word(v) => Some((v.word.clone(), v.origin.clone(), v.selected)),
                    _ => None,
                };
                self.waiting = match shown {
                    Some((word, origin, selected)) => Waiting::Correcting { sighting_id, word, origin, selected },
                    None => Waiting::Recorrected,
                };
                return Ask::Correct { sighting_id, sentence };
            },
            other => {
                self.prompt = other;
            },
        }
        let line = trim(self.input.as_str());
        if line.as_str().is_empty() {
            return self.choose_book();
        }
        if starts_with(line.as_str(), "/") {
            self.input = String::new();
            return self.run_command(line);
        }
        self.open_selected()
    }

    /// Handle one key.
    ///
    /// A key abandons anything the App was still waiting to be told; the
    /// caller answers every [`Ask`] before sending the next key.
    pub fn handle_key(&mut self, press: KeyPress) -> (ask: Ask)
        ensures
            !press.pressed ==> unchanged(*old(self), *final(self)) && ask is Nothing,
            press.pressed && is_interrupt(press) ==> {
                &&& !final(self).running_of()
                &&& final(self).screen_of() == old(self).screen_of()
                &&& final(self).input_of() == old(self).input_of()
                &&& final(self).prompt_of() == old(self).prompt_of()
                &&& ask is Nothing
            },
            press.pressed && !is_interrupt(press) && !prompt_takes_text(old(self).prompt_of()) ==> {
                &&& !is_yes(press.key) && !is_no(press.key) ==> final(self).screen_of() == old(self).screen_of()
                    && final(self).prompt_of() == old(self).prompt_of() && final(self).input_of() == old(self).input_of()
                    && final(self).message_of() == old(self).message_of()
                    && final(self).corpus_of() == old(self).corpus_of()
                    && ask is Nothing
                &&& match old(self).prompt_of() {
                    Prompt::AnotherSighting { spelling } => {
                        &&& is_yes(press.key) ==> final(self).prompt_of() == (Prompt::Sentence { spelling }) && ask is Nothing
                        &&& is_no(press.key) ==> final(self).prompt_of() is Plain && ask is Nothing
                            && (final(self).message_of() matches Some(m) && m.text@ == "Left unchanged."@)
                    },
                    Prompt::AddBook { name } => {
                        &&& is_yes(press.key) ==> final(self).prompt_of() is Plain
                            && (ask matches Ask::AddBook { name: n } && n@ == name@)
                        &&& is_no(press.key) ==> final(self).prompt_of() is Plain && ask is Nothing
                            && (final(self).message_of() matches Some(m) && m.text@ == name@ + " was not added."@)
                    },
                    Prompt::Removal { spelling, word_id, .. } => {
                        &&& is_yes(press.key) ==> final(self).prompt_of() is Plain
                            && ask == (Ask::Remove { word_id })
                            && (final(self).waiting_of() matches Waiting::Removing { spelling: sp, origin }
                                && sp@ == spelling@ && origin == origin_of(old(self).screen_of()))
                        &&& is_no(press.key) ==> final(self).prompt_of() is Plain && ask is Nothing
                            && final(self).corpus_of() == old(self).corpus_of()
                            && (final(self).message_of() matches Some(m)
                                && m.text@ == "\""@ + spelling@ + "\" was not removed."@)
                    },
                    _ => true,
                }
            },
            press.pressed && !is_interrupt(press) && prompt_takes_text(old(self).prompt_of()) ==> match press.key {
                Key::Char(c) => ask is Nothing && if !(old(self).prompt_of() is Plain) {
                    final(self).input_of() == old(self).input_of().push(c) && final(self).screen_of() == old(self).screen_of()
                } else {
                    shows_typed(*old(self), *final(self), old(self).input_of().push(c))
                },
                Key::Backspace => ask is Nothing && {
                    let left = if old(self).input_of().len() > 0 { old(self).input_of().drop_last() } else { old(self).input_of() };
                    if !(old(self).prompt_of() is Plain) {
                        final(self).input_of() == left && final(self).screen_of() == old(self).screen_of()
                    } else {
                        shows_typed(*old(self), *final(self), left)
                    }
                },
                Key::Up => ask is Nothing && final(self).input_of() == old(self).input_of()
                    && final(self).screen_of() == moved(old(self).screen_of(), true),
                Key::Down => ask is Nothing && final(self).input_of() == old(self).input_of()
                    && final(self).screen_of() == moved(old(self).screen_of(), false),
                Key::Esc => if old(self).prompt_of() is Sentence {
                    &&& final(self).prompt_of() is Plain
                    &&& final(self).input_of().len() == 0
                    &&& final(self).screen_of() == old(self).screen_of()
                    &&& final(self).message_of() matches Some(m) && m.text@ == "Capture cancelled — nothing was saved."@
                    &&& final(self).corpus_of() == old(self).corpus_of()
                    &&& ask is Nothing
                } else if old(self).prompt_of() is Correction {
                    &&& final(self).prompt_of() is Plain
                    &&& final(self).input_of().len() == 0
                    &&& final(self).screen_of() == old(self).screen_of()
                    &&& final(self).message_of() matches Some(m) && m.text@ == "Left as it was."@
                    &&& final(self).corpus_of() == old(self).corpus_of()
                    &&& ask is Nothing
                } else {
                    cancelled(*old(self), *final(self), ask)
                },
                Key::Enter => match old(self).prompt_of() {
                    Prompt::Sentence { spelling } => if trimmed(old(self).input_of()).len() > 0 {
                        &&& ask is CurrentBook
                        &&& final(self).waiting_of() matches Waiting::Capture { spelling: sp, sentence }
                            && sp == spelling && sentence@ == trimmed(old(self).input_of())
                        &&& final(self).input_of().len() == 0
                        &&& final(self).prompt_of() is Plain
                    } else {
                        &&& ask is Nothing
                        &&& final(self).input_of() == old(self).input_of()
                        &&& final(self).prompt_of() == old(self).prompt_of()
                        &&& final(self).message_of() matches Some(m) && m.text@ == "Type the sentence you met the word in."@
                    },
                    Prompt::Correction { sighting_id } => if trimmed(old(self).input_of()).len() > 0 {
                        corrected(*old(self), *final(self), sighting_id, ask)
                    } else {
                        &&& ask is Nothing
                        &&& final(self).input_of() == old(self).input_of()
                        &&& final(self).prompt_of() == old(self).prompt_of()
                        &&& final(self).message_of() matches Some(m) && m.text@ == "Type the sentence as the Book has it."@
                    },
                    _ => submitted(*old(self), *final(self), ask),
                },
                Key::Other => ask is Nothing && final(self).screen_of() == old(self).screen_of()
                    && final(self).input_of() == old(self).input_of(),
            },
    {
        if !press.pressed {
            return Ask::Nothing;
        }
        self.waiting = Waiting::Idle;
        let interrupt = press.control && match press.key {
            Key::Char(c) => c == 'c',
            _ => false,
        };
        if interrupt {
            self.running = false;
            return Ask::Nothing;
        }
        if !self.prompt.takes_text() {
            return self.answer_prompt(press.key);
        }
        match press.key {
            Key::Esc => self.cancel(),
            Key::Enter => self.submit(),
            Key::Backspace => {
                self.input.pop();
                self.input_changed();
                Ask::Nothing
            },
            Key::Up => {
                self.move_selection(true);
                Ask::Nothing
            },
            Key::Down => {
                self.move_selection(false);
                Ask::Nothing
            },
            Key::Char(c) => {
                self.input.push(c);
                self.input_changed();
                Ask::Nothing
            },
            Key::Other => Ask::Nothing,
        }
    }
}

pub open spec fn clamped(selected: usize, n: nat) -> usize {
    if selected < n {
        selected
    } else if n > 0 {
        (n - 1) as usize
    } else {
        0
    }
}

/// What is said once a capture has been recorded and read back.
pub open spec fn captured_text(book: Seq<char>, found_senses: bool) -> Seq<char> {
    if found_senses {
        "Captured from "@ + book + "."@
    } else {
        "Captured from "@ + book + " — no definition, but the Sighting is kept."@
    }
}

pub open spec fn already_have_text(spelling: Seq<char>) -> Seq<char> {
    "You already have \""@ + spelling + "\" — here is where you met it."@
}

/// What is said as a sync starts.
pub open spec fn syncing_text(n: nat) -> Seq<char> {
    "Syncing "@ + crate::text::decimal(n) + " "@ + crate::ui::plural_text(n, "Word"@) + " to Anki…"@
}

/// `b` shows the Word screen for `word` with these Senses and Sightings.
pub open spec fn shows_word(b: App, word: Word, senses: Seq<Sense>, sightings: Seq<Sighting>, origin: Origin, selected: usize) -> bool {
    b.screen_of() matches Screen::Word(v) && v.word == word && v.senses@ == senses && v.sightings@
        == sightings && v.origin == origin && v.selected == clamped(selected, sightings.len())
}

impl App {
    fn show_word(&mut self, word: Word, senses: Vec<Sense>, sightings: Vec<Sighting>, origin: Origin, selected: usize)
        ensures
            shows_word(*final(self), word, senses@, sightings@, origin, selected),
            final(self).input_of() == old(self).input_of(),
            final(self).prompt_of() == old(self).prompt_of(),
            final(self).message_of() == old(self).message_of(),
            final(self).corpus_of() == old(self).corpus_of(),
            final(self).waiting_of() == old(self).waiting_of(),
            same_settings(*old(self), *final(self)),
    {
        let n = sightings.len();
        let selected = if selected < n {
            selected
        } else if n > 0 {
            n - 1
        } else {
            0
        };
        self.screen = Screen::Word(WordView { word, senses, sightings, origin, selected });
    }

    fn after_note(&mut self, book: Book, word: Option<Word>) -> (ask: Ask)
        ensures
            match word {
                Some(w) => ask == (Ask::Detail { word: w }) && final(self).waiting_of() == (Waiting::Captured { book, word: w })
                    && final(self).screen_of() == old(self).screen_of() && final(self).corpus_of() == old(self).corpus_of()
                    && same_settings(*old(self), *final(self)),
                None => only_told(*old(self), *final(self), Tone::Warning, "That Word could not be read back."@) && ask is Nothing,
            },
    {
        match word {
            Some(w) => {
                self.waiting = Waiting::Captured { book, word: w.clone() };
                Ask::Detail { word: w }
            },
            None => {
                self.inform(Tone::Warning, owned("That Word could not be read back."));
                Ask::Nothing
            },
        }
    }

    /// Carry on with what the caller came back with.
    ///
    /// An answer that is not the one asked for abandons the step.
    pub fn answer(&mut self, answer: Answer) -> (ask: Ask)
        ensures
            final(self).waiting_of() is Idle ==> ask is Nothing,
            match (old(self).waiting_of(), answer) {
                (Waiting::StartCapture { spelling }, Answer::Context { book, word }) => match book {
                    None => told(*old(self), *final(self), Tone::Warning, "No Book yet — set one with /book <name> so captures have a source."@)
                        && final(self).input_of() == old(self).input_of() && ask is Nothing,
                    Some(_) => match word {
                        Some(w) => ask == (Ask::Detail { word: w }) && final(self).waiting_of() == (Waiting::AlreadyHave { spelling, word: w }),
                        None => final(self).prompt_of() == (Prompt::Sentence { spelling }) && ask is Nothing,
                    },
                },
                (Waiting::AlreadyHave { spelling, word }, Answer::Detail { senses, sightings }) => {
                    &&& shows_word(*final(self), word, senses@, sightings@, Origin::Home, 0)
                    &&& final(self).prompt_of() == (Prompt::AnotherSighting { spelling })
                    &&& final(self).message_of() matches Some(m) && m.tone == Tone::Info && m.text@ == already_have_text(spelling@)
                    &&& ask is Nothing
                },
                (Waiting::Capture { spelling, sentence }, Answer::Book(b)) => match b {
                    None => told(*old(self), *final(self), Tone::Warning, "No Book set — nothing was saved."@)
                        && final(self).input_of() == old(self).input_of() && ask is Nothing,
                    Some(book) => ask == (Ask::Record { spelling, book_id: book.id, sentence }) && final(self).waiting_of() == (Waiting::Record { book }),
                },
                (Waiting::Record { book }, Answer::Recorded { captured, corpus, word }) => {
                    &&& final(self).corpus_of() == corpus@
                    &&& old(self).notes_on_of() ==> ask == (Ask::WriteNote { sighting_id: captured.sighting_id })
                        && final(self).waiting_of() == (Waiting::NoteAsked { book, word })
                    &&& !old(self).notes_on_of() ==> match word {
                        Some(w) => ask == (Ask::Detail { word: w }) && final(self).waiting_of() == (Waiting::Captured { book, word: w }),
                        None => (final(self).message_of() matches Some(m) && m.tone == Tone::Warning
                            && m.text@ == "That Word could not be read back."@) && ask is Nothing,
                    }
                },
                (Waiting::NoteAsked { book, word }, Answer::Done) => match word {
                    Some(w) => ask == (Ask::Detail { word: w }) && final(self).waiting_of() == (Waiting::Captured { book, word: w }),
                    None => told(*old(self), *final(self), Tone::Warning, "That Word could not be read back."@)
                        && ask is Nothing,
                },
                (Waiting::Captured { book, word }, Answer::Detail { senses, sightings }) => {
                    &&& shows_word(*final(self), word, senses@, sightings@, Origin::Home, 0)
                    &&& final(self).message_of() matches Some(m) && m.tone == Tone::Info && m.text@ == captured_text(book.name@, senses@.len() > 0)
                    &&& ask is Nothing
                },
                (Waiting::Switch { name }, Answer::Book(b)) => match b {
                    Some(book) => ask == (Ask::SetCurrentBook { book_id: book.id }) && final(self).waiting_of() == (Waiting::Switched { name: book.name }),
                    None => final(self).prompt_of() == (Prompt::AddBook { name }) && ask is Nothing,
                },
                (Waiting::Switched { name }, Answer::Done) => {
                    &&& final(self).message_of() matches Some(m) && m.tone == Tone::Info && m.text@ == "Now reading "@ + name@ + "."@
                    &&& final(self).screen_of() is Home
                    &&& final(self).input_of().len() == 0
                    &&& ask is Nothing
                },
                (Waiting::Adding { name }, Answer::BookId(id)) => ask == (Ask::SetCurrentBook { book_id: id })
                    && final(self).waiting_of() == (Waiting::Switched { name }),
                (Waiting::ShowLibrary, Answer::Books(books)) => final(self).screen_of() == (Screen::Library { books, selected: 0 }) && ask is Nothing,
                (Waiting::BackToLibrary, Answer::Books(books)) => final(self).screen_of() == (Screen::Library { books, selected: 0 }) && ask is Nothing,
                (Waiting::BackToLibrary, Answer::Failed) => final(self).screen_of() is Home && ask is Nothing,
                (Waiting::Open { origin }, Answer::Word(w)) => match w {
                    Some(word) => ask == (Ask::Detail { word }) && final(self).input_of().len() == 0
                        && final(self).waiting_of() == (Waiting::Show { word, origin, selected: 0 }),
                    None => ask is Nothing,
                },
                (Waiting::Show { word, origin, selected }, Answer::Detail { senses, sightings }) =>
                    shows_word(*final(self), word, senses@, sightings@, origin, selected) && ask is Nothing,
                (Waiting::Explained { word, origin, selected }, Answer::Done) => ask == (Ask::Detail { word })
                    && final(self).waiting_of() == (Waiting::Show { word, origin, selected }),
                (Waiting::Syncing, Answer::Pushing(n)) => if n == 0 {
                    (final(self).message_of() matches Some(m) && m.tone == Tone::Info && m.text@ == "Nothing to sync."@)
                        && !final(self).syncing_of() == !old(self).syncing_of() && ask is Nothing
                } else {
                    final(self).syncing_of() && ask is Nothing
                        && (final(self).message_of() matches Some(m) && m.tone == Tone::Info && m.text@ == syncing_text(n as nat))
                },
                (Waiting::Correcting { sighting_id, word, origin, selected }, Answer::Corpus(c)) => {
                    &&& final(self).corpus_of() == c@
                    &&& final(self).message_of() matches Some(m) && m.tone == Tone::Info
                        && m.text@ == "Sentence corrected."@
                    &&& old(self).notes_on_of() ==> ask == (Ask::WriteNote { sighting_id })
                        && final(self).waiting_of() == (Waiting::Explained { word, origin, selected })
                    &&& !old(self).notes_on_of() ==> ask == (Ask::Detail { word })
                        && final(self).waiting_of() == (Waiting::Show { word, origin, selected })
                },
                (Waiting::Recorrected, Answer::Corpus(c)) => final(self).corpus_of() == c@ && ask is Nothing,
                (Waiting::Removing { spelling, origin }, Answer::Corpus(c)) => {
                    &&& final(self).corpus_of() == c@
                    &&& final(self).message_of() matches Some(m) && m.tone == Tone::Info
                        && m.text@ == "Removed \""@ + spelling@ + "\"."@
                    &&& match origin {
                        Origin::Search { query } => ask is Nothing && ({
                            let q = trimmed(query@);
                            q.len() > 0 && !begins_with(q, "/"@) ==> (final(self).screen_of() matches Screen::Search {
                                results,
                                selected,
                            } && selected == 0 && found_of(results@) == search_results(views(c@), query@))
                        }),
                        Origin::Library => ask is Books && final(self).waiting_of() is BackToLibrary,
                        Origin::Home => ask is Nothing && final(self).screen_of() is Home,
                    }
                },
                _ => ask is Nothing && final(self).waiting_of() is Idle,
            },
    {
        let waiting = self.take_waiting();
        match (waiting, answer) {
            (Waiting::StartCapture { spelling }, Answer::Context { book, word }) => {
                match book {
                    None => {
                        self.inform(
                            Tone::Warning,
                            owned("No Book yet — set one with /book <name> so captures have a source."),
                        );
                        Ask::Nothing
                    },
                    Some(_) => match word {
                        Some(w) => {
                            self.waiting = Waiting::AlreadyHave { spelling, word: w.clone() };
                            Ask::Detail { word: w }
                        },
                        None => {
                            self.prompt = Prompt::Sentence { spelling };
                            Ask::Nothing
                        },
                    },
                }
            },
            (Waiting::AlreadyHave { spelling, word }, Answer::Detail { senses, sightings }) => {
                self.show_word(word, senses, sightings, Origin::Home, 0);
                let text = framed("You already have \"", spelling.as_str(), "\" — here is where you met it.");
                self.prompt = Prompt::AnotherSighting { spelling };
                self.inform(Tone::Info, text);
                Ask::Nothing
            },
            (Waiting::Capture { spelling, sentence }, Answer::Book(b)) => {
                match b {
                    None => {
                        self.inform(Tone::Warning, owned("No Book set — nothing was saved."));
                        Ask::Nothing
                    },
                    Some(book) => {
                        let book_id = book.id;
                        self.waiting = Waiting::Record { book };
                        Ask::Record { spelling, book_id, sentence }
                    },
                }
            },
            (Waiting::Record { book }, Answer::Recorded { captured, corpus, word }) => {
                self.corpus = corpus;
                if self.notes_on {
                    self.waiting = Waiting::NoteAsked { book, word };
                    Ask::WriteNote { sighting_id: captured.sighting_id }
                } else {
                    self.after_note(book, word)
                }
            },
            (Waiting::NoteAsked { book, word }, Answer::Done) => self.after_note(book, word),
            (Waiting::Captured { book, word }, Answer::Detail { senses, sightings }) => {
                let found = senses.len() > 0;
                self.show_word(word, senses, sightings, Origin::Home, 0);
                let text = if found {
                    framed("Captured from ", book.name.as_str(), ".")
                } else {
                    framed(
                        "Captured from ",
                        book.name.as_str(),
                        " — no definition, but the Sighting is kept.",
                    )
                };
                self.inform(Tone::Info, text);
                Ask::Nothing
            },
            (Waiting::Switch { name }, Answer::Book(b)) => {
                match b {
                    Some(book) => {
                        let book_id = book.id;
                        self.waiting = Waiting::Switched { name: book.name };
                        Ask::SetCurrentBook { book_id }
                    },
                    None => {
                        self.prompt = Prompt::AddBook { name };
                        Ask::Nothing
                    },
                }
            },
            (Waiting::Switched { name }, Answer::Done) => {
                let text = framed("Now reading ", name.as_str(), ".");
                self.inform(Tone::Info, text);
                self.go_home();
                Ask::Nothing
            },
            (Waiting::Adding { name }, Answer::BookId(id)) => {
                self.waiting = Waiting::Switched { name };
                Ask::SetCurrentBook { book_id: id }
            },
            (Waiting::ShowLibrary, Answer::Books(books)) => {
                self.screen = Screen::Library { books, selected: 0 };
                Ask::Nothing
            },
            (Waiting::BackToLibrary, Answer::Books(books)) => {
                self.screen = Screen::Library { books, selected: 0 };
                Ask::Nothing
            },
            (Waiting::BackToLibrary, Answer::Failed) => {
                self.go_home();
                Ask::Nothing
            },
            (Waiting::Open { origin }, Answer::Word(w)) => {
                match w {
                    Some(word) => {
                        self.input = String::new();
                        self.waiting = Waiting::Show { word: word.clone(), origin, selected: 0 };
                        Ask::Detail { word }
                    },
                    None => Ask::Nothing,
                }
            },
            (Waiting::Show { word, origin, selected }, Answer::Detail { senses, sightings }) => {
                self.show_word(word, senses, sightings, origin, selected);
                Ask::Nothing
            },
            (Waiting::Explained { word, origin, selected }, Answer::Done) => {
                self.waiting = Waiting::Show { word: word.clone(), origin, selected };
                Ask::Detail { word }
            },
            (Waiting::Syncing, Answer::Pushing(n)) => {
                if n == 0 {
                    self.inform(Tone::Info, owned("Nothing to sync."));
                } else {
                    self.syncing = true;
                    self.progress = SyncProgress::start(n);
                    let mut text = owned("Syncing ");
                    push_decimal(&mut text, n as u64);
                    text.append(" ");
                    let noun = plural(n, "Word");
                    text.append(noun.as_str());
                    text.append(" to Anki…");
                    self.inform(Tone::Info, text);
                }
                Ask::Nothing
            },
            (Waiting::Correcting { sighting_id, word, origin, selected }, Answer::Corpus(c)) => {
                self.corpus = c;
                self.inform(Tone::Info, owned("Sentence corrected."));
                if self.notes_on {
                    self.waiting = Waiting::Explained { word, origin, selected };
                    Ask::WriteNote { sighting_id }
                } else {
                    self.waiting = Waiting::Show { word: word.clone(), origin, selected };
                    Ask::Detail { word }
                }
            },
            (Waiting::Recorrected, Answer::Corpus(c)) => {
                self.corpus = c;
                Ask::Nothing
            },
            (Waiting::Removing { spelling, origin }, Answer::Corpus(c)) => {
                self.corpus = c;
                self.prompt = Prompt::Plain;
                let ask = self.return_to(origin);
                let text = framed("Removed \"", spelling.as_str(), "\".");
                self.inform(Tone::Info, text);
                ask
            },
            _ => Ask::Nothing,
        }
    }
}

impl App {
    /// Take what came back from the cards pushed and deleted, and hand back
    /// the pushes that landed, so each Word can be marked synced, and the
    /// notes deleted, so they leave the queue.
    ///
    /// `rest_abandoned` says the caller has stopped waiting: whatever has not
    /// answered by now stays queued. Once every card is accounted for, the
    /// reader is told how the sync went — and it is what is said on the way
    /// out, too.
    pub fn pushes_returned(&mut self, outcomes: Vec<CardOutcome>, deletions: Vec<Deletion>, rest_abandoned: bool) -> (landed: (Vec<Synced>, Vec<i64>))
        ensures
            landed.0@ == synced_of(outcomes@),
            landed.1@ == deleted_of(deletions@),
            !old(self).syncing_of() ==> unchanged(*old(self), *final(self)),
            old(self).syncing_of() ==> {
                let f0 = old(self).progress_of().in_flight_of();
                let pushed = tally_upto(old(self).progress_of().tally_of(), outcomes@, f0);
                let f1: nat = if outcomes@.len() < f0 { (f0 - outcomes@.len()) as nat } else { 0 };
                let counted = deletions_upto(pushed, deletions@, f1);
                let left: nat = if deletions@.len() < f1 { (f1 - deletions@.len()) as nat } else { 0 };
                let t = if rest_abandoned {
                    SyncTally { unanswered: (counted.unanswered + left) as usize, ..counted }
                } else {
                    counted
                };
                &&& final(self).progress_of().tally_of() == t
                &&& final(self).syncing_of() == (!rest_abandoned && left > 0)
                &&& !final(self).syncing_of() ==> final(self).farewell_of() == Some(report_text(t))
                    && (final(self).message_of() matches Some(m) && m.text@ == report_text(t)
                        && m.tone == (if t.unavailable + t.refused + t.unanswered > 0 { Tone::Warning } else { Tone::Info }))
                &&& final(self).screen_of() == old(self).screen_of()
                &&& final(self).input_of() == old(self).input_of()
                &&& final(self).prompt_of() == old(self).prompt_of()
                &&& final(self).corpus_of() == old(self).corpus_of()
            },
    {
        let (_, landed) = tally(&outcomes, outcomes.len());
        let gone = deleted_notes(&deletions);
        if !self.syncing {
            return (landed, gone);
        }
        self.progress.count(&outcomes);
        self.progress.count_deletions(&deletions);
        if rest_abandoned {
            self.progress.abandon();
        }
        if self.progress.finished() {
            let text = self.progress.report();
            let tone = if self.progress.any_queued() {
                Tone::Warning
            } else {
                Tone::Info
            };
            self.farewell = Some(text.clone());
            self.message = Some(Message { text, tone });
            self.syncing = false;
        }
        (landed, gone)
    }

    /// Leave: push what changed on the way out, unless `/quit now` asked not
    /// to, the configuration turned it off, or a sync is already under way.
    ///
    /// Whatever the last sync said is forgotten first, so leaving without one
    /// never claims credit for it.
    pub fn start_leaving(&mut self) -> (ask: Ask)
        ensures
            final(self).farewell_of() is None,
            (old(self).quit_now_of() || !old(self).sync_on_exit_of() || old(self).syncing_of()) ==> ask is Nothing,
            !(old(self).quit_now_of() || !old(self).sync_on_exit_of() || old(self).syncing_of()) ==> ask is Sync
                && final(self).waiting_of() is Syncing,
            final(self).screen_of() == old(self).screen_of(),
            final(self).syncing_of() == old(self).syncing_of(),
    {
        self.farewell = None;
        self.waiting = Waiting::Idle;
        if self.quit_now || !self.config.sync_on_exit || self.syncing {
            return Ask::Nothing;
        }
        self.waiting = Waiting::Syncing;
        Ask::Sync
    }

    /// Notes for the Sightings `sighting_ids` have been filed: if the Word
    /// screen is showing one of them, read it again so the Note appears where
    /// the reader already is.
    pub fn notes_filed(&mut self, sighting_ids: &Vec<i64>) -> (ask: Ask)
        ensures
            match old(self).screen_of() {
                Screen::Word(v) if old(self).waiting_of() is Idle && exists|i: int, j: int|
                    0 <= i < v.sightings@.len() && 0 <= j < sighting_ids@.len()
                        && v.sightings@[i].id == sighting_ids@[j] => {
                    &&& ask == (Ask::Detail { word: v.word })
                    &&& final(self).waiting_of() == (Waiting::Show { word: v.word, origin: v.origin, selected: v.selected })
                    &&& final(self).screen_of() == old(self).screen_of()
                },
                _ => unchanged(*old(self), *final(self)) && ask is Nothing,
            },
    {
        let idle = match self.waiting {
            Waiting::Idle => true,
            _ => false,
        };
        if !idle {
            return Ask::Nothing;
        }
        let target = match &self.screen {
            Screen::Word(view) => {
                let shown = holds_any_of(&view.sightings, sighting_ids);
                if shown {
                    Some((view.word.clone(), view.origin.clone(), view.selected))
                } else {
                    None
                }
            },
            _ => None,
        };
        match target {
            Some((word, origin, selected)) => {
                self.waiting = Waiting::Show { word: word.clone(), origin, selected };
                Ask::Detail { word }
            },
            None => Ask::Nothing,
        }
    }
}

/// Whether one of `sightings` carries an id listed in `ids`.
fn holds_any_of(sightings: &Vec<Sighting>, ids: &Vec<i64>) -> (found: bool)
    ensures
        found == exists|i: int, j: int|
            0 <= i < sightings@.len() && 0 <= j < ids@.len() && sightings@[i].id == ids@[j],
{
    let mut i: usize = 0;
    while i < sightings.len()
        invariant
            0 <= i <= sightings@.len(),
            forall|a: int, b: int|
                0 <= a < i && 0 <= b < ids@.len() ==> sightings@[a].id != ids@[b],
        decreases sightings@.len() - i,
    {
        let mut j: usize = 0;
        while j < ids.len()
            invariant
                0 <= j <= ids@.len(),
                i < sightings@.len(),
                forall|b: int| 0 <= b < j ==> sightings@[i as int].id != ids@[b],
            decreases ids@.len() - j,
        {
            if sightings[i].id == ids[j] {
                return true;
            }
            j = j + 1;
        }
        i = i + 1;
    }
    false
}

} // verus!
