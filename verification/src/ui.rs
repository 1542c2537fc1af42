//! What each Screen says: the text of every line, and how it is to look.
//!
//! Each Screen wholly replaces the last, and the input line is present on all
//! of them. Drawing onto a terminal is left to the caller; this module decides
//! the words, their order and their emphasis, line by line.
use vstd::prelude::*;

use crate::app::{
    argument_hint, command_table, commands, help_table, hint_for, prompt_label, Message, Origin,
    Prompt, Screen, Tone, WordView,
};
use crate::domain::{date_text, Book, NoteState, Sense, Sighting};
use crate::search::{found_of, Found, MatchField, SearchResult};
use crate::text::{chars_of, decimal, joined, owned, push_decimal, push_repeat, repeat, trimmed, trimmed_chars, string_of};

verus! {

/// `noun`, with an `s` unless there is exactly one.
pub open spec fn plural_text(count: nat, noun: Seq<char>) -> Seq<char> {
    if count == 1 {
        noun
    } else {
        noun.push('s')
    }
}

pub fn plural(count: usize, noun: &str) -> (s: String)
    ensures
        s@ == plural_text(count as nat, noun@),
{
    let mut s = String::from_str(noun);
    if count != 1 {
        s.push('s');
    }
    s
}

// -- Lines and spans -----------------------------------------------------------

/// How a piece of text is to look.
#[derive(Debug, Clone, Copy, PartialEq, Eq)]
pub enum Look {
    /// The splash art on the opening screen.
    Splash,
    /// Secondary text: hints, dates, tags.
    Dim,
    /// The heading of a Screen or of a section.
    Heading,
    /// Text that is there to be read.
    Bright,
    /// The chosen row of a list.
    Chosen,
    /// Every other row of a list.
    Unchosen,
    /// A Word's spelling at the head of its Screen.
    Title,
    /// Something missing, or something to act on.
    Warning,
    /// The Book a Sighting was met in.
    BookName,
    /// The label in front of a Note.
    NoteLabel,
    /// A Note that was written.
    NoteBody,
    /// A command as `/help` lists it.
    CommandName,
    /// A message that went well.
    Info,
    /// The question a prompt asks, at the head of the input line.
    PromptLabel,
    /// The marker at the head of the ordinary input line.
    Cursor,
}

/// A run of text that looks one way.
#[derive(Debug)]
pub struct Span {
    pub text: String,
    pub look: Look,
}

impl View for Span {
    type V = (Seq<char>, Look);

    open spec fn view(&self) -> (Seq<char>, Look) {
        (self.text@, self.look)
    }
}

/// One line of a Screen. A line with no spans is an empty line.
#[derive(Debug)]
pub struct Line {
    pub spans: Vec<Span>,
}

impl View for Line {
    type V = Seq<(Seq<char>, Look)>;

    open spec fn view(&self) -> Seq<(Seq<char>, Look)> {
        self.spans@.map_values(|s: Span| s@)
    }
}

/// The lines, each as its text and looks.
pub open spec fn shown(lines: Seq<Line>) -> Seq<Seq<(Seq<char>, Look)>> {
    lines.map_values(|l: Line| l@)
}

/// An empty line.
pub open spec fn gap() -> Seq<(Seq<char>, Look)> {
    Seq::empty()
}

/// A line of one span.
pub open spec fn single(text: Seq<char>, look: Look) -> Seq<(Seq<char>, Look)> {
    seq![(text, look)]
}

fn blank() -> (l: Line)
    ensures
        l@ == gap(),
{
    let l = Line { spans: Vec::new() };
    assert(l@ =~= gap());
    l
}

fn add_span(line: &mut Line, text: String, look: Look)
    ensures
        final(line)@ == old(line)@.push((text@, look)),
{
    let ghost t = text@;
    line.spans.push(Span { text, look });
    assert(line@ =~= old(line)@.push((t, look)));
}

fn text_line(text: String, look: Look) -> (l: Line)
    ensures
        l@ == single(text@, look),
{
    let mut l = blank();
    add_span(&mut l, text, look);
    assert(l@ =~= single(text@, look));
    l
}

fn add_line(lines: &mut Vec<Line>, line: Line)
    ensures
        shown(final(lines)@) == shown(old(lines)@).push(line@),
{
    let ghost l = line@;
    lines.push(line);
    assert(shown(lines@) =~= shown(old(lines)@).push(l));
}

/// `s`, padded on the right with spaces to `width` characters.
pub open spec fn padded_right(s: Seq<char>, width: nat) -> Seq<char> {
    if s.len() < width {
        s + repeat(' ', (width - s.len()) as nat)
    } else {
        s
    }
}

/// `s`, padded on the left with spaces to `width` characters.
pub open spec fn padded_left(s: Seq<char>, width: nat) -> Seq<char> {
    if s.len() < width {
        repeat(' ', (width - s.len()) as nat) + s
    } else {
        s
    }
}

/// `s` padded on the right with spaces to `width` characters.
pub fn pad_right(s: &str, width: usize) -> (r: String)
    ensures
        r@ == padded_right(s@, width as nat),
{
    let n = chars_of(s).len();
    let mut r = owned(s);
    if n < width {
        push_repeat(&mut r, ' ', width - n);
    }
    r
}

/// `s` padded on the left with spaces to `width` characters.
fn pad_left(s: String, width: usize) -> (r: String)
    ensures
        r@ == padded_left(s@, width as nat),
{
    let n = chars_of(s.as_str()).len();
    if n < width {
        let mut r = String::new();
        push_repeat(&mut r, ' ', width - n);
        r.append(s.as_str());
        r
    } else {
        s
    }
}

/// The marker in front of a row: an arrow for the chosen one.
pub open spec fn marker(chosen: bool) -> Seq<char> {
    if chosen {
        "›"@
    } else {
        " "@
    }
}

pub open spec fn row_look(chosen: bool) -> Look {
    if chosen {
        Look::Chosen
    } else {
        Look::Unchosen
    }
}

fn marker_of(chosen: bool) -> (s: String)
    ensures
        s@ == marker(chosen),
{
    if chosen {
        owned("›")
    } else {
        owned(" ")
    }
}

fn row_look_of(chosen: bool) -> (l: Look)
    ensures
        l == row_look(chosen),
{
    if chosen {
        Look::Chosen
    } else {
        Look::Unchosen
    }
}

// -- Home --------------------------------------------------------------------------

pub open spec fn splash_art() -> Seq<Seq<char>> {
    seq![
        "██╗   ██╗ ██████╗  ██████╗ █████╗ ██████╗ "@,
        "██║   ██║██╔═══██╗██╔════╝██╔══██╗██╔══██╗"@,
        "██║   ██║██║   ██║██║     ███████║██████╔╝"@,
        "╚██╗ ██╔╝██║   ██║██║     ██╔══██║██╔══██╗"@,
        " ╚████╔╝ ╚██████╔╝╚██████╗██║  ██║██████╔╝"@,
        "  ╚═══╝   ╚═════╝  ╚═════╝╚═╝  ╚═╝╚═════╝ "@,
    ]
}

/// What the opening screen says of the Current Book.
pub open spec fn reading_line(current: Option<Seq<char>>) -> Seq<(Seq<char>, Look)> {
    match current {
        Some(name) => seq![("Reading  "@, Look::Dim), (name, Look::Bright)],
        None => single("No Book yet — set one with /book <name>"@, Look::Warning),
    }
}

/// The opening screen, given the name of the Current Book if there is one.
pub open spec fn home_screen(current: Option<Seq<char>>) -> Seq<Seq<(Seq<char>, Look)>> {
    splash_art().map_values(|art: Seq<char>| single(art, Look::Splash)) + seq![
        gap(),
        reading_line(current),
        gap(),
        single(
            "Type to search everything you've captured  ·  /add <word> to capture  ·  /help"@,
            Look::Dim,
        ),
    ]
}

/// The opening screen: the splash, the Current Book, and where to start.
pub fn home_lines(current: Option<&Book>) -> (lines: Vec<Line>)
    ensures
        shown(lines@) == home_screen(
            match current {
                Some(b) => Some(b.name@),
                None => None,
            },
        ),
{
    let mut lines: Vec<Line> = Vec::new();
    add_line(&mut lines, text_line(owned("██╗   ██╗ ██████╗  ██████╗ █████╗ ██████╗ "), Look::Splash));
    add_line(&mut lines, text_line(owned("██║   ██║██╔═══██╗██╔════╝██╔══██╗██╔══██╗"), Look::Splash));
    add_line(&mut lines, text_line(owned("██║   ██║██║   ██║██║     ███████║██████╔╝"), Look::Splash));
    add_line(&mut lines, text_line(owned("╚██╗ ██╔╝██║   ██║██║     ██╔══██║██╔══██╗"), Look::Splash));
    add_line(&mut lines, text_line(owned(" ╚████╔╝ ╚██████╔╝╚██████╗██║  ██║██████╔╝"), Look::Splash));
    add_line(&mut lines, text_line(owned("  ╚═══╝   ╚═════╝  ╚═════╝╚═╝  ╚═╝╚═════╝ "), Look::Splash));
    add_line(&mut lines, blank());
    let ghost current_name = match current {
        Some(b) => Some(b.name@),
        None => None,
    };
    let reading = match current {
        Some(book) => {
            let mut l = blank();
            add_span(&mut l, owned("Reading  "), Look::Dim);
            add_span(&mut l, book.name.clone(), Look::Bright);
            l
        },
        None => text_line(owned("No Book yet — set one with /book <name>"), Look::Warning),
    };
    assert(reading@ =~= reading_line(current_name));
    add_line(&mut lines, reading);
    add_line(&mut lines, blank());
    add_line(
        &mut lines,
        text_line(
            owned("Type to search everything you've captured  ·  /add <word> to capture  ·  /help"),
            Look::Dim,
        ),
    );
    assert(shown(lines@) =~= home_screen(current_name));
    lines
}

// -- Search ----------------------------------------------------------------------

/// The longest spelling among `rs`, in characters.
pub open spec fn widest_spelling(rs: Seq<Found>) -> nat
    decreases rs.len(),
{
    if rs.len() == 0 {
        0
    } else {
        let w = widest_spelling(rs.drop_last());
        let l = rs.last().spelling.len();
        if w < l {
            l
        } else {
            w
        }
    }
}

/// One result: the marker, the spelling, the field it matched on, and the
/// text that matched when that was not the spelling.
pub open spec fn result_line(r: Found, chosen: bool, width: nat) -> Seq<(Seq<char>, Look)> {
    seq![
        (marker(chosen) + " "@, row_look(chosen)),
        (padded_right(r.spelling, width) + "  "@, row_look(chosen)),
        (padded_right(r.field.label_text(), 9), Look::Dim),
    ] + match r.context {
        Some(c) => single("  "@ + c, Look::Dim),
        None => gap(),
    }
}

pub open spec fn result_rows(rs: Seq<Found>, selected: int, width: nat) -> Seq<
    Seq<(Seq<char>, Look)>,
> {
    Seq::new(rs.len(), |i: int| result_line(rs[i], i == selected, width))
}

/// The search screen for the trimmed `query`.
pub open spec fn search_screen(query: Seq<char>, rs: Seq<Found>, selected: int) -> Seq<
    Seq<(Seq<char>, Look)>,
> {
    if rs.len() == 0 {
        seq![
            single("Nothing matches \""@ + query + "\""@, Look::Heading),
            gap(),
            single("You have never captured this one."@, Look::Bright),
        ]
    } else {
        let w = widest_spelling(rs);
        let width: nat = if w < 12 {
            12
        } else {
            w
        };
        seq![
            single(decimal(rs.len()) + " matching "@ + plural_text(rs.len(), "Word"@), Look::Heading),
            gap(),
        ] + result_rows(rs, selected, width) + seq![
            gap(),
            single("↑↓ to choose  ·  Enter to open"@, Look::Dim),
        ]
    }
}

fn result_row(r: &SearchResult, chosen: bool, width: usize) -> (l: Line)
    ensures
        l@ == result_line(r@, chosen, width as nat),
{
    let look = row_look_of(chosen);
    let mut l = blank();
    let mut m = marker_of(chosen);
    m.append(" ");
    add_span(&mut l, m, look);
    let mut s = pad_right(r.spelling.as_str(), width);
    s.append("  ");
    add_span(&mut l, s, look);
    add_span(&mut l, pad_right(r.field.label(), 9), Look::Dim);
    match &r.context {
        Some(c) => {
            add_span(&mut l, joined("  ", c.as_str()), Look::Dim);
        },
        None => {},
    }
    assert(l@ =~= result_line(r@, chosen, width as nat));
    l
}

/// The search screen: how many Words match the trimmed `query`, then one row
/// for each, the chosen one marked.
pub fn search_lines(query: &str, results: &Vec<SearchResult>, selected: usize) -> (lines: Vec<
    Line,
>)
    ensures
        shown(lines@) == search_screen(trimmed(query@), found_of(results@), selected as int),
{
    let ghost rs = found_of(results@);
    let mut lines: Vec<Line> = Vec::new();
    if results.len() == 0 {
        let q = string_of(&trimmed_chars(query));
        let mut head = joined("Nothing matches \"", q.as_str());
        head.append("\"");
        add_line(&mut lines, text_line(head, Look::Heading));
        add_line(&mut lines, blank());
        add_line(&mut lines, text_line(owned("You have never captured this one."), Look::Bright));
        assert(shown(lines@) =~= search_screen(trimmed(query@), rs, selected as int));
        return lines;
    }
    let mut width: usize = 0;
    let mut i: usize = 0;
    while i < results.len()
        invariant
            0 <= i <= results@.len(),
            rs == found_of(results@),
            width == widest_spelling(rs.take(i as int)),
        decreases results@.len() - i,
    {
        assert(rs.take(i + 1).drop_last() =~= rs.take(i as int));
        let n = chars_of(results[i].spelling.as_str()).len();
        if width < n {
            width = n;
        }
        i = i + 1;
    }
    assert(rs.take(results@.len() as int) =~= rs);
    if width < 12 {
        width = 12;
    }
    let mut head = String::new();
    push_decimal(&mut head, results.len() as u64);
    head.append(" matching ");
    head.append(plural(results.len(), "Word").as_str());
    add_line(&mut lines, text_line(head, Look::Heading));
    add_line(&mut lines, blank());
    let ghost top = shown(lines@);
    let mut k: usize = 0;
    while k < results.len()
        invariant
            0 <= k <= results@.len(),
            rs == found_of(results@),
            shown(lines@) == top + Seq::new(
                k as nat,
                |j: int| result_line(rs[j], j == selected, width as nat),
            ),
        decreases results@.len() - k,
    {
        let row = result_row(&results[k], k == selected, width);
        add_line(&mut lines, row);
        assert(Seq::new((k + 1) as nat, |j: int| result_line(rs[j], j == selected, width as nat))
            =~= Seq::new(k as nat, |j: int| result_line(rs[j], j == selected, width as nat)).push(
            result_line(rs[k as int], k == selected, width as nat),
        ));
        k = k + 1;
    }
    assert(Seq::new(results@.len(), |j: int| result_line(rs[j], j == selected, width as nat))
        =~= result_rows(rs, selected as int, width as nat));
    add_line(&mut lines, blank());
    add_line(&mut lines, text_line(owned("↑↓ to choose  ·  Enter to open"), Look::Dim));
    assert(shown(lines@) =~= search_screen(trimmed(query@), rs, selected as int));
    lines
}

// -- A Word --------------------------------------------------------------------------

/// One Sense, after its part of speech.
pub open spec fn sense_line(d: Sense) -> Seq<(Seq<char>, Look)> {
    seq![("("@ + d.part_of_speech@ + ") "@, Look::Dim), (d.definition@, Look::Bright)]
}

/// A Note as it reads beside its Sighting: the text of one that was written,
/// a word on one that could not be, and otherwise that it is still to come.
pub open spec fn note_body(s: Sighting) -> (Seq<char>, Look) {
    if s.note_state == NoteState::Ready && s.note is Some {
        (s.note->0@, Look::NoteBody)
    } else if s.note_state == NoteState::Failed {
        ("couldn't be written — /explain to ask again"@, Look::Warning)
    } else {
        ("pending…"@, Look::Dim)
    }
}

/// The Note for one Sighting, labelled so it reads as a second opinion rather
/// than as part of the Definition, and never as an empty space.
pub open spec fn note_text(s: Sighting) -> Seq<(Seq<char>, Look)> {
    seq![("  Note  "@, Look::NoteLabel), note_body(s)]
}

/// One Sighting: a gap, its date and Book, its sentence, and its Note.
pub open spec fn sighting_rows(s: Sighting, chosen: bool) -> Seq<Seq<(Seq<char>, Look)>> {
    seq![
        gap(),
        seq![
            (if chosen {
                "› "@
            } else {
                "  "@
            }, Look::Bright),
            (date_text(s.captured_at), Look::Dim),
            ("  ·  "@, Look::Dim),
            (s.book_name@, Look::BookName),
        ],
        single("  "@ + s.sentence@, Look::Bright),
        note_text(s),
    ]
}

/// Every Sighting in `ss`, in order, the one at `selected` marked.
pub open spec fn sightings_rows(ss: Seq<Sighting>, selected: int) -> Seq<Seq<(Seq<char>, Look)>>
    decreases ss.len(),
{
    if ss.len() == 0 {
        Seq::empty()
    } else {
        sightings_rows(ss.drop_last(), selected) + sighting_rows(
            ss.last(),
            ss.len() - 1 == selected,
        )
    }
}

/// How to leave a Word screen, which depends on where it was opened from.
pub open spec fn way_back(o: Origin) -> Seq<char> {
    match o {
        Origin::Search { .. } => "Esc to go back to your search"@,
        _ => "Esc to go back"@,
    }
}

/// A Word: its spelling, every Sense, and every Sighting with its Note.
pub open spec fn word_screen(v: WordView) -> Seq<Seq<(Seq<char>, Look)>> {
    let n = v.sightings@.len();
    seq![single(v.word.spelling@, Look::Title), gap()] + (if v.senses@.len() == 0 {
        seq![
            single(
                "No definition — the bundled dictionary doesn't have this one."@,
                Look::Warning,
            ),
        ]
    } else {
        v.senses@.map_values(|d: Sense| sense_line(d))
    }) + seq![gap(), single(decimal(n) + " "@ + plural_text(n, "Sighting"@), Look::Heading)]
        + sightings_rows(v.sightings@, v.selected as int) + seq![
        gap(),
        single(
            "↑↓ to choose a Sighting  ·  /explain rewrites its Note  ·  /edit corrects its sentence  ·  /remove this Word  ·  "@ + way_back(v.origin),
            Look::Dim,
        ),
    ]
}

fn note_row(s: &Sighting) -> (l: Line)
    ensures
        l@ == note_text(*s),
{
    let mut l = blank();
    add_span(&mut l, owned("  Note  "), Look::NoteLabel);
    match (&s.note_state, &s.note) {
        (NoteState::Ready, Some(note)) => {
            add_span(&mut l, note.clone(), Look::NoteBody);
        },
        (NoteState::Failed, _) => {
            add_span(&mut l, owned("couldn't be written — /explain to ask again"), Look::Warning);
        },
        _ => {
            add_span(&mut l, owned("pending…"), Look::Dim);
        },
    }
    assert(l@ =~= note_text(*s));
    l
}

fn add_sighting(lines: &mut Vec<Line>, s: &Sighting, chosen: bool)
    ensures
        shown(final(lines)@) == shown(old(lines)@) + sighting_rows(*s, chosen),
{
    add_line(lines, blank());
    let mut l = blank();
    add_span(
        &mut l,
        if chosen {
            owned("› ")
        } else {
            owned("  ")
        },
        Look::Bright,
    );
    add_span(&mut l, s.captured_on(), Look::Dim);
    add_span(&mut l, owned("  ·  "), Look::Dim);
    add_span(&mut l, s.book_name.clone(), Look::BookName);
    assert(l@ =~= sighting_rows(*s, chosen)[1]);
    add_line(lines, l);
    let sentence = text_line(joined("  ", s.sentence.as_str()), Look::Bright);
    assert(sentence@ =~= sighting_rows(*s, chosen)[2]);
    add_line(lines, sentence);
    let note = note_row(s);
    assert(note@ =~= sighting_rows(*s, chosen)[3]);
    add_line(lines, note);
    assert(shown(lines@) =~= shown(old(lines)@) + sighting_rows(*s, chosen));
}

/// A Word's Screen: its spelling, its Senses (or a plain word that there are
/// none), its Sightings with their Notes, and how to leave.
pub fn word_lines(view: &WordView) -> (lines: Vec<Line>)
    ensures
        shown(lines@) == word_screen(*view),
{
    let mut lines: Vec<Line> = Vec::new();
    add_line(&mut lines, text_line(view.word.spelling.clone(), Look::Title));
    add_line(&mut lines, blank());
    let ghost top = shown(lines@);
    if view.senses.len() == 0 {
        add_line(
            &mut lines,
            text_line(
                owned("No definition — the bundled dictionary doesn't have this one."),
                Look::Warning,
            ),
        );
    } else {
        let mut i: usize = 0;
        while i < view.senses.len()
            invariant
                0 <= i <= view.senses@.len(),
                shown(lines@) == top + view.senses@.take(i as int).map_values(
                    |d: Sense| sense_line(d),
                ),
            decreases view.senses@.len() - i,
        {
            let d = &view.senses[i];
            let mut l = blank();
            let mut pos = joined("(", d.part_of_speech.as_str());
            pos.append(") ");
            add_span(&mut l, pos, Look::Dim);
            add_span(&mut l, d.definition.clone(), Look::Bright);
            assert(l@ =~= sense_line(*d));
            add_line(&mut lines, l);
            assert(view.senses@.take(i + 1).map_values(|d: Sense| sense_line(d)) =~= view.senses@.take(
                i as int,
            ).map_values(|d: Sense| sense_line(d)).push(sense_line(view.senses@[i as int])));
            i = i + 1;
        }
        assert(view.senses@.take(view.senses@.len() as int) =~= view.senses@);
    }
    add_line(&mut lines, blank());
    let n = view.sightings.len();
    let mut head = String::new();
    push_decimal(&mut head, n as u64);
    head.append(" ");
    head.append(plural(n, "Sighting").as_str());
    add_line(&mut lines, text_line(head, Look::Heading));
    let ghost middle = shown(lines@);
    let mut k: usize = 0;
    while k < view.sightings.len()
        invariant
            0 <= k <= view.sightings@.len(),
            shown(lines@) == middle + sightings_rows(
                view.sightings@.take(k as int),
                view.selected as int,
            ),
        decreases view.sightings@.len() - k,
    {
        add_sighting(&mut lines, &view.sightings[k], k == view.selected);
        assert(view.sightings@.take(k + 1).drop_last() =~= view.sightings@.take(k as int));
        k = k + 1;
    }
    assert(view.sightings@.take(view.sightings@.len() as int) =~= view.sightings@);
    add_line(&mut lines, blank());
    let mut hint = owned("↑↓ to choose a Sighting  ·  /explain rewrites its Note  ·  /edit corrects its sentence  ·  /remove this Word  ·  ");
    match &view.origin {
        Origin::Search { .. } => hint.append("Esc to go back to your search"),
        _ => hint.append("Esc to go back"),
    }
    add_line(&mut lines, text_line(hint, Look::Dim));
    assert(shown(lines@) =~= word_screen(*view));
    lines
}

// -- The Library ---------------------------------------------------------------------

/// The longest Book name among `bs`, in characters.
pub open spec fn widest_name(bs: Seq<Book>) -> nat
    decreases bs.len(),
{
    if bs.len() == 0 {
        0
    } else {
        let w = widest_name(bs.drop_last());
        let l = bs.last().name@.len();
        if w < l {
            l
        } else {
            w
        }
    }
}

/// One Book: its name, how many Words came from it, and whether it is the one
/// being read.
pub open spec fn book_line(b: Book, chosen: bool, width: nat, reading: bool) -> Seq<
    (Seq<char>, Look),
> {
    seq![
        (marker(chosen) + " "@ + padded_right(b.name@, width) + "  "@, row_look(chosen)),
        (padded_left(decimal(b.word_count as nat), 4) + " "@ + plural_text(
            b.word_count as nat,
            "Word"@,
        ), Look::Dim),
        (if reading {
            "   ← reading"@
        } else {
            ""@
        }, Look::Dim),
    ]
}

/// The Library, with the Book whose identifier is `current` marked as the one
/// being read.
pub open spec fn library_screen(bs: Seq<Book>, selected: int, current: Option<i64>) -> Seq<
    Seq<(Seq<char>, Look)>,
> {
    if bs.len() == 0 {
        seq![
            single("Library"@, Look::Heading),
            gap(),
            single("No Books yet — add one with /book <name>."@, Look::Bright),
        ]
    } else {
        seq![single("Library"@, Look::Heading), gap()] + Seq::new(
            bs.len(),
            |i: int| book_line(bs[i], i == selected, widest_name(bs), current == Some(bs[i].id)),
        ) + seq![gap(), single("↑↓ to choose  ·  Enter to start reading it"@, Look::Dim)]
    }
}

fn book_row(b: &Book, chosen: bool, width: usize, reading: bool) -> (l: Line)
    ensures
        l@ == book_line(*b, chosen, width as nat, reading),
{
    let mut l = blank();
    let mut first = marker_of(chosen);
    first.append(" ");
    first.append(pad_right(b.name.as_str(), width).as_str());
    first.append("  ");
    add_span(&mut l, first, row_look_of(chosen));
    let mut count = String::new();
    push_decimal(&mut count, b.word_count as u64);
    let mut second = pad_left(count, 4);
    second.append(" ");
    second.append(plural(b.word_count, "Word").as_str());
    add_span(&mut l, second, Look::Dim);
    add_span(
        &mut l,
        if reading {
            owned("   ← reading")
        } else {
            owned("")
        },
        Look::Dim,
    );
    assert(l@ =~= book_line(*b, chosen, width as nat, reading));
    l
}

/// The Library: every Book, how many Words each has given, and which is being
/// read.
pub fn library_lines(books: &Vec<Book>, selected: usize, current: Option<i64>) -> (lines: Vec<
    Line,
>)
    ensures
        shown(lines@) == library_screen(books@, selected as int, current),
{
    let mut lines: Vec<Line> = Vec::new();
    add_line(&mut lines, text_line(owned("Library"), Look::Heading));
    add_line(&mut lines, blank());
    if books.len() == 0 {
        add_line(
            &mut lines,
            text_line(owned("No Books yet — add one with /book <name>."), Look::Bright),
        );
        assert(shown(lines@) =~= library_screen(books@, selected as int, current));
        return lines;
    }
    let mut width: usize = 0;
    let mut i: usize = 0;
    while i < books.len()
        invariant
            0 <= i <= books@.len(),
            width == widest_name(books@.take(i as int)),
        decreases books@.len() - i,
    {
        assert(books@.take(i + 1).drop_last() =~= books@.take(i as int));
        let n = chars_of(books[i].name.as_str()).len();
        if width < n {
            width = n;
        }
        i = i + 1;
    }
    assert(books@.take(books@.len() as int) =~= books@);
    let ghost top = shown(lines@);
    let mut k: usize = 0;
    while k < books.len()
        invariant
            0 <= k <= books@.len(),
            width == widest_name(books@),
            shown(lines@) == top + Seq::new(
                k as nat,
                |j: int| book_line(books@[j], j == selected, width as nat, current == Some(books@[j].id)),
            ),
        decreases books@.len() - k,
    {
        let reading = match current {
            Some(id) => id == books[k].id,
            None => false,
        };
        let row = book_row(&books[k], k == selected, width, reading);
        add_line(&mut lines, row);
        assert(Seq::new(
            (k + 1) as nat,
            |j: int| book_line(books@[j], j == selected, width as nat, current == Some(books@[j].id)),
        ) =~= Seq::new(
            k as nat,
            |j: int| book_line(books@[j], j == selected, width as nat, current == Some(books@[j].id)),
        ).push(book_line(books@[k as int], k == selected, width as nat, reading)));
        k = k + 1;
    }
    add_line(&mut lines, blank());
    add_line(
        &mut lines,
        text_line(owned("↑↓ to choose  ·  Enter to start reading it"), Look::Dim),
    );
    assert(shown(lines@) =~= library_screen(books@, selected as int, current));
    lines
}

// -- Help ----------------------------------------------------------------------------

/// The widest `name argument` among the commands of `t`, in characters.
pub open spec fn command_width(t: Seq<(Seq<char>, Seq<char>)>) -> nat
    decreases t.len(),
{
    if t.len() == 0 {
        0
    } else {
        let w = command_width(t.drop_last());
        let l = t.last().0.len() + t.last().1.len() + 1;
        if w < l {
            l as nat
        } else {
            w
        }
    }
}

/// One command, padded so that what each does lines up.
pub open spec fn command_line(c: (Seq<char>, Seq<char>), help: Seq<char>, width: nat) -> Seq<
    (Seq<char>, Look),
> {
    seq![
        (padded_right(c.0 + " "@ + c.1, width) + "  "@, Look::CommandName),
        (help, Look::Bright),
    ]
}

/// Every command, with what it does.
pub open spec fn help_screen() -> Seq<Seq<(Seq<char>, Look)>> {
    let t = command_table();
    seq![single("Commands"@, Look::Heading), gap()] + Seq::new(
        t.len(),
        |i: int| command_line(t[i], help_table()[i], command_width(t)),
    ) + seq![
        gap(),
        single("Anything without a leading slash searches everything you've captured."@, Look::Dim),
    ]
}

/// The help Screen: every command, what it takes, and what it does.
pub fn help_lines() -> (lines: Vec<Line>)
    ensures
        shown(lines@) == help_screen(),
{
    let table = commands();
    let ghost t = command_table();
    let mut width: usize = 0;
    let mut i: usize = 0;
    while i < table.len()
        invariant
            0 <= i <= table@.len(),
            table@.len() == t.len() == 9,
            t == command_table(),
            forall|k: int| 0 <= k < table@.len() ==> crate::app::surface(#[trigger] table@[k]) == t[k],
            width == command_width(t.take(i as int)),
            width <= 129,
        decreases table@.len() - i,
    {
        assert(t.take(i + 1).drop_last() =~= t.take(i as int));
        assert(crate::app::surface(table@[i as int]) == t[i as int]);
        let n = chars_of(table[i].name).len();
        let a = chars_of(table[i].argument).len();
        assert(n <= 64 && a <= 64) by {
            reveal_strlit("/add");
            reveal_strlit("<word>");
            reveal_strlit("/book");
            reveal_strlit("<name>");
            reveal_strlit("/library");
            reveal_strlit("");
            reveal_strlit("/explain");
            reveal_strlit("/edit");
            reveal_strlit("/remove");
            reveal_strlit("/sync");
            reveal_strlit("/help");
            reveal_strlit("/quit");
            reveal_strlit("[now]");
        }
        if width < n + a + 1 {
            width = n + a + 1;
        }
        i = i + 1;
    }
    assert(t.take(9) =~= t);
    let mut lines: Vec<Line> = Vec::new();
    add_line(&mut lines, text_line(owned("Commands"), Look::Heading));
    add_line(&mut lines, blank());
    let ghost top = shown(lines@);
    let mut k: usize = 0;
    while k < table.len()
        invariant
            0 <= k <= table@.len(),
            table@.len() == t.len() == 9,
            t == command_table(),
            forall|j: int| 0 <= j < table@.len() ==> crate::app::surface(#[trigger] table@[j]) == t[j],
            forall|j: int| 0 <= j < table@.len() ==> (#[trigger] table@[j]).help@ == help_table()[j],
            width == command_width(t),
            shown(lines@) == top + Seq::new(
                k as nat,
                |j: int| command_line(t[j], help_table()[j], width as nat),
            ),
        decreases table@.len() - k,
    {
        assert(crate::app::surface(table@[k as int]) == t[k as int]);
        let mut l = blank();
        let mut name = owned(table[k].name);
        name.append(" ");
        name.append(table[k].argument);
        let mut first = pad_right(name.as_str(), width);
        first.append("  ");
        add_span(&mut l, first, Look::CommandName);
        add_span(&mut l, owned(table[k].help), Look::Bright);
        assert(l@ =~= command_line(t[k as int], help_table()[k as int], width as nat));
        add_line(&mut lines, l);
        assert(Seq::new((k + 1) as nat, |j: int| command_line(t[j], help_table()[j], width as nat))
            =~= Seq::new(k as nat, |j: int| command_line(t[j], help_table()[j], width as nat)).push(
            command_line(t[k as int], help_table()[k as int], width as nat),
        ));
        k = k + 1;
    }
    add_line(&mut lines, blank());
    add_line(
        &mut lines,
        text_line(
            owned("Anything without a leading slash searches everything you've captured."),
            Look::Dim,
        ),
    );
    assert(shown(lines@) =~= help_screen());
    lines
}

// -- The Screen, the message and the input line ----------------------------------------

/// What `screen` says, given what is typed and the Current Book.
pub open spec fn screen_text(screen: Screen, input: Seq<char>, current: Option<Book>) -> Seq<
    Seq<(Seq<char>, Look)>,
> {
    match screen {
        Screen::Home => home_screen(
            match current {
                Some(b) => Some(b.name@),
                None => None,
            },
        ),
        Screen::Search { results, selected } => search_screen(
            trimmed(input),
            found_of(results@),
            selected as int,
        ),
        Screen::Word(v) => word_screen(v),
        Screen::Library { books, selected } => library_screen(
            books@,
            selected as int,
            match current {
                Some(b) => Some(b.id),
                None => None,
            },
        ),
        Screen::Help => help_screen(),
    }
}

/// The lines of whichever Screen is showing.
pub fn screen_lines(screen: &Screen, input: &str, current: Option<&Book>) -> (lines: Vec<Line>)
    ensures
        shown(lines@) == screen_text(
            *screen,
            input@,
            match current {
                Some(b) => Some(*b),
                None => None,
            },
        ),
{
    match screen {
        Screen::Home => home_lines(current),
        Screen::Search { results, selected } => search_lines(input, results, *selected),
        Screen::Word(view) => word_lines(view),
        Screen::Library { books, selected } => {
            let id = match current {
                Some(b) => Some(b.id),
                None => None,
            };
            library_lines(books, *selected, id)
        },
        Screen::Help => help_lines(),
    }
}

/// The message line: what the last thing done came to, if anything.
pub open spec fn message_text(m: Option<Message>) -> Seq<(Seq<char>, Look)> {
    match m {
        Some(m) => single(
            m.text@,
            if m.tone == Tone::Info {
                Look::Info
            } else {
                Look::Warning
            },
        ),
        None => gap(),
    }
}

pub fn message_line(message: Option<&Message>) -> (l: Line)
    ensures
        l@ == message_text(
            match message {
                Some(m) => Some(*m),
                None => None,
            },
        ),
{
    match message {
        Some(m) => {
            let look = match m.tone {
                Tone::Info => Look::Info,
                Tone::Warning => Look::Warning,
            };
            text_line(m.text.clone(), look)
        },
        None => blank(),
    }
}

/// The input line: the prompt's question or the cursor, what is typed, and,
/// on the ordinary line, the hint for a command being typed.
pub open spec fn input_text(p: Prompt, input: Seq<char>) -> Seq<(Seq<char>, Look)> {
    (match prompt_label(p) {
        Some(label) => single(label + " "@, Look::PromptLabel),
        None => single("› "@, Look::Cursor),
    }) + single(input, Look::Bright) + (if p is Plain {
        match hint_for(input) {
            Some(h) => single(h, Look::Dim),
            None => gap(),
        }
    } else {
        gap()
    })
}

pub fn input_line(prompt: &Prompt, input: &str) -> (l: Line)
    ensures
        l@ == input_text(*prompt, input@),
{
    let mut l = blank();
    match prompt.label() {
        Some(label) => {
            let mut head = label;
            head.append(" ");
            add_span(&mut l, head, Look::PromptLabel);
        },
        None => {
            add_span(&mut l, owned("› "), Look::Cursor);
        },
    }
    add_span(&mut l, owned(input), Look::Bright);
    match prompt {
        Prompt::Plain => {
            match argument_hint(input) {
                Some(h) => {
                    add_span(&mut l, h, Look::Dim);
                },
                None => {},
            }
        },
        _ => {},
    }
    assert(l@ =~= input_text(*prompt, input@));
    l
}

// -- Laws --------------------------------------------------------------------------

proof fn lemma_sightings_rows(ss: Seq<Sighting>, selected: int)
    ensures
        sightings_rows(ss, selected).len() == 4 * ss.len(),
        forall|k: int|
            0 <= k < ss.len() ==> sightings_rows(ss, selected).subrange(4 * k, 4 * k + 4) == sighting_rows(
                #[trigger] ss[k],
                k == selected,
            ),
    decreases ss.len(),
{
    if ss.len() > 0 {
        let d = ss.drop_last();
        lemma_sightings_rows(d, selected);
        let r = sightings_rows(ss, selected);
        let last = sighting_rows(ss.last(), ss.len() - 1 == selected);
        assert(r == sightings_rows(d, selected) + last);
        assert forall|k: int| 0 <= k < ss.len() implies r.subrange(4 * k, 4 * k + 4) == sighting_rows(
            #[trigger] ss[k],
            k == selected,
        ) by {
            if k < d.len() {
                assert(ss[k] == d[k]);
                assert(r.subrange(4 * k, 4 * k + 4) =~= sightings_rows(d, selected).subrange(4 * k, 4 * k + 4));
            } else {
                assert(k == ss.len() - 1);
                assert(ss[k] == ss.last());
                assert(r.subrange(4 * k, 4 * k + 4) =~= last);
            }
        }
    }
}

/// On a Word's Screen each Sighting is drawn as its date and Book, then its
/// sentence, and exactly the one at `selected`, the one `/explain` and `/edit`
/// act on, is marked `›`; every other is indented the same amount instead.
pub proof fn law_only_the_selected_sighting_is_marked(v: WordView)
    ensures
        ({
            let shown_senses: int = if v.senses@.len() == 0 {
                1
            } else {
                v.senses@.len() as int
            };
            let base = 4 + shown_senses;
            let lines = word_screen(v);
            &&& lines.len() == base + 4 * v.sightings@.len() + 2
            &&& lines[0] == seq![(v.word.spelling@, Look::Title)]
            &&& v.senses@.len() == 0 ==> lines[2] == seq![
                ("No definition — the bundled dictionary doesn't have this one."@, Look::Warning),
            ]
            &&& forall|i: int|
                0 <= i < v.senses@.len() ==> lines[2 + i] == seq![
                    ("("@ + (#[trigger] v.senses@[i]).part_of_speech@ + ") "@, Look::Dim),
                    (v.senses@[i].definition@, Look::Bright),
                ]
            &&& forall|k: int|
                0 <= k < v.sightings@.len() ==> {
                    let head = lines[base + 4 * k + 1];
                    &&& head[0] == (if k == v.selected {
                        "› "@
                    } else {
                        "  "@
                    }, Look::Bright)
                    &&& head[1] == (date_text((#[trigger] v.sightings@[k]).captured_at), Look::Dim)
                    &&& head[3] == (v.sightings@[k].book_name@, Look::BookName)
                    &&& lines[base + 4 * k + 2] == seq![("  "@ + v.sightings@[k].sentence@, Look::Bright)]
                }
        }),
{
    let ss = v.sightings@;
    lemma_sightings_rows(ss, v.selected as int);
    let shown_senses: int = if v.senses@.len() == 0 {
        1
    } else {
        v.senses@.len() as int
    };
    let base = 4 + shown_senses;
    let lines = word_screen(v);
    let top = seq![single(v.word.spelling@, Look::Title), gap()] + (if v.senses@.len() == 0 {
        seq![
            single(
                "No definition — the bundled dictionary doesn't have this one."@,
                Look::Warning,
            ),
        ]
    } else {
        v.senses@.map_values(|d: Sense| sense_line(d))
    }) + seq![gap(), single(decimal(ss.len()) + " "@ + plural_text(ss.len(), "Sighting"@), Look::Heading)];
    let rows = sightings_rows(ss, v.selected as int);
    assert(top.len() == base);
    assert forall|i: int| 0 <= i < v.senses@.len() implies lines[2 + i] == seq![
        ("("@ + (#[trigger] v.senses@[i]).part_of_speech@ + ") "@, Look::Dim),
        (v.senses@[i].definition@, Look::Bright),
    ] by {
        assert(lines[2 + i] == top[2 + i]);
        assert(top[2 + i] == v.senses@.map_values(|d: Sense| sense_line(d))[i]);
    }
    assert(lines == top + rows + seq![
        gap(),
        single(
            "↑↓ to choose a Sighting  ·  /explain rewrites its Note  ·  /edit corrects its sentence  ·  /remove this Word  ·  "@ + way_back(v.origin),
            Look::Dim,
        ),
    ]);
    assert forall|k: int| 0 <= k < ss.len() implies lines[base + 4 * k + 1] == rows[4 * k + 1] && lines[base
        + 4 * k + 2] == rows[4 * k + 2] && rows[4 * k + 1] == sighting_rows(#[trigger] ss[k], k == v.selected)[1]
        && rows[4 * k + 2] == sighting_rows(ss[k], k == v.selected)[2] by {
        assert(rows.subrange(4 * k, 4 * k + 4) == sighting_rows(ss[k], k == v.selected));
        assert(rows[4 * k + 1] == rows.subrange(4 * k, 4 * k + 4)[1]);
        assert(rows[4 * k + 2] == rows.subrange(4 * k, 4 * k + 4)[2]);
    }
}

/// Each search result is one row: the chosen one marked `›`, its spelling,
/// the field it matched on, and, whenever a sentence or a Book name matched,
/// that text at the end of the row, whatever the field.
pub proof fn law_each_result_row_shows_what_matched(query: Seq<char>, rs: Seq<Found>, selected: int)
    requires
        rs.len() > 0,
    ensures
        search_screen(query, rs, selected).len() == rs.len() + 4,
        forall|i: int|
            0 <= i < rs.len() ==> {
                let row = search_screen(query, rs, selected)[2 + i];
                &&& row[0].0 == (if i == selected {
                    "› "@
                } else {
                    "  "@
                })
                &&& row[1].0.take((#[trigger] rs[i]).spelling.len() as int) == rs[i].spelling
                &&& row[2].0.take(
                    match rs[i].field {
                        MatchField::Word => 4int,
                        MatchField::Sentence => 8int,
                        MatchField::Book => 4int,
                    },
                ) == match rs[i].field {
                    MatchField::Word => "word"@,
                    MatchField::Sentence => "sentence"@,
                    MatchField::Book => "book"@,
                }
                &&& match rs[i].context {
                    Some(c) => row.len() == 4 && row[3] == ("  "@ + c, Look::Dim),
                    None => row.len() == 3,
                }
            },
{
    reveal_strlit("word");
    reveal_strlit("sentence");
    reveal_strlit("book");
    reveal_strlit("›");
    reveal_strlit(" ");
    reveal_strlit("› ");
    reveal_strlit("  ");
    let w = widest_spelling(rs);
    let width: nat = if w < 12 {
        12
    } else {
        w
    };
    let lines = search_screen(query, rs, selected);
    let rows = result_rows(rs, selected, width);
    assert forall|i: int| 0 <= i < rs.len() implies lines[2 + i] == result_line(#[trigger] rs[i], i == selected, width) by {
        assert(lines[2 + i] == rows[i]);
    }
    assert forall|i: int| 0 <= i < rs.len() implies {
        let row = lines[2 + i];
        &&& row[0].0 == (if i == selected {
            "› "@
        } else {
            "  "@
        })
        &&& row[1].0.take((#[trigger] rs[i]).spelling.len() as int) == rs[i].spelling
        &&& row[2].0.take(
            match rs[i].field {
                MatchField::Word => 4int,
                MatchField::Sentence => 8int,
                MatchField::Book => 4int,
            },
        ) == match rs[i].field {
            MatchField::Word => "word"@,
            MatchField::Sentence => "sentence"@,
            MatchField::Book => "book"@,
        }
        &&& match rs[i].context {
            Some(c) => row.len() == 4 && row[3] == ("  "@ + c, Look::Dim),
            None => row.len() == 3,
        }
    } by {
        let r = rs[i];
        let row = lines[2 + i];
        assert(row == result_line(r, i == selected, width));
        let sp = r.spelling;
        if sp.len() < width {
            assert(padded_right(sp, width).take(sp.len() as int) =~= sp);
        }
        assert((padded_right(sp, width) + "  "@).take(sp.len() as int) =~= padded_right(sp, width).take(sp.len() as int));
        let lab = r.field.label_text();
        if lab.len() < 9 {
            assert(padded_right(lab, 9).take(lab.len() as int) =~= lab);
        }
        assert(marker(i == selected) + " "@ =~= (if i == selected {
            "› "@
        } else {
            "  "@
        }));
    }
}

} // verus!
