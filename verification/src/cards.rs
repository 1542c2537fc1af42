//! Cards: what a Word becomes in Anki, and what a push came back with.
//!
//! The mapping is one Anki note per Word, never per Sighting. A Word that
//! gains a Sighting carries the identifier of the note it already has, so the
//! push updates that card rather than making a second one.
use vstd::prelude::*;

use crate::domain::{date_text, NoteState, Sense, Sighting};
use crate::text::{chars_of, decimal, push_decimal};
use crate::ui::{plural, plural_text};

verus! {

/// A Word whose card is out of date — what the tool knows about it before the
/// Senses and the Sightings are attached.
#[derive(Debug)]
pub struct CardRequest {
    pub word_id: i64,
    pub spelling: String,
    /// The note this Word already has in Anki, absent until it has been pushed
    /// once. Its presence is what makes the next push an update.
    pub anki_note_id: Option<i64>,
    /// Which revision of the Word this was read at.
    pub revision: i64,
}

/// One Anki note, assembled and ready to push.
#[derive(Debug)]
pub struct Card {
    pub word_id: i64,
    pub revision: i64,
    pub anki_note_id: Option<i64>,
    pub deck: String,
    pub front: String,
    pub back: String,
}

impl Clone for Card {
    fn clone(&self) -> (r: Self)
        ensures
            r == *self,
    {
        Card {
            word_id: self.word_id,
            revision: self.revision,
            anki_note_id: self.anki_note_id,
            deck: self.deck.clone(),
            front: self.front.clone(),
            back: self.back.clone(),
        }
    }
}

// -- HTML ---------------------------------------------------------------------

/// One character as it must stand in an HTML field.
pub open spec fn escaped_char(c: char) -> Seq<char> {
    if c == '&' {
        "&amp;"@
    } else if c == '<' {
        "&lt;"@
    } else if c == '>' {
        "&gt;"@
    } else {
        seq![c]
    }
}

/// `s` with `&`, `<` and `>` written as entities, so no captured text becomes
/// markup on the card.
pub open spec fn escaped(s: Seq<char>) -> Seq<char>
    decreases s.len(),
{
    if s.len() == 0 {
        Seq::empty()
    } else {
        escaped(s.drop_last()) + escaped_char(s.last())
    }
}

/// Escaping text that holds none of `&`, `<` and `>` leaves it as it was.
pub proof fn law_plain_text_is_unchanged(s: Seq<char>)
    requires
        forall|i: int| 0 <= i < s.len() ==> #[trigger] s[i] != '&' && s[i] != '<' && s[i] != '>',
    ensures
        escaped(s) == s,
    decreases s.len(),
{
    if s.len() > 0 {
        law_plain_text_is_unchanged(s.drop_last());
        assert(escaped(s) =~= s);
    }
}

/// Escaped text holds no `<` and no `>`: nothing copied out of a book can
/// become markup on a card.
pub proof fn law_escaped_text_is_not_markup(s: Seq<char>)
    ensures
        forall|i: int| 0 <= i < escaped(s).len() ==> #[trigger] escaped(s)[i] != '<' && escaped(s)[i] != '>',
    decreases s.len(),
{
    if s.len() > 0 {
        law_escaped_text_is_not_markup(s.drop_last());
        let e = escaped(s.drop_last());
        let c = escaped_char(s.last());
        reveal_strlit("&amp;");
        reveal_strlit("&lt;");
        reveal_strlit("&gt;");
        assert forall|i: int| 0 <= i < escaped(s).len() implies #[trigger] escaped(s)[i] != '<' && escaped(s)[i] != '>' by {
            if i < e.len() {
                assert(escaped(s)[i] == e[i]);
            } else {
                assert(escaped(s)[i] == c[i - e.len()]);
            }
        }
    }
}

/// Whether `c` must be written as an entity in an HTML field.
pub open spec fn is_markup(c: char) -> bool {
    c == '&' || c == '<' || c == '>'
}

/// Escaping a character first and the rest after is escaping the whole.
pub proof fn lemma_escaped_front(c: char, t: Seq<char>)
    ensures
        escaped(seq![c] + t) == escaped_char(c) + escaped(t),
    decreases t.len(),
{
    if t.len() == 0 {
        assert(seq![c] + t =~= seq![c]);
        assert(seq![c].drop_last() =~= Seq::<char>::empty());
        assert(escaped(Seq::<char>::empty()) =~= Seq::<char>::empty());
        assert(escaped(seq![c]) =~= escaped(seq![c].drop_last()) + escaped_char(seq![c].last()));
        assert(escaped(seq![c]) =~= escaped_char(c));
        assert(escaped_char(c) + escaped(t) =~= escaped_char(c));
    } else {
        lemma_escaped_front(c, t.drop_last());
        assert((seq![c] + t).drop_last() =~= seq![c] + t.drop_last());
        assert(escaped(seq![c] + t) =~= escaped_char(c) + escaped(t));
    }
}

/// `e` with its entities read back, left to right: `&amp;`, `&lt;` and `&gt;`
/// become the characters they stand for, and everything else stays.
pub open spec fn decoded(e: Seq<char>) -> Seq<char>
    decreases e.len(),
{
    if e.len() == 0 {
        Seq::empty()
    } else if e.len() >= 5 && e.take(5) == "&amp;"@ {
        seq!['&'] + decoded(e.skip(5))
    } else if e.len() >= 4 && e.take(4) == "&lt;"@ {
        seq!['<'] + decoded(e.skip(4))
    } else if e.len() >= 4 && e.take(4) == "&gt;"@ {
        seq!['>'] + decoded(e.skip(4))
    } else {
        seq![e[0]] + decoded(e.skip(1))
    }
}

/// Reading the entities of escaped text back gives the text that was escaped:
/// escaping loses nothing.
pub proof fn law_escaping_is_undone_by_reading_the_entities_back(s: Seq<char>)
    ensures
        decoded(escaped(s)) == s,
    decreases s.len(),
{
    reveal_strlit("&amp;");
    reveal_strlit("&lt;");
    reveal_strlit("&gt;");
    if s.len() > 0 {
        let c = s[0];
        let t = s.skip(1);
        assert(s =~= seq![c] + t);
        lemma_escaped_front(c, t);
        law_escaping_is_undone_by_reading_the_entities_back(t);
        let e = escaped(s);
        let head = escaped_char(c);
        assert(e == head + escaped(t));
        assert(e.skip(head.len() as int) =~= escaped(t));
        assert(e.take(head.len() as int) =~= head);
        if c == '&' {
            assert(e.take(5) =~= "&amp;"@);
        } else if c == '<' {
            assert(e.take(4) =~= "&lt;"@);
            if e.len() >= 5 {
                assert(e.take(5)[1] == e[1]);
                assert(e.take(5)[1] != "&amp;"@[1]);
            }
        } else if c == '>' {
            assert(e.take(4) =~= "&gt;"@);
            if e.len() >= 5 {
                assert(e.take(5)[1] == e[1]);
                assert(e.take(5)[1] != "&amp;"@[1]);
            }
            assert(e.take(4)[1] != "&lt;"@[1]);
        } else {
            assert(e[0] == c);
            assert(e.len() >= 5 ==> e.take(5)[0] != "&amp;"@[0]);
            assert(e.len() >= 4 ==> e.take(4)[0] != "&lt;"@[0]);
            assert(e.len() >= 4 ==> e.take(4)[0] != "&gt;"@[0]);
            assert(seq![e[0]] + decoded(e.skip(1)) =~= s);
        }
    }
}

/// Escaping never shortens text, and lengthens it wherever there is markup.
proof fn lemma_escaped_length(s: Seq<char>)
    ensures
        escaped(s).len() >= s.len(),
        (exists|i: int| 0 <= i < s.len() && is_markup(#[trigger] s[i])) ==> escaped(s).len() > s.len(),
    decreases s.len(),
{
    reveal_strlit("&amp;");
    reveal_strlit("&lt;");
    reveal_strlit("&gt;");
    if s.len() > 0 {
        let d = s.drop_last();
        lemma_escaped_length(d);
        assert(escaped(s) == escaped(d) + escaped_char(s.last()));
        if exists|i: int| 0 <= i < s.len() && is_markup(#[trigger] s[i]) {
            let i = choose|i: int| 0 <= i < s.len() && is_markup(#[trigger] s[i]);
            if i == s.len() - 1 {
                assert(escaped_char(s.last()).len() > 1);
            } else {
                assert(d[i] == s[i]);
                assert(escaped(d).len() > d.len());
            }
        }
    }
}

/// Escaping leaves text as it was exactly when it holds no `&`, `<` or `>`.
pub proof fn law_escaping_changes_only_markup(s: Seq<char>)
    ensures
        escaped(s) == s <==> (forall|i: int| 0 <= i < s.len() ==> !is_markup(#[trigger] s[i])),
{
    if forall|i: int| 0 <= i < s.len() ==> !is_markup(#[trigger] s[i]) {
        assert forall|i: int| 0 <= i < s.len() implies #[trigger] s[i] != '&' && s[i] != '<' && s[i] != '>' by {
            assert(!is_markup(s[i]));
        }
        law_plain_text_is_unchanged(s);
    } else {
        lemma_escaped_length(s);
        assert(escaped(s).len() != s.len());
    }
}

/// Append `s`, escaped, to `out`.
pub fn push_escaped(out: &mut String, s: &str)
    ensures
        final(out)@ == old(out)@ + escaped(s@),
{
    let v = chars_of(s);
    let mut i: usize = 0;
    while i < v.len()
        invariant
            0 <= i <= v@.len(),
            v@ == s@,
            out@ == old(out)@ + escaped(v@.subrange(0, i as int)),
        decreases v@.len() - i,
    {
        let c = v[i];
        if c == '&' {
            out.append("&amp;");
        } else if c == '<' {
            out.append("&lt;");
        } else if c == '>' {
            out.append("&gt;");
        } else {
            out.push(c);
        }
        assert(v@.subrange(0, i + 1).drop_last() =~= v@.subrange(0, i as int));
        assert(out@ =~= old(out)@ + escaped(v@.subrange(0, i + 1)));
        i = i + 1;
    }
    assert(v@.subrange(0, v@.len() as int) =~= v@);
}

/// A sentence copied out of a book can hold anything, and an Anki field is
/// HTML — so `<` in a captured sentence must not become markup.
pub fn escape(text: &str) -> (s: String)
    ensures
        s@ == escaped(text@),
{
    let mut s = String::new();
    push_escaped(&mut s, text);
    assert(s@ =~= escaped(text@));
    s
}

/// Said in place of the Senses when the dictionary has none.
pub open spec fn no_definition_html() -> Seq<char> {
    "<div><i>No Definition — the bundled dictionary doesn't have this one.</i></div>"@
}

/// One Sense on the back of a card.
pub open spec fn sense_html(d: Sense) -> Seq<char> {
    "<div><b>("@ + escaped(d.part_of_speech@) + ")</b> "@ + escaped(d.definition@) + "</div>"@
}

pub open spec fn senses_html(ds: Seq<Sense>) -> Seq<char>
    decreases ds.len(),
{
    if ds.len() == 0 {
        Seq::empty()
    } else {
        senses_html(ds.drop_last()) + sense_html(ds.last())
    }
}

/// The Note, but only one that was actually written: a Note still pending
/// says nothing worth putting in front of the reader.
pub open spec fn note_html(s: Sighting) -> Seq<char> {
    if s.note_state == NoteState::Ready && s.note is Some {
        "<div>"@ + escaped(s.note->0@) + "</div>"@
    } else {
        Seq::empty()
    }
}

/// One Sighting on the back of a card: its sentence, its Book and date, and
/// its Note.
pub open spec fn sighting_html(s: Sighting) -> Seq<char> {
    "<hr>"@ + "<div>"@ + escaped(s.sentence@) + "</div>"@ + "<div><i>"@ + escaped(s.book_name@)
        + " · "@ + date_text(s.captured_at) + "</i></div>"@ + note_html(s)
}

pub open spec fn sightings_html(ss: Seq<Sighting>) -> Seq<char>
    decreases ss.len(),
{
    if ss.len() == 0 {
        Seq::empty()
    } else {
        sightings_html(ss.drop_last()) + sighting_html(ss.last())
    }
}

/// The back of the card: the Senses, then every Sighting that made this Word
/// worth keeping.
pub open spec fn back_html(ds: Seq<Sense>, ss: Seq<Sighting>) -> Seq<char> {
    (if ds.len() == 0 {
        no_definition_html()
    } else {
        Seq::empty()
    }) + senses_html(ds) + sightings_html(ss)
}

fn push_sense(out: &mut String, d: &Sense)
    ensures
        final(out)@ == old(out)@ + sense_html(*d),
{
    out.append("<div><b>(");
    push_escaped(out, d.part_of_speech.as_str());
    out.append(")</b> ");
    push_escaped(out, d.definition.as_str());
    out.append("</div>");
    assert(out@ =~= old(out)@ + sense_html(*d));
}

fn push_sighting(out: &mut String, s: &Sighting)
    ensures
        final(out)@ == old(out)@ + sighting_html(*s),
{
    out.append("<hr>");
    out.append("<div>");
    push_escaped(out, s.sentence.as_str());
    out.append("</div>");
    out.append("<div><i>");
    push_escaped(out, s.book_name.as_str());
    out.append(" · ");
    let date = s.captured_on();
    out.append(date.as_str());
    out.append("</i></div>");
    let ghost before_note = out@;
    match (s.note_state, &s.note) {
        (NoteState::Ready, Some(note)) => {
            out.append("<div>");
            push_escaped(out, note.as_str());
            out.append("</div>");
        },
        _ => {},
    }
    assert(out@ =~= before_note + note_html(*s));
    assert(out@ =~= old(out)@ + sighting_html(*s));
}

/// A card with no Senses says so, and says nothing else before its Sightings.
pub proof fn law_a_card_without_senses_says_so(ss: Seq<Sighting>)
    ensures
        back_html(Seq::empty(), Seq::empty())
            == "<div><i>No Definition — the bundled dictionary doesn't have this one.</i></div>"@,
{
}

/// The Sightings come after the Senses and do not depend on them: the back
/// for any Senses with any Sightings is the back for those Senses alone, then
/// the same text whatever the Senses were.
pub proof fn law_the_sightings_follow_the_senses(ds1: Seq<Sense>, ds2: Seq<Sense>, ss: Seq<Sighting>)
    ensures
        back_html(ds1, ss).take(back_html(ds1, Seq::empty()).len() as int) == back_html(ds1, Seq::empty()),
        back_html(ds1, ss).skip(back_html(ds1, Seq::empty()).len() as int) == back_html(ds2, ss).skip(
            back_html(ds2, Seq::empty()).len() as int,
        ),
{
    assert(sightings_html(Seq::<Sighting>::empty()) =~= Seq::<char>::empty());
    assert(back_html(ds1, ss).take(back_html(ds1, Seq::empty()).len() as int) =~= back_html(ds1, Seq::empty()));
    assert(back_html(ds1, ss).skip(back_html(ds1, Seq::empty()).len() as int) =~= sightings_html(ss));
    assert(back_html(ds2, ss).skip(back_html(ds2, Seq::empty()).len() as int) =~= sightings_html(ss));
}

/// Every Sense goes on the card, in order: one Sense alone is written as its
/// part of speech and definition, and a Sense after others is written after
/// theirs, so each one added lengthens the back.
pub proof fn law_every_sense_is_on_the_card(ds: Seq<Sense>, d: Sense)
    ensures
        back_html(seq![d], Seq::empty()) == "<div><b>("@ + escaped(d.part_of_speech@) + ")</b> "@ + escaped(
            d.definition@,
        ) + "</div>"@,
        ds.len() > 0 ==> back_html(ds.push(d), Seq::empty()) == back_html(ds, Seq::empty()) + "<div><b>("@
            + escaped(d.part_of_speech@) + ")</b> "@ + escaped(d.definition@) + "</div>"@,
        ds.len() > 0 ==> back_html(ds.push(d), Seq::empty()).len() > back_html(ds, Seq::empty()).len(),
{
    reveal_strlit("<div><b>(");
    assert(seq![d].drop_last() =~= Seq::<Sense>::empty());
    assert(ds.push(d).drop_last() =~= ds);
    assert(seq![d].last() == d);
    assert(ds.push(d).last() == d);
    assert(senses_html(Seq::<Sense>::empty()) =~= Seq::<char>::empty());
    assert(senses_html(seq![d]) == senses_html(Seq::<Sense>::empty()) + sense_html(d));
    assert(senses_html(ds.push(d)) == senses_html(ds) + sense_html(d));
    assert(sightings_html(Seq::<Sighting>::empty()) =~= Seq::<char>::empty());
    assert(back_html(seq![d], Seq::empty()) =~= "<div><b>("@ + escaped(d.part_of_speech@) + ")</b> "@ + escaped(
        d.definition@,
    ) + "</div>"@);
    if ds.len() > 0 {
        assert(back_html(ds.push(d), Seq::empty()) =~= back_html(ds, Seq::empty()) + "<div><b>("@ + escaped(
            d.part_of_speech@,
        ) + ")</b> "@ + escaped(d.definition@) + "</div>"@);
    }
}

/// Every Sighting goes on the card, in order: one after the others is
/// written after theirs, as its sentence, its Book and date, and its Note
/// when one was written.
pub proof fn law_every_sighting_is_on_the_card(ds: Seq<Sense>, ss: Seq<Sighting>, s: Sighting)
    ensures
        back_html(ds, ss.push(s)) == back_html(ds, ss) + "<hr>"@ + "<div>"@ + escaped(s.sentence@) + "</div>"@
            + "<div><i>"@ + escaped(s.book_name@) + " · "@ + date_text(s.captured_at) + "</i></div>"@ + (
        if s.note_state == NoteState::Ready && s.note is Some {
            "<div>"@ + escaped(s.note->0@) + "</div>"@
        } else {
            Seq::empty()
        }),
{
    assert(ss.push(s).drop_last() =~= ss);
    assert(ss.push(s).last() == s);
    assert(sightings_html(ss.push(s)) == sightings_html(ss) + sighting_html(s));
    assert(back_html(ds, ss.push(s)) =~= back_html(ds, ss) + sighting_html(s));
}

/// The back of the card, in HTML, because that is what an Anki field holds.
pub fn back(definitions: &[Sense], sightings: &[Sighting]) -> (html: String)
    ensures
        html@ == back_html(definitions@, sightings@),
{
    let mut html = String::new();
    if definitions.len() == 0 {
        html.append(
            "<div><i>No Definition — the bundled dictionary doesn't have this one.</i></div>",
        );
    }
    let ghost head = html@;
    let mut i: usize = 0;
    while i < definitions.len()
        invariant
            0 <= i <= definitions@.len(),
            html@ == head + senses_html(definitions@.subrange(0, i as int)),
        decreases definitions@.len() - i,
    {
        push_sense(&mut html, &definitions[i]);
        assert(definitions@.subrange(0, i + 1).drop_last() =~= definitions@.subrange(0, i as int));
        assert(html@ =~= head + senses_html(definitions@.subrange(0, i + 1)));
        i = i + 1;
    }
    assert(definitions@.subrange(0, definitions@.len() as int) =~= definitions@);
    let ghost middle = html@;
    let mut j: usize = 0;
    while j < sightings.len()
        invariant
            0 <= j <= sightings@.len(),
            html@ == middle + sightings_html(sightings@.subrange(0, j as int)),
        decreases sightings@.len() - j,
    {
        push_sighting(&mut html, &sightings[j]);
        assert(sightings@.subrange(0, j + 1).drop_last() =~= sightings@.subrange(0, j as int));
        assert(html@ =~= middle + sightings_html(sightings@.subrange(0, j + 1)));
        j = j + 1;
    }
    assert(sightings@.subrange(0, sightings@.len() as int) =~= sightings@);
    assert(html@ =~= back_html(definitions@, sightings@));
    html
}

impl Card {
    /// Build the card for one Word.
    pub fn assemble(
        request: &CardRequest,
        deck: &str,
        definitions: &[Sense],
        sightings: &[Sighting],
    ) -> (card: Self)
        ensures
            card.word_id == request.word_id,
            card.revision == request.revision,
            card.anki_note_id == request.anki_note_id,
            card.deck@ == deck@,
            card.front@ == escaped(request.spelling@),
            card.back@ == back_html(definitions@, sightings@),
    {
        Card {
            word_id: request.word_id,
            revision: request.revision,
            anki_note_id: request.anki_note_id,
            deck: String::from_str(deck),
            front: escape(request.spelling.as_str()),
            back: back(definitions, sightings),
        }
    }
}

// -- What came back -----------------------------------------------------------

/// Why a card didn't go.
///
/// Neither one marks the Word synced: whatever the reason, it stays queued and
/// the next sync tries again. The distinction is only in what the reader is
/// told, and Anki being closed is much the commonest of the two.
#[derive(Debug)]
pub enum Unpushed {
    /// Anki isn't running. An expected condition, not an error.
    Unavailable(String),
    /// Anki answered, and the answer was no.
    Refused(String),
}

/// What a push came back with: the Anki note this Word now has.
pub type Pushed = Result<i64, Unpushed>;

/// One answer, and which Word at which revision it answers for.
#[derive(Debug)]
pub struct CardOutcome {
    pub word_id: i64,
    pub revision: i64,
    pub pushed: Pushed,
}

/// A task that did not run to completion: it panicked, or was cancelled.
#[verifier::external_type_specification]
#[verifier::external_body]
pub struct ExJoinError(tokio::task::JoinError);

/// Keep a finished push. One whose task panicked leaves its Word queued rather
/// than synced, which is the same place every other failure leaves it.
pub fn keep(joined: Result<CardOutcome, tokio::task::JoinError>, finished: &mut Vec<CardOutcome>)
    ensures
        match joined {
            Ok(outcome) => final(finished)@ == old(finished)@.push(outcome),
            Err(_) => final(finished)@ == old(finished)@,
        },
{
    match joined {
        Ok(outcome) => finished.push(outcome),
        Err(_) => {},
    }
}

/// A push that came back with a note: the Word's card now says what the Word
/// said at `revision`.
#[derive(Debug, Clone, Copy, PartialEq, Eq)]
pub struct Synced {
    pub word_id: i64,
    pub anki_note_id: i64,
    pub revision: i64,
}

/// How one sync went, counted.
#[derive(Debug, Clone, Copy, PartialEq, Eq)]
pub struct SyncTally {
    pub synced: usize,
    pub unavailable: usize,
    pub refused: usize,
    /// Pushes that never answered before the tool stopped waiting.
    pub unanswered: usize,
    /// Cards of Words taken out that Anki deleted.
    pub removed: usize,
}

/// What a deletion came back with: the note it was asked to delete, and
/// whether Anki deleted it.
#[derive(Debug)]
pub struct Deletion {
    pub anki_note_id: i64,
    pub deleted: Result<(), Unpushed>,
}

/// The notes among `ds` that Anki deleted, in the order they came back.
pub open spec fn deleted_of(ds: Seq<Deletion>) -> Seq<i64>
    decreases ds.len(),
{
    if ds.len() == 0 {
        Seq::empty()
    } else {
        let rest = deleted_of(ds.drop_last());
        match ds.last().deleted {
            Ok(_) => rest.push(ds.last().anki_note_id),
            Err(_) => rest,
        }
    }
}

/// The notes among `deletions` that Anki deleted, so they leave the queue.
pub fn deleted_notes(deletions: &Vec<Deletion>) -> (ids: Vec<i64>)
    ensures
        ids@ == deleted_of(deletions@),
{
    let mut ids: Vec<i64> = Vec::new();
    let mut i: usize = 0;
    while i < deletions.len()
        invariant
            0 <= i <= deletions@.len(),
            ids@ == deleted_of(deletions@.take(i as int)),
        decreases deletions@.len() - i,
    {
        proof {
            assert(deletions@.take(i + 1).drop_last() =~= deletions@.take(i as int));
        }
        match &deletions[i].deleted {
            Ok(_) => ids.push(deletions[i].anki_note_id),
            Err(_) => {},
        }
        i = i + 1;
    }
    assert(deletions@.take(deletions@.len() as int) =~= deletions@);
    ids
}

pub open spec fn is_synced(o: CardOutcome) -> bool {
    o.pushed is Ok
}

pub open spec fn is_unavailable(o: CardOutcome) -> bool {
    o.pushed matches Err(Unpushed::Unavailable(_))
}

pub open spec fn count_synced(os: Seq<CardOutcome>) -> nat
    decreases os.len(),
{
    if os.len() == 0 {
        0
    } else {
        count_synced(os.drop_last()) + if is_synced(os.last()) {
            1nat
        } else {
            0nat
        }
    }
}

pub open spec fn count_unavailable(os: Seq<CardOutcome>) -> nat
    decreases os.len(),
{
    if os.len() == 0 {
        0
    } else {
        count_unavailable(os.drop_last()) + if is_unavailable(os.last()) {
            1nat
        } else {
            0nat
        }
    }
}

/// The successful pushes among `os`, in the order they came back.
pub open spec fn synced_of(os: Seq<CardOutcome>) -> Seq<Synced>
    decreases os.len(),
{
    if os.len() == 0 {
        Seq::empty()
    } else {
        let rest = synced_of(os.drop_last());
        match os.last().pushed {
            Ok(id) => rest.push(
                Synced { word_id: os.last().word_id, anki_note_id: id, revision: os.last().revision },
            ),
            Err(_) => rest,
        }
    }
}

/// Count what came back, and pick out the pushes that landed.
///
/// `asked` is how many cards were handed over; whatever did not come back is
/// counted as unanswered.
pub fn tally(outcomes: &Vec<CardOutcome>, asked: usize) -> (r: (SyncTally, Vec<Synced>))
    ensures
        r.0.synced == count_synced(outcomes@),
        r.0.unavailable == count_unavailable(outcomes@),
        r.0.refused == outcomes@.len() - r.0.synced - r.0.unavailable,
        r.0.unanswered == (if asked > outcomes@.len() {
            asked - outcomes@.len()
        } else {
            0
        }),
        r.0.removed == 0,
        r.1@ == synced_of(outcomes@),
{
    let mut synced: usize = 0;
    let mut unavailable: usize = 0;
    let mut refused: usize = 0;
    let mut landed: Vec<Synced> = Vec::new();
    let mut i: usize = 0;
    while i < outcomes.len()
        invariant
            0 <= i <= outcomes@.len(),
            synced == count_synced(outcomes@.subrange(0, i as int)),
            unavailable == count_unavailable(outcomes@.subrange(0, i as int)),
            synced + unavailable + refused == i,
            landed@ == synced_of(outcomes@.subrange(0, i as int)),
        decreases outcomes@.len() - i,
    {
        let o = &outcomes[i];
        proof {
            assert(outcomes@.subrange(0, i + 1).drop_last() =~= outcomes@.subrange(0, i as int));
            assert(outcomes@.subrange(0, i + 1).last() == outcomes@[i as int]);
        }
        match &o.pushed {
            Ok(id) => {
                synced = synced + 1;
                landed.push(Synced { word_id: o.word_id, anki_note_id: *id, revision: o.revision });
            },
            Err(Unpushed::Unavailable(_)) => {
                unavailable = unavailable + 1;
            },
            Err(Unpushed::Refused(_)) => {
                refused = refused + 1;
            },
        }
        i = i + 1;
    }
    assert(outcomes@.subrange(0, outcomes@.len() as int) =~= outcomes@);
    let unanswered = if asked > outcomes.len() {
        asked - outcomes.len()
    } else {
        0
    };
    (SyncTally { synced, unavailable, refused, unanswered, removed: 0 }, landed)
}

/// What the reader is told about the cards of Words taken out.
pub open spec fn removal_text(n: nat) -> Seq<char> {
    "Removed "@ + decimal(n) + " "@ + plural_text(n, "Card"@) + " from Anki."@
}

/// What the reader is told about a sync that has finished: how the pushes
/// went, then how many cards of Words taken out were deleted.
pub open spec fn report_text(t: SyncTally) -> Seq<char> {
    let queued = t.unavailable + t.refused + t.unanswered;
    if t.removed > 0 && t.synced == 0 && queued == 0 {
        removal_text(t.removed as nat)
    } else if t.removed > 0 {
        push_report_text(t) + " "@ + removal_text(t.removed as nat)
    } else {
        push_report_text(t)
    }
}

/// What the reader is told about the pushes of a sync that has finished.
pub open spec fn push_report_text(t: SyncTally) -> Seq<char> {
    let queued = t.unavailable + t.refused + t.unanswered;
    let done = if t.synced > 0 && queued > 0 {
        "Synced "@ + decimal(t.synced as nat) + " "@ + plural_text(t.synced as nat, "Word"@)
            + "; "@
    } else {
        Seq::empty()
    };
    if t.unavailable > 0 {
        done + "Anki isn't running — "@ + decimal(queued as nat) + " "@ + plural_text(
            queued as nat,
            "Word"@,
        ) + (if queued == 1 {
            " stays queued."@
        } else {
            " stay queued."@
        })
    } else if queued > 0 {
        done + "Anki didn't take "@ + decimal(queued as nat) + " "@ + plural_text(
            queued as nat,
            "Word"@,
        ) + (if queued == 1 {
            " — it stays queued."@
        } else {
            " — they stay queued."@
        })
    } else {
        "Synced "@ + decimal(t.synced as nat) + " "@ + plural_text(t.synced as nat, "Word"@)
            + " to Anki."@
    }
}

pub fn report(t: &SyncTally) -> (s: String)
    requires
        t.unavailable + t.refused + t.unanswered <= usize::MAX,
    ensures
        s@ == report_text(*t),
{
    let queued = t.unavailable + t.refused + t.unanswered;
    if t.removed == 0 {
        return push_report(t);
    }
    let mut removal = String::from_str("Removed ");
    push_decimal(&mut removal, t.removed as u64);
    removal.append(" ");
    removal.append(plural(t.removed, "Card").as_str());
    removal.append(" from Anki.");
    assert(removal@ =~= removal_text(t.removed as nat));
    if t.synced == 0 && queued == 0 {
        return removal;
    }
    let mut s = push_report(t);
    s.append(" ");
    s.append(removal.as_str());
    s
}

fn push_report(t: &SyncTally) -> (s: String)
    requires
        t.unavailable + t.refused + t.unanswered <= usize::MAX,
    ensures
        s@ == push_report_text(*t),
{
    let queued = t.unavailable + t.refused + t.unanswered;
    let mut s = String::new();
    if t.synced > 0 && queued > 0 {
        s.append("Synced ");
        push_decimal(&mut s, t.synced as u64);
        s.append(" ");
        let noun = plural(t.synced, "Word");
        s.append(noun.as_str());
        s.append("; ");
    }
    let ghost done = s@;
    if t.unavailable > 0 {
        s.append("Anki isn't running — ");
        push_decimal(&mut s, queued as u64);
        s.append(" ");
        let noun = plural(queued, "Word");
        s.append(noun.as_str());
        if queued == 1 {
            s.append(" stays queued.");
        } else {
            s.append(" stay queued.");
        }
    } else if queued > 0 {
        s.append("Anki didn't take ");
        push_decimal(&mut s, queued as u64);
        s.append(" ");
        let noun = plural(queued, "Word");
        s.append(noun.as_str());
        if queued == 1 {
            s.append(" — it stays queued.");
        } else {
            s.append(" — they stay queued.");
        }
    } else {
        s = String::new();
        s.append("Synced ");
        push_decimal(&mut s, t.synced as u64);
        s.append(" ");
        let noun = plural(t.synced, "Word");
        s.append(noun.as_str());
        s.append(" to Anki.");
    }
    assert(s@ =~= push_report_text(*t));
    s
}

/// One outcome counted into a tally: what it says about its push.
pub open spec fn tally_one(t: SyncTally, o: CardOutcome) -> SyncTally {
    match o.pushed {
        Ok(_) => SyncTally { synced: (t.synced + 1) as usize, ..t },
        Err(Unpushed::Unavailable(_)) => SyncTally { unavailable: (t.unavailable + 1) as usize, ..t },
        Err(Unpushed::Refused(_)) => SyncTally { refused: (t.refused + 1) as usize, ..t },
    }
}

/// The first `budget` outcomes of `os` counted into `t`; answers beyond what
/// was asked are not counted.
pub open spec fn tally_upto(t: SyncTally, os: Seq<CardOutcome>, budget: nat) -> SyncTally
    decreases os.len(),
{
    if os.len() == 0 || budget == 0 {
        t
    } else {
        tally_upto(tally_one(t, os[0]), os.drop_first(), (budget - 1) as nat)
    }
}

pub open spec fn tally_total(t: SyncTally) -> int {
    t.synced + t.unavailable + t.refused + t.unanswered + t.removed
}

/// One deletion counted into a tally.
pub open spec fn deletion_one(t: SyncTally, d: Deletion) -> SyncTally {
    match d.deleted {
        Ok(_) => SyncTally { removed: (t.removed + 1) as usize, ..t },
        Err(Unpushed::Unavailable(_)) => SyncTally { unavailable: (t.unavailable + 1) as usize, ..t },
        Err(Unpushed::Refused(_)) => SyncTally { refused: (t.refused + 1) as usize, ..t },
    }
}

/// The first `budget` deletions of `ds` counted into `t`.
pub open spec fn deletions_upto(t: SyncTally, ds: Seq<Deletion>, budget: nat) -> SyncTally
    decreases ds.len(),
{
    if ds.len() == 0 || budget == 0 {
        t
    } else {
        deletions_upto(deletion_one(t, ds[0]), ds.drop_first(), (budget - 1) as nat)
    }
}

/// How far a sync has got: how many cards were handed over, how many have
/// yet to be answered for, and what the answers so far said.
pub struct SyncProgress {
    asked: usize,
    in_flight: usize,
    tally: SyncTally,
}

impl SyncProgress {
    /// Every card is either answered for, counted as unanswered, or still in
    /// the air.
    #[verifier::type_invariant]
    spec fn accounted(self) -> bool {
        tally_total(self.tally) + self.in_flight == self.asked
    }

    pub closed spec fn tally_of(self) -> SyncTally {
        self.tally
    }

    pub closed spec fn in_flight_of(self) -> nat {
        self.in_flight as nat
    }

    /// A sync of `n` cards, none answered yet.
    pub fn start(n: usize) -> (p: Self)
        ensures
            p.tally_of() == (SyncTally { synced: 0, unavailable: 0, refused: 0, unanswered: 0, removed: 0 }),
            p.in_flight_of() == n,
    {
        SyncProgress {
            asked: n,
            in_flight: n,
            tally: SyncTally { synced: 0, unavailable: 0, refused: 0, unanswered: 0, removed: 0 },
        }
    }

    /// Count what came back. Answers beyond what is still in the air are not
    /// counted.
    pub fn count(&mut self, outcomes: &Vec<CardOutcome>)
        ensures
            final(self).tally_of() == tally_upto(old(self).tally_of(), outcomes@, old(self).in_flight_of()),
            final(self).in_flight_of() == (if outcomes@.len() < old(self).in_flight_of() {
                old(self).in_flight_of() - outcomes@.len()
            } else {
                0
            }),
    {
        proof {
            use_type_invariant(&*self);
        }
        let mut i: usize = 0;
        let ghost t0 = self.tally;
        let ghost f0 = self.in_flight as nat;
        let asked = self.asked;
        let mut in_flight = self.in_flight;
        let mut tally = self.tally;
        assert(outcomes@.subrange(0, outcomes@.len() as int) =~= outcomes@);
        while i < outcomes.len()
            invariant
                0 <= i <= outcomes@.len(),
                tally_total(tally) + in_flight == asked,
                in_flight as nat == (if i < f0 {
                    f0 - i
                } else {
                    0
                }),
                tally_upto(t0, outcomes@, f0) == tally_upto(
                    tally,
                    outcomes@.subrange(i as int, outcomes@.len() as int),
                    in_flight as nat,
                ),
            decreases outcomes@.len() - i,
        {
            proof {
                let rest = outcomes@.subrange(i as int, outcomes@.len() as int);
                assert(rest.drop_first() =~= outcomes@.subrange(i + 1, outcomes@.len() as int));
                assert(rest[0] == outcomes@[i as int]);
            }
            if in_flight > 0 {
                in_flight = in_flight - 1;
                match &outcomes[i].pushed {
                    Ok(_) => {
                        tally.synced = tally.synced + 1;
                    },
                    Err(Unpushed::Unavailable(_)) => {
                        tally.unavailable = tally.unavailable + 1;
                    },
                    Err(Unpushed::Refused(_)) => {
                        tally.refused = tally.refused + 1;
                    },
                }
            }
            i = i + 1;
        }
        proof {
            assert(outcomes@.subrange(outcomes@.len() as int, outcomes@.len() as int).len() == 0);
        }
        *self = SyncProgress { asked, in_flight, tally };
    }

    /// Count the deletions that came back. Answers beyond what is still in the
    /// air are not counted.
    pub fn count_deletions(&mut self, deletions: &Vec<Deletion>)
        ensures
            final(self).tally_of() == deletions_upto(old(self).tally_of(), deletions@, old(self).in_flight_of()),
            final(self).in_flight_of() == (if deletions@.len() < old(self).in_flight_of() {
                old(self).in_flight_of() - deletions@.len()
            } else {
                0
            }),
    {
        proof {
            use_type_invariant(&*self);
        }
        let mut i: usize = 0;
        let ghost t0 = self.tally;
        let ghost f0 = self.in_flight as nat;
        let asked = self.asked;
        let mut in_flight = self.in_flight;
        let mut tally = self.tally;
        assert(deletions@.subrange(0, deletions@.len() as int) =~= deletions@);
        while i < deletions.len()
            invariant
                0 <= i <= deletions@.len(),
                tally_total(tally) + in_flight == asked,
                in_flight as nat == (if i < f0 {
                    f0 - i
                } else {
                    0
                }),
                deletions_upto(t0, deletions@, f0) == deletions_upto(
                    tally,
                    deletions@.subrange(i as int, deletions@.len() as int),
                    in_flight as nat,
                ),
            decreases deletions@.len() - i,
        {
            proof {
                let rest = deletions@.subrange(i as int, deletions@.len() as int);
                assert(rest.drop_first() =~= deletions@.subrange(i + 1, deletions@.len() as int));
                assert(rest[0] == deletions@[i as int]);
            }
            if in_flight > 0 {
                in_flight = in_flight - 1;
                match &deletions[i].deleted {
                    Ok(_) => {
                        tally.removed = tally.removed + 1;
                    },
                    Err(Unpushed::Unavailable(_)) => {
                        tally.unavailable = tally.unavailable + 1;
                    },
                    Err(Unpushed::Refused(_)) => {
                        tally.refused = tally.refused + 1;
                    },
                }
            }
            i = i + 1;
        }
        proof {
            assert(deletions@.subrange(deletions@.len() as int, deletions@.len() as int).len() == 0);
        }
        *self = SyncProgress { asked, in_flight, tally };
    }

    /// Stop waiting: whatever has not answered is counted as unanswered.
    pub fn abandon(&mut self)
        ensures
            final(self).tally_of() == (SyncTally {
                unanswered: (old(self).tally_of().unanswered + old(self).in_flight_of()) as usize,
                ..old(self).tally_of()
            }),
            final(self).in_flight_of() == 0,
    {
        proof {
            use_type_invariant(&*self);
        }
        let tally = SyncTally { unanswered: self.tally.unanswered + self.in_flight, ..self.tally };
        *self = SyncProgress { asked: self.asked, in_flight: 0, tally };
    }

    /// Whether every card has been accounted for.
    pub fn finished(&self) -> (b: bool)
        ensures
            b == (self.in_flight_of() == 0),
    {
        self.in_flight == 0
    }

    /// What the reader is told about the sync.
    pub fn report(&self) -> (s: String)
        ensures
            s@ == report_text(self.tally_of()),
    {
        proof {
            use_type_invariant(self);
        }
        report(&self.tally)
    }

    /// Whether any card stays queued.
    pub fn any_queued(&self) -> (b: bool)
        ensures
            b == (self.tally_of().unavailable + self.tally_of().refused + self.tally_of().unanswered > 0),
    {
        self.tally.unavailable > 0 || self.tally.refused > 0 || self.tally.unanswered > 0
    }
}

} // verus!
