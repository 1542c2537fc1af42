//! Live fuzzy search over everything captured.
//!
//! Matches three fields — Word spellings, Sighting sentences, and Book names —
//! and groups results by Word, so a Word met several times appears once.
use nucleo_matcher::pattern::{CaseMatching, Normalization, Pattern};
use nucleo_matcher::{Matcher, Utf32Str};
use vstd::prelude::*;

use crate::store::{grouped, law_each_word_appears_once, texts, views, CorpusRow, CorpusView, CorpusWord};
use crate::text::{chars_of, lemma_trim_idempotent, trim, trimmed};

verus! {

#[verifier::external_type_specification]
#[verifier::external_body]
pub struct ExMatcher(Matcher);

/// What nucleo's fuzzy matcher, in its default configuration, scores
/// `haystack` against the pattern parsed from `pattern` with case ignored and
/// smart normalisation: `None` when it does not match.
pub uninterp spec fn fuzzy_match(haystack: Seq<char>, pattern: Seq<char>) -> Option<u32>;

/// A matcher in nucleo's default configuration.
///
/// Calls `nucleo_matcher::Matcher::new` with `Config::DEFAULT`; nothing is
/// claimed of the result, which is only ever handed back to `score_with`.
#[verifier::external_body]
fn new_matcher() -> Matcher {
    Matcher::new(nucleo_matcher::Config::DEFAULT)
}

/// Score `haystack` against `pattern`.
///
/// Calls `Pattern::parse` (case ignored, smart normalisation) and
/// `Pattern::score`, after putting the matcher back to `Config::DEFAULT` —
/// scoring overwrites its case setting per atom, so the result depends on the
/// two texts alone. The contract claims only that the result is
/// `fuzzy_match` of the two texts. nucleo panics on a haystack of more than
/// `u32::MAX` characters. It splits the pattern into atoms at unescaped spaces,
/// drops the empty ones, and sums one `u16` score per atom into a `u32`: with
/// at most 65537 words there are at most 65537 atoms, and their sum cannot
/// overflow.
#[verifier::external_body]
fn score_with(matcher: &mut Matcher, haystack: &str, pattern: &str) -> (s: Option<u32>)
    requires
        haystack@.len() <= u32::MAX,
        words(pattern@) <= 65537,
    ensures
        s == fuzzy_match(haystack@, pattern@),
{
    matcher.config = nucleo_matcher::Config::DEFAULT;
    let parsed = Pattern::parse(pattern, CaseMatching::Ignore, Normalization::Smart);
    let mut buffer = Vec::new();
    parsed.score(Utf32Str::new(haystack, &mut buffer), matcher)
}

/// Which field a result matched on, so a sentence hit is never mistaken for a
/// Word hit. The declaration order is the ranking: Word matches come first.
#[derive(Debug, Clone, Copy, PartialEq, Eq, PartialOrd, Ord, Hash)]
pub enum MatchField {
    Word,
    Sentence,
    Book,
}

impl MatchField {
    pub open spec fn rank(self) -> int {
        match self {
            MatchField::Word => 0,
            MatchField::Sentence => 1,
            MatchField::Book => 2,
        }
    }

    pub open spec fn label_text(self) -> Seq<char> {
        match self {
            MatchField::Word => "word"@,
            MatchField::Sentence => "sentence"@,
            MatchField::Book => "book"@,
        }
    }

    /// The tag shown beside a result.
    pub fn label(self) -> (s: &'static str)
        ensures
            s@ == self.label_text(),
    {
        match self {
            MatchField::Word => "word",
            MatchField::Sentence => "sentence",
            MatchField::Book => "book",
        }
    }

    fn rank_of(self) -> (r: u8)
        ensures
            r == self.rank(),
    {
        match self {
            MatchField::Word => 0,
            MatchField::Sentence => 1,
            MatchField::Book => 2,
        }
    }
}

#[derive(Debug)]
pub struct SearchResult {
    pub word_id: i64,
    pub spelling: String,
    pub field: MatchField,
    pub score: u32,
    /// The sentence or Book name that matched. `None` when the Word itself did.
    pub context: Option<String>,
}

/// A `SearchResult` as plain text.
pub struct Found {
    pub word_id: i64,
    pub spelling: Seq<char>,
    pub field: MatchField,
    pub score: u32,
    pub context: Option<Seq<char>>,
}

impl View for SearchResult {
    type V = Found;

    open spec fn view(&self) -> Found {
        Found {
            word_id: self.word_id,
            spelling: self.spelling@,
            field: self.field,
            score: self.score,
            context: match self.context {
                Some(c) => Some(c@),
                None => None,
            },
        }
    }
}

pub open spec fn found_of(rs: Seq<SearchResult>) -> Seq<Found> {
    rs.map_values(|r: SearchResult| r@)
}

// -- Scoring -------------------------------------------------------------------

/// How many words `s` holds: runs of characters other than the space. The
/// matcher splits a pattern into atoms at unescaped spaces and drops the empty
/// ones, so each atom it keeps holds at least one whole word.
pub open spec fn words(s: Seq<char>) -> nat
    decreases s.len(),
{
    if s.len() == 0 {
        0
    } else {
        words(s.drop_last()) + if s.last() != ' ' && (s.len() == 1 || s[s.len() - 2] == ' ') {
            1nat
        } else {
            0nat
        }
    }
}

fn count_words(s: &str) -> (n: usize)
    ensures
        n == words(s@),
{
    let v = chars_of(s);
    let mut n: usize = 0;
    let mut i: usize = 0;
    while i < v.len()
        invariant
            0 <= i <= v@.len(),
            v@ == s@,
            n == words(v@.take(i as int)),
            n <= i,
        decreases v@.len() - i,
    {
        let ghost t = v@.take(i + 1);
        assert(t.drop_last() =~= v@.take(i as int));
        assert(t.last() == v@[i as int]);
        assert(i >= 1 ==> t[t.len() - 2] == v@[i - 1]);
        if v[i] != ' ' && (i == 0 || v[i - 1] == ' ') {
            n = n + 1;
        }
        i = i + 1;
    }
    assert(v@.take(v@.len() as int) =~= v@);
    n
}

/// The score of `h` against `q`. A haystack longer than the matcher takes
/// never matches, nor does a pattern of more than 65537 words, whose atoms'
/// scores could overflow the matcher's sum.
pub open spec fn score_of(h: Seq<char>, q: Seq<char>) -> Option<u32> {
    if h.len() <= u32::MAX && words(q) <= 65537 {
        fuzzy_match(h, q)
    } else {
        None
    }
}

/// The best-scoring text of `hs`, given the score `ss[i]` of each `hs[i]`, and
/// its score. Among equal scores the last one wins, as `Iterator::max_by_key`
/// picks it.
pub open spec fn best_scored(hs: Seq<Seq<char>>, ss: Seq<Option<u32>>) -> Option<(u32, Seq<char>)>
    decreases hs.len(),
{
    if hs.len() == 0 {
        None
    } else {
        let rest = best_scored(hs.drop_last(), ss.drop_last());
        match ss[hs.len() - 1] {
            None => rest,
            Some(s) => match rest {
                None => Some((s, hs.last())),
                Some((r, t)) => if s >= r {
                    Some((s, hs.last()))
                } else {
                    rest
                },
            },
        }
    }
}

/// The score of each of `hs` against `q`.
pub open spec fn scores_of(hs: Seq<Seq<char>>, q: Seq<char>) -> Seq<Option<u32>> {
    Seq::new(hs.len(), |i: int| score_of(hs[i], q))
}

/// How one Word matches, given the score of its spelling and of each of its
/// sentences and Book names: by its strongest band. If the spelling matched
/// it is a Word hit, whatever else matched; otherwise the best sentence, and
/// otherwise the best Book.
pub open spec fn chosen(e: CorpusView, spelling: Option<u32>, sentences: Seq<Option<u32>>, books: Seq<
    Option<u32>,
>) -> Option<Found> {
    match spelling {
        Some(s) => Some(
            Found { word_id: e.word_id, spelling: e.spelling, field: MatchField::Word, score: s, context: None },
        ),
        None => match best_scored(e.sentences, sentences) {
            Some((s, t)) => Some(
                Found {
                    word_id: e.word_id,
                    spelling: e.spelling,
                    field: MatchField::Sentence,
                    score: s,
                    context: Some(t),
                },
            ),
            None => match best_scored(e.books, books) {
                Some((s, t)) => Some(
                    Found {
                        word_id: e.word_id,
                        spelling: e.spelling,
                        field: MatchField::Book,
                        score: s,
                        context: Some(t),
                    },
                ),
                None => None,
            },
        },
    }
}

/// How one Word matches `q`.
pub open spec fn best_match(e: CorpusView, q: Seq<char>) -> Option<Found> {
    chosen(e, score_of(e.spelling, q), scores_of(e.sentences, q), scores_of(e.books, q))
}

/// Every Word that matches, in corpus order.
pub open spec fn matches(c: Seq<CorpusView>, q: Seq<char>) -> Seq<Found>
    decreases c.len(),
{
    if c.len() == 0 {
        Seq::empty()
    } else {
        match best_match(c.last(), q) {
            Some(f) => matches(c.drop_last(), q).push(f),
            None => matches(c.drop_last(), q),
        }
    }
}

// -- Ranking --------------------------------------------------------------------

/// `a` comes before `b` in the order of characters.
pub open spec fn text_before(a: Seq<char>, b: Seq<char>) -> bool
    decreases a.len(),
{
    if b.len() == 0 {
        false
    } else if a.len() == 0 {
        true
    } else if a[0] != b[0] {
        (a[0] as int) < (b[0] as int)
    } else {
        text_before(a.drop_first(), b.drop_first())
    }
}

/// `a` is ranked strictly ahead of `b`: a stronger band first, then a higher
/// score, then the spelling, so the order is stable from one keystroke to
/// the next.
pub open spec fn ranked_ahead(a: Found, b: Found) -> bool {
    ||| a.field.rank() < b.field.rank()
    ||| a.field.rank() == b.field.rank() && a.score > b.score
    ||| a.field.rank() == b.field.rank() && a.score == b.score && text_before(a.spelling, b.spelling)
}

/// `x` put into `s` after everything not ranked behind it.
pub open spec fn insert_ranked(s: Seq<Found>, x: Found) -> Seq<Found>
    decreases s.len(),
{
    if s.len() == 0 {
        seq![x]
    } else if ranked_ahead(x, s.last()) {
        insert_ranked(s.drop_last(), x).push(s.last())
    } else {
        s.push(x)
    }
}

/// `s` ranked best first; results that rank alike keep their corpus order,
/// as a stable sort leaves them.
pub open spec fn ranked(s: Seq<Found>) -> Seq<Found>
    decreases s.len(),
{
    if s.len() == 0 {
        Seq::empty()
    } else {
        insert_ranked(ranked(s.drop_last()), s.last())
    }
}

/// What a search for `query` over `c` shows: nothing for a blank query,
/// otherwise every matching Word once, best first.
pub open spec fn search_results(c: Seq<CorpusView>, query: Seq<char>) -> Seq<Found> {
    let q = trimmed(query);
    if q.len() == 0 {
        Seq::empty()
    } else {
        ranked(matches(c, q))
    }
}

fn text_before_exec(a: &Vec<char>, b: &Vec<char>) -> (r: bool)
    ensures
        r == text_before(a@, b@),
{
    let mut i: usize = 0;
    assert(a@.subrange(0, a@.len() as int) =~= a@);
    assert(b@.subrange(0, b@.len() as int) =~= b@);
    while i < a.len() && i < b.len() && a[i] == b[i]
        invariant
            0 <= i <= a@.len(),
            i <= b@.len(),
            forall|k: int| 0 <= k < i ==> a@[k] == b@[k],
            text_before(a@, b@) == text_before(a@.subrange(i as int, a@.len() as int), b@.subrange(i as int, b@.len() as int)),
        decreases a@.len() - i,
    {
        proof {
            let sa = a@.subrange(i as int, a@.len() as int);
            let sb = b@.subrange(i as int, b@.len() as int);
            assert(sa.drop_first() =~= a@.subrange(i + 1, a@.len() as int));
            assert(sb.drop_first() =~= b@.subrange(i + 1, b@.len() as int));
        }
        i = i + 1;
    }
    let sa = Ghost(a@.subrange(i as int, a@.len() as int));
    let sb = Ghost(b@.subrange(i as int, b@.len() as int));
    if i == b.len() {
        false
    } else if i == a.len() {
        true
    } else {
        assert(sa@[0] == a@[i as int] && sb@[0] == b@[i as int]);
        a[i] < b[i]
    }
}

fn ranked_ahead_exec(a: &SearchResult, b: &SearchResult) -> (r: bool)
    ensures
        r == ranked_ahead(a@, b@),
{
    let ra = a.field.rank_of();
    let rb = b.field.rank_of();
    if ra != rb {
        return ra < rb;
    }
    if a.score != b.score {
        return a.score > b.score;
    }
    let sa = chars_of(a.spelling.as_str());
    let sb = chars_of(b.spelling.as_str());
    text_before_exec(&sa, &sb)
}

proof fn lemma_insert_at(s: Seq<Found>, x: Found, j: int)
    requires
        0 <= j <= s.len(),
        forall|k: int| j <= k < s.len() ==> ranked_ahead(x, #[trigger] s[k]),
        j == 0 || !ranked_ahead(x, s[j - 1]),
    ensures
        insert_ranked(s, x) == s.subrange(0, j).push(x) + s.subrange(j, s.len() as int),
    decreases s.len(),
{
    if s.len() == 0 {
        assert(s.subrange(0, j).push(x) + s.subrange(j, s.len() as int) =~= seq![x]);
    } else if j == s.len() {
        assert(s.subrange(0, j) =~= s);
        assert(s.subrange(0, j).push(x) + s.subrange(j, s.len() as int) =~= s.push(x));
    } else {
        let d = s.drop_last();
        lemma_insert_at(d, x, j);
        assert(s.subrange(0, j).push(x) + s.subrange(j, s.len() as int) =~= (d.subrange(0, j).push(
            x,
        ) + d.subrange(j, d.len() as int)).push(s.last()));
    }
}

/// Put `x` into `v` after everything not ranked behind it.
fn insert_result(v: &mut Vec<SearchResult>, x: SearchResult)
    ensures
        found_of(final(v)@) == insert_ranked(found_of(old(v)@), x@),
{
    let ghost s = found_of(v@);
    let mut j = v.len();
    while j > 0 && ranked_ahead_exec(&x, &v[j - 1])
        invariant
            0 <= j <= v@.len(),
            v@ == old(v)@,
            s == found_of(v@),
            forall|k: int| j <= k < s.len() ==> ranked_ahead(x@, #[trigger] s[k]),
        decreases j,
    {
        j = j - 1;
    }
    proof {
        lemma_insert_at(s, x@, j as int);
    }
    v.insert(j, x);
    assert(found_of(v@) =~= s.subrange(0, j as int).push(x@) + s.subrange(j as int, s.len() as int));
}

// -- Searching ------------------------------------------------------------------

pub struct Search {
    matcher: Matcher,
}

impl Search {
    pub fn new() -> Self {
        Search { matcher: new_matcher() }
    }

    fn score(&mut self, haystack: &String, pattern: &String) -> (s: Option<u32>)
        ensures
            s == score_of(haystack@, pattern@),
    {
        let hl = haystack.as_str().unicode_len();
        let pl = count_words(pattern.as_str());
        if hl > 0xffff_ffff || pl > 65537 {
            None
        } else {
            score_with(&mut self.matcher, haystack.as_str(), pattern.as_str())
        }
    }

    /// The score of each of `haystacks` against `pattern`.
    fn scores(&mut self, haystacks: &Vec<String>, pattern: &String) -> (v: Vec<Option<u32>>)
        ensures
            v@ == scores_of(texts(haystacks@), pattern@),
    {
        let mut v: Vec<Option<u32>> = Vec::new();
        let mut i: usize = 0;
        while i < haystacks.len()
            invariant
                0 <= i <= haystacks@.len(),
                v@.len() == i,
                forall|k: int| 0 <= k < i ==> v@[k] == score_of(#[trigger] haystacks@[k]@, pattern@),
            decreases haystacks@.len() - i,
        {
            let s = self.score(&haystacks[i], pattern);
            v.push(s);
            i = i + 1;
        }
        assert(v@ =~= scores_of(texts(haystacks@), pattern@));
        v
    }

    fn best_match(&mut self, entry: &CorpusWord, pattern: &String) -> (r: Option<SearchResult>)
        ensures
            match r {
                Some(f) => best_match(entry@, pattern@) == Some(f@),
                None => best_match(entry@, pattern@) is None,
            },
    {
        let spelling = self.score(&entry.spelling, pattern);
        let sentences = self.scores(&entry.sentences, pattern);
        let books = self.scores(&entry.books, pattern);
        pick(entry, spelling, &sentences, &books)
    }

    /// Every Word of `corpus` that matches the trimmed `pattern`, in corpus
    /// order, each by its strongest band.
    fn matching(&mut self, corpus: &Vec<CorpusWord>, pattern: &String) -> (found: Vec<SearchResult>)
        ensures
            found_of(found@) == matches(views(corpus@), pattern@),
    {
        let mut found: Vec<SearchResult> = Vec::new();
        let mut i: usize = 0;
        while i < corpus.len()
            invariant
                0 <= i <= corpus@.len(),
                found_of(found@) == matches(views(corpus@.subrange(0, i as int)), pattern@),
            decreases corpus@.len() - i,
        {
            let ghost c = views(corpus@.subrange(0, i + 1));
            proof {
                assert(c.drop_last() =~= views(corpus@.subrange(0, i as int)));
                assert(c.last() == corpus@[i as int]@);
            }
            match self.best_match(&corpus[i], pattern) {
                Some(f) => {
                    let ghost before = found@;
                    found.push(f);
                    assert(found_of(found@) =~= found_of(before).push(found@.last()@));
                },
                None => {},
            }
            i = i + 1;
        }
        assert(corpus@.subrange(0, corpus@.len() as int) =~= corpus@);
        found
    }

    /// Rank `corpus` against `query`, best first.
    ///
    /// A Word is ranked by its strongest band: if the query matches both the
    /// spelling and a sentence, it is a Word hit. Within a band the matcher's
    /// own score orders results, and ties break on spelling.
    pub fn run(&mut self, corpus: &Vec<CorpusWord>, query: &str) -> (results: Vec<SearchResult>)
        ensures
            found_of(results@) == search_results(views(corpus@), query@),
    {
        let pattern = trim(query);
        if pattern.as_str().is_empty() {
            return Vec::new();
        }
        let found = self.matching(corpus, &pattern);
        rank(found)
    }
}

/// The best-scoring of `haystacks`, given the score `scores[i]` of each
/// `haystacks[i]`, and its score.
pub fn best_by_score(haystacks: &Vec<String>, scores: &Vec<Option<u32>>) -> (b: Option<(u32, String)>)
    requires
        scores@.len() == haystacks@.len(),
    ensures
        match b {
            Some((s, t)) => best_scored(texts(haystacks@), scores@) == Some((s, t@)),
            None => best_scored(texts(haystacks@), scores@) is None,
        },
{
    let mut best: Option<(u32, String)> = None;
    let mut i: usize = 0;
    while i < haystacks.len()
        invariant
            0 <= i <= haystacks@.len(),
            scores@.len() == haystacks@.len(),
            match best {
                Some((s, t)) => best_scored(texts(haystacks@.take(i as int)), scores@.take(i as int))
                    == Some((s, t@)),
                None => best_scored(texts(haystacks@.take(i as int)), scores@.take(i as int)) is None,
            },
        decreases haystacks@.len() - i,
    {
        proof {
            let hs = texts(haystacks@.take(i + 1));
            assert(hs.drop_last() =~= texts(haystacks@.take(i as int)));
            assert(scores@.take(i + 1).drop_last() =~= scores@.take(i as int));
            assert(hs.last() == haystacks@[i as int]@);
            assert(scores@.take(i + 1)[hs.len() - 1] == scores@[i as int]);
        }
        match scores[i] {
            Some(s) => {
                let replace = match &best {
                    Some((r, _)) => s >= *r,
                    None => true,
                };
                if replace {
                    best = Some((s, haystacks[i].clone()));
                }
            },
            None => {},
        }
        i = i + 1;
    }
    assert(haystacks@.take(haystacks@.len() as int) =~= haystacks@);
    assert(scores@.take(scores@.len() as int) =~= scores@);
    best
}

/// How `entry` matches, given the matcher's score of its spelling and of each
/// of its sentences and Book names: by its strongest band.
pub fn pick(entry: &CorpusWord, spelling: Option<u32>, sentences: &Vec<Option<u32>>, books: &Vec<
    Option<u32>,
>) -> (r: Option<SearchResult>)
    requires
        sentences@.len() == entry.sentences@.len(),
        books@.len() == entry.books@.len(),
    ensures
        match r {
            Some(f) => chosen(entry@, spelling, sentences@, books@) == Some(f@),
            None => chosen(entry@, spelling, sentences@, books@) is None,
        },
{
    if let Some(score) = spelling {
        return Some(
            SearchResult {
                word_id: entry.word_id,
                spelling: entry.spelling.clone(),
                field: MatchField::Word,
                score,
                context: None,
            },
        );
    }
    if let Some((score, sentence)) = best_by_score(&entry.sentences, sentences) {
        return Some(
            SearchResult {
                word_id: entry.word_id,
                spelling: entry.spelling.clone(),
                field: MatchField::Sentence,
                score,
                context: Some(sentence),
            },
        );
    }
    match best_by_score(&entry.books, books) {
        Some((score, book)) => Some(
            SearchResult {
                word_id: entry.word_id,
                spelling: entry.spelling.clone(),
                field: MatchField::Book,
                score,
                context: Some(book),
            },
        ),
        None => None,
    }
}

/// `results` best first: a stronger band first, then a higher score, then the
/// spelling; results that rank alike keep the order they came in.
pub fn rank(results: Vec<SearchResult>) -> (ranked_results: Vec<SearchResult>)
    ensures
        found_of(ranked_results@) == ranked(found_of(results@)),
{
    let ghost all = found_of(results@);
    let mut out: Vec<SearchResult> = Vec::new();
    let mut rest = results;
    while rest.len() > 0
        invariant
            rest@.len() <= all.len(),
            found_of(rest@) == all.subrange(all.len() - rest@.len(), all.len() as int),
            found_of(out@) == ranked(all.subrange(0, all.len() - rest@.len())),
        decreases rest@.len(),
    {
        let ghost before = rest@;
        let ghost k = all.len() - before.len();
        let x = rest.remove(0);
        proof {
            assert(found_of(before)[0] == x@);
            assert(all[k] == x@);
            assert(rest@ =~= before.subrange(1, before.len() as int));
            assert forall|i: int| 0 <= i < rest@.len() implies found_of(rest@)[i] == all[k + 1 + i] by {
                assert(rest@[i] == before[i + 1]);
                assert(found_of(before)[i + 1] == all[k + 1 + i]);
            }
            assert(found_of(rest@) =~= all.subrange(k + 1, all.len() as int));
            let pre = all.subrange(0, k + 1);
            assert(pre.drop_last() =~= all.subrange(0, k));
            assert(pre.last() == x@);
        }
        insert_result(&mut out, x);
    }
    proof {
        assert(all.subrange(0, all.len() as int) =~= all);
    }
    out
}

// -- Laws -------------------------------------------------------------------------

pub proof fn lemma_text_before_irreflexive(a: Seq<char>)
    ensures
        !text_before(a, a),
    decreases a.len(),
{
    if a.len() > 0 {
        lemma_text_before_irreflexive(a.drop_first());
    }
}

pub proof fn lemma_text_before_asymmetric(a: Seq<char>, b: Seq<char>)
    ensures
        text_before(a, b) ==> !text_before(b, a),
    decreases a.len(),
{
    if a.len() > 0 && b.len() > 0 && a[0] == b[0] {
        lemma_text_before_asymmetric(a.drop_first(), b.drop_first());
    }
}

pub proof fn lemma_text_before_transitive(a: Seq<char>, b: Seq<char>, c: Seq<char>)
    ensures
        text_before(a, b) && text_before(b, c) ==> text_before(a, c),
    decreases a.len(),
{
    if a.len() > 0 && b.len() > 0 && c.len() > 0 && a[0] == b[0] && b[0] == c[0] {
        lemma_text_before_transitive(a.drop_first(), b.drop_first(), c.drop_first());
    }
}

pub proof fn lemma_text_before_total(a: Seq<char>, b: Seq<char>)
    ensures
        a != b ==> text_before(a, b) || text_before(b, a),
    decreases a.len(),
{
    if a.len() > 0 && b.len() > 0 && a[0] == b[0] {
        lemma_text_before_total(a.drop_first(), b.drop_first());
        if a.drop_first() == b.drop_first() {
            assert(a =~= seq![a[0]] + a.drop_first());
            assert(b =~= seq![b[0]] + b.drop_first());
        }
    } else if a.len() > 0 && b.len() > 0 {
        assert((a[0] as int) != (b[0] as int));
    } else if a.len() == 0 && b.len() == 0 {
        assert(a =~= b);
    }
}

proof fn lemma_not_ahead_transitive(x: Found, y: Found, z: Found)
    requires
        !ranked_ahead(x, y),
        !ranked_ahead(y, z),
    ensures
        !ranked_ahead(x, z),
{
    lemma_text_before_total(x.spelling, y.spelling);
    lemma_text_before_total(y.spelling, z.spelling);
    lemma_text_before_transitive(z.spelling, y.spelling, x.spelling);
    lemma_text_before_asymmetric(x.spelling, z.spelling);
    lemma_text_before_irreflexive(x.spelling);
    lemma_text_before_irreflexive(y.spelling);
    lemma_text_before_asymmetric(x.spelling, y.spelling);
    lemma_text_before_asymmetric(y.spelling, z.spelling);
    if x.spelling == y.spelling {
    }
    if y.spelling == z.spelling {
    }
}

proof fn lemma_ahead_asymmetric(x: Found, y: Found)
    ensures
        ranked_ahead(x, y) ==> !ranked_ahead(y, x),
{
    lemma_text_before_asymmetric(x.spelling, y.spelling);
}

/// No result is ranked ahead of one listed before it.
pub open spec fn in_rank_order(s: Seq<Found>) -> bool {
    forall|i: int, j: int| 0 <= i < j < s.len() ==> !ranked_ahead(#[trigger] s[j], #[trigger] s[i])
}

proof fn lemma_insert_ranked_members(s: Seq<Found>, x: Found)
    ensures
        insert_ranked(s, x).len() == s.len() + 1,
        forall|k: int|
            0 <= k < insert_ranked(s, x).len() ==> #[trigger] insert_ranked(s, x)[k] == x
                || s.contains(insert_ranked(s, x)[k]),
        insert_ranked(s, x).to_multiset() == s.to_multiset().insert(x),
    decreases s.len(),
{
    broadcast use vstd::seq_lib::group_seq_properties;

    if s.len() > 0 && ranked_ahead(x, s.last()) {
        let d = s.drop_last();
        lemma_insert_ranked_members(d, x);
        assert forall|k: int|
            0 <= k < insert_ranked(s, x).len() implies #[trigger] insert_ranked(s, x)[k] == x
            || s.contains(insert_ranked(s, x)[k]) by {
            if k < insert_ranked(d, x).len() {
                let e = insert_ranked(d, x)[k];
                if e != x {
                    let w = choose|w: int| 0 <= w < d.len() && d[w] == e;
                    assert(s[w] == e);
                }
            } else {
                assert(s[s.len() - 1] == s.last());
            }
        }
        assert(s =~= d.push(s.last()));
    }
}

proof fn lemma_insert_ranked_in_order(s: Seq<Found>, x: Found)
    requires
        in_rank_order(s),
    ensures
        in_rank_order(insert_ranked(s, x)),
    decreases s.len(),
{
    if s.len() == 0 {
    } else if ranked_ahead(x, s.last()) {
        let d = s.drop_last();
        assert(in_rank_order(d));
        lemma_insert_ranked_in_order(d, x);
        lemma_insert_ranked_members(d, x);
        let t = insert_ranked(d, x);
        let r = insert_ranked(s, x);
        assert forall|i: int, j: int| 0 <= i < j < r.len() implies !ranked_ahead(
            #[trigger] r[j],
            #[trigger] r[i],
        ) by {
            if j == r.len() - 1 {
                let e = t[i];
                if e == x {
                    lemma_ahead_asymmetric(x, s.last());
                } else {
                    let w = choose|w: int| 0 <= w < d.len() && d[w] == e;
                    assert(s[w] == e);
                    assert(!ranked_ahead(s[s.len() - 1], s[w]));
                }
            } else {
                assert(r[i] == t[i] && r[j] == t[j]);
            }
        }
    } else {
        let r = s.push(x);
        assert forall|i: int, j: int| 0 <= i < j < r.len() implies !ranked_ahead(
            #[trigger] r[j],
            #[trigger] r[i],
        ) by {
            if j == r.len() - 1 {
                if i < s.len() - 1 {
                    assert(!ranked_ahead(s[s.len() - 1], s[i]));
                    lemma_not_ahead_transitive(x, s[s.len() - 1], s[i]);
                }
            } else {
                assert(r[i] == s[i] && r[j] == s[j]);
            }
        }
    }
}

/// Ranking puts results in rank order and loses or adds none.
pub proof fn law_ranking_orders_and_keeps(s: Seq<Found>)
    ensures
        in_rank_order(ranked(s)),
        ranked(s).to_multiset() == s.to_multiset(),
    decreases s.len(),
{
    broadcast use vstd::seq_lib::group_seq_properties;

    if s.len() > 0 {
        law_ranking_orders_and_keeps(s.drop_last());
        lemma_insert_ranked_in_order(ranked(s.drop_last()), s.last());
        lemma_insert_ranked_members(ranked(s.drop_last()), s.last());
        assert(s =~= s.drop_last().push(s.last()));
    }
}

/// Word matches are listed ahead of sentence matches, and sentence matches
/// ahead of Book matches.
pub proof fn law_word_matches_come_first(c: Seq<CorpusView>, query: Seq<char>)
    ensures
        forall|i: int, j: int|
            0 <= i < j < search_results(c, query).len() ==> (#[trigger] search_results(c, query)[i]).field.rank()
                <= (#[trigger] search_results(c, query)[j]).field.rank(),
{
    let q = trimmed(query);
    if q.len() > 0 {
        law_ranking_orders_and_keeps(matches(c, q));
    }
}

/// A blank query matches nothing.
pub proof fn law_blank_query_matches_nothing(c: Seq<CorpusView>, query: Seq<char>)
    requires
        trimmed(query).len() == 0,
    ensures
        search_results(c, query).len() == 0,
{
}

/// No two results are for the same Word.
pub open spec fn distinct_words(s: Seq<Found>) -> bool {
    forall|i: int, j: int| 0 <= i < j < s.len() ==> (#[trigger] s[i]).word_id != (#[trigger] s[j]).word_id
}

/// No two entries of the corpus are the same Word.
pub open spec fn distinct_entries(c: Seq<CorpusView>) -> bool {
    forall|i: int, j: int| 0 <= i < j < c.len() ==> (#[trigger] c[i]).word_id != (#[trigger] c[j]).word_id
}

proof fn lemma_matches_distinct(c: Seq<CorpusView>, q: Seq<char>)
    requires
        distinct_entries(c),
    ensures
        distinct_words(matches(c, q)),
        forall|k: int| 0 <= k < matches(c, q).len() ==> exists|i: int|
            0 <= i < c.len() && #[trigger] matches(c, q)[k].word_id == c[i].word_id,
    decreases c.len(),
{
    if c.len() > 0 {
        let d = c.drop_last();
        assert(distinct_entries(d)) by {
            assert forall|i: int, j: int| 0 <= i < j < d.len() implies (#[trigger] d[i]).word_id
                != (#[trigger] d[j]).word_id by {
                assert(d[i] == c[i] && d[j] == c[j]);
            }
        }
        lemma_matches_distinct(d, q);
        let m = matches(d, q);
        assert forall|k: int| 0 <= k < m.len() implies #[trigger] m[k].word_id != c.last().word_id by {
            let i = choose|i: int| 0 <= i < d.len() && m[k].word_id == d[i].word_id;
            assert(c[i] == d[i]);
            assert(c[c.len() - 1] == c.last());
        }
        match best_match(c.last(), q) {
            Some(f) => {
                let r = m.push(f);
                assert(f.word_id == c.last().word_id);
                assert forall|i: int, j: int| 0 <= i < j < r.len() implies (#[trigger] r[i]).word_id
                    != (#[trigger] r[j]).word_id by {
                    if j == r.len() - 1 {
                        assert(r[i] == m[i]);
                    } else {
                        assert(r[i] == m[i] && r[j] == m[j]);
                    }
                }
                assert forall|k: int| 0 <= k < r.len() implies exists|i: int|
                    0 <= i < c.len() && #[trigger] r[k].word_id == c[i].word_id by {
                    if k == r.len() - 1 {
                        assert(c[c.len() - 1] == c.last());
                    } else {
                        assert(r[k] == m[k]);
                        let i = choose|i: int| 0 <= i < d.len() && m[k].word_id == d[i].word_id;
                        assert(c[i] == d[i]);
                    }
                }
            },
            None => {
                assert forall|k: int| 0 <= k < m.len() implies exists|i: int|
                    0 <= i < c.len() && #[trigger] m[k].word_id == c[i].word_id by {
                    let i = choose|i: int| 0 <= i < d.len() && m[k].word_id == d[i].word_id;
                    assert(c[i] == d[i]);
                }
            },
        }
    }
}

proof fn lemma_ranked_members(s: Seq<Found>)
    ensures
        ranked(s).len() == s.len(),
        forall|k: int| 0 <= k < ranked(s).len() ==> s.contains(#[trigger] ranked(s)[k]),
    decreases s.len(),
{
    if s.len() > 0 {
        let d = s.drop_last();
        lemma_ranked_members(d);
        lemma_insert_ranked_members(ranked(d), s.last());
        let r = ranked(s);
        assert forall|k: int| 0 <= k < r.len() implies s.contains(#[trigger] r[k]) by {
            if r[k] == s.last() {
                assert(s[s.len() - 1] == s.last());
            } else {
                let w = choose|w: int| 0 <= w < ranked(d).len() && ranked(d)[w] == r[k];
                let v = choose|v: int| 0 <= v < d.len() && d[v] == ranked(d)[w];
                assert(s[v] == d[v]);
            }
        }
    }
}

proof fn lemma_ranked_distinct(s: Seq<Found>)
    requires
        distinct_words(s),
    ensures
        distinct_words(ranked(s)),
    decreases s.len(),
{
    if s.len() > 0 {
        let d = s.drop_last();
        let x = s.last();
        assert(distinct_words(d)) by {
            assert forall|i: int, j: int| 0 <= i < j < d.len() implies (#[trigger] d[i]).word_id
                != (#[trigger] d[j]).word_id by {
                assert(d[i] == s[i] && d[j] == s[j]);
            }
        }
        lemma_ranked_distinct(d);
        lemma_ranked_members(d);
        let t = ranked(d);
        assert forall|k: int| 0 <= k < t.len() implies #[trigger] t[k].word_id != x.word_id by {
            let v = choose|v: int| 0 <= v < d.len() && d[v] == t[k];
            assert(s[v] == d[v]);
            assert(s[s.len() - 1] == x);
        }
        lemma_insert_distinct(t, x);
    }
}

proof fn lemma_insert_distinct(s: Seq<Found>, x: Found)
    requires
        distinct_words(s),
        forall|k: int| 0 <= k < s.len() ==> #[trigger] s[k].word_id != x.word_id,
    ensures
        distinct_words(insert_ranked(s, x)),
    decreases s.len(),
{
    if s.len() > 0 && ranked_ahead(x, s.last()) {
        let d = s.drop_last();
        assert(distinct_words(d)) by {
            assert forall|i: int, j: int| 0 <= i < j < d.len() implies (#[trigger] d[i]).word_id
                != (#[trigger] d[j]).word_id by {
                assert(d[i] == s[i] && d[j] == s[j]);
            }
        }
        assert forall|k: int| 0 <= k < d.len() implies #[trigger] d[k].word_id != x.word_id by {
            assert(d[k] == s[k]);
        }
        lemma_insert_distinct(d, x);
        lemma_insert_ranked_members(d, x);
        let t = insert_ranked(d, x);
        let r = insert_ranked(s, x);
        let y = s.last();
        assert(s[s.len() - 1] == y);
        assert forall|i: int, j: int| 0 <= i < j < r.len() implies (#[trigger] r[i]).word_id
            != (#[trigger] r[j]).word_id by {
            if j == r.len() - 1 {
                assert(r[i] == t[i]);
                if t[i] != x {
                    let w = choose|w: int| 0 <= w < d.len() && d[w] == t[i];
                    assert(s[w] == d[w]);
                }
            } else {
                assert(r[i] == t[i] && r[j] == t[j]);
            }
        }
    } else if s.len() > 0 {
        let r = s.push(x);
        assert forall|i: int, j: int| 0 <= i < j < r.len() implies (#[trigger] r[i]).word_id
            != (#[trigger] r[j]).word_id by {
            if j == r.len() - 1 {
                assert(r[i] == s[i]);
            } else {
                assert(r[i] == s[i] && r[j] == s[j]);
            }
        }
    }
}

/// A Word met several times appears once among the results: a corpus that
/// holds each Word once gives results that name each Word at most once.
pub proof fn law_a_word_appears_once_in_results(c: Seq<CorpusView>, query: Seq<char>)
    requires
        distinct_entries(c),
    ensures
        distinct_words(search_results(c, query)),
{
    let q = trimmed(query);
    if q.len() > 0 {
        lemma_matches_distinct(c, q);
        lemma_ranked_distinct(matches(c, q));
    }
}

/// Search over the corpus read from rows in order of Word lists each Word at
/// most once, however many Sightings it has.
pub proof fn law_a_captured_word_is_one_result(rows: Seq<CorpusRow>, query: Seq<char>)
    requires
        forall|i: int, j: int| 0 <= i <= j < rows.len() ==> rows[i].word_id <= rows[j].word_id,
    ensures
        distinct_words(search_results(grouped(rows), query)),
{
    law_each_word_appears_once(rows);
    law_a_word_appears_once_in_results(grouped(rows), query);
}

/// What one Word matches as is that Word: its id and spelling.
proof fn lemma_match_is_its_entry(e: CorpusView, q: Seq<char>)
    ensures
        best_match(e, q) matches Some(f) ==> f.word_id == e.word_id && f.spelling == e.spelling,
{
}

proof fn lemma_matches_from_entries(c: Seq<CorpusView>, q: Seq<char>)
    ensures
        matches(c, q).len() <= c.len(),
        forall|k: int| 0 <= k < matches(c, q).len() ==> exists|i: int|
            0 <= i < c.len() && (#[trigger] matches(c, q)[k]).word_id == c[i].word_id
                && matches(c, q)[k].spelling == c[i].spelling,
    decreases c.len(),
{
    if c.len() > 0 {
        let d = c.drop_last();
        lemma_matches_from_entries(d, q);
        lemma_match_is_its_entry(c.last(), q);
        let m = matches(d, q);
        let r = matches(c, q);
        assert forall|k: int| 0 <= k < r.len() implies exists|i: int|
            0 <= i < c.len() && (#[trigger] r[k]).word_id == c[i].word_id && r[k].spelling == c[i].spelling by {
            if k < m.len() {
                assert(r[k] == m[k]);
                let i = choose|i: int|
                    0 <= i < d.len() && (#[trigger] m[k]).word_id == d[i].word_id && m[k].spelling == d[i].spelling;
                assert(c[i] == d[i]);
            } else {
                assert(c[c.len() - 1] == c.last());
            }
        }
    }
}

/// Each result is one Word of the corpus, under that Word's own id and
/// spelling, and there are never more results than Words.
pub proof fn law_each_result_is_a_word_of_the_corpus(c: Seq<CorpusView>, query: Seq<char>)
    ensures
        search_results(c, query).len() <= c.len(),
        forall|k: int| 0 <= k < search_results(c, query).len() ==> exists|i: int|
            0 <= i < c.len() && (#[trigger] search_results(c, query)[k]).word_id == c[i].word_id
                && search_results(c, query)[k].spelling == c[i].spelling,
{
    let q = trimmed(query);
    if q.len() > 0 {
        let m = matches(c, q);
        lemma_matches_from_entries(c, q);
        lemma_ranked_members(m);
        let r = ranked(m);
        assert forall|k: int| 0 <= k < r.len() implies exists|i: int|
            0 <= i < c.len() && (#[trigger] r[k]).word_id == c[i].word_id && r[k].spelling == c[i].spelling by {
            assert(m.contains(r[k]));
            let v = choose|v: int| 0 <= v < m.len() && m[v] == r[k];
            assert(exists|i: int|
                0 <= i < c.len() && (#[trigger] m[v]).word_id == c[i].word_id && m[v].spelling == c[i].spelling);
        }
    }
}

/// Spaces around a query change nothing: searching for it is searching for
/// it trimmed.
pub proof fn law_surrounding_spaces_change_nothing(c: Seq<CorpusView>, query: Seq<char>)
    ensures
        search_results(c, query) == search_results(c, trimmed(query)),
{
    lemma_trim_idempotent(query);
}

/// The text a Word is found by in the sentence or Book band is the one that
/// scored highest: nothing given scores above it, and among texts that score
/// as well, it is the last. When nothing scored, nothing is found.
pub proof fn law_the_best_scoring_text_is_the_one_found(hs: Seq<Seq<char>>, ss: Seq<Option<u32>>)
    requires
        hs.len() == ss.len(),
    ensures
        (forall|i: int| 0 <= i < ss.len() ==> ss[i] is None) ==> best_scored(hs, ss) is None,
        (exists|i: int| 0 <= i < ss.len() && ss[i] is Some) ==> exists|i: int|
            0 <= i < ss.len() && ss[i] is Some && best_scored(hs, ss) == Some((ss[i]->0, hs[i]))
                && (forall|j: int| 0 <= j < ss.len() && (#[trigger] ss[j]) is Some ==> ss[j]->0 <= ss[i]->0)
                && (forall|j: int| i < j < ss.len() && (#[trigger] ss[j]) is Some ==> ss[j]->0 < ss[i]->0),
    decreases hs.len(),
{
    if hs.len() > 0 {
        let n = hs.len() - 1;
        let d = hs.drop_last();
        let ds = ss.drop_last();
        law_the_best_scoring_text_is_the_one_found(d, ds);
        assert forall|j: int| 0 <= j < n implies ds[j] == ss[j] && d[j] == hs[j] by {}
        if ds.len() > 0 && exists|i: int| 0 <= i < ds.len() && ds[i] is Some {
            let i0 = choose|i: int|
                0 <= i < ds.len() && ds[i] is Some && best_scored(d, ds) == Some((ds[i]->0, d[i]))
                    && (forall|j: int| 0 <= j < ds.len() && (#[trigger] ds[j]) is Some ==> ds[j]->0 <= ds[i]->0)
                    && (forall|j: int| i < j < ds.len() && (#[trigger] ds[j]) is Some ==> ds[j]->0 < ds[i]->0);
            match ss[n] {
                None => {
                    assert(ss[i0] is Some);
                },
                Some(x) => {
                    if x >= ds[i0]->0 {
                        assert(ss[n] is Some);
                    } else {
                        assert(ss[i0] is Some);
                    }
                },
            }
        } else {
            assert forall|j: int| 0 <= j < ds.len() implies ds[j] is None by {}
            if ss[n] is Some {
                assert(ss[n] is Some);
            }
        }
    }
}

/// A Word is found by its strongest band: by its spelling when that matched,
/// else by its best-scoring sentence, else by its best-scoring Book, and not
/// at all when nothing matched. Whatever band, the result names that Word.
pub proof fn law_a_word_is_found_by_its_strongest_band(
    e: CorpusView,
    spelling: Option<u32>,
    sentences: Seq<Option<u32>>,
    books: Seq<Option<u32>>,
)
    requires
        sentences.len() == e.sentences.len(),
        books.len() == e.books.len(),
    ensures
        chosen(e, spelling, sentences, books) matches Some(f) ==> f.word_id == e.word_id && f.spelling
            == e.spelling,
        spelling matches Some(s) ==> chosen(e, spelling, sentences, books) matches Some(f) && f.field
            == MatchField::Word && f.score == s && f.context is None,
        spelling is None && (exists|i: int| 0 <= i < sentences.len() && sentences[i] is Some) ==> exists|i: int|
            0 <= i < sentences.len() && sentences[i] is Some && (chosen(e, spelling, sentences, books) matches Some(
                f,
            ) && f.field == MatchField::Sentence && f.score == sentences[i]->0 && f.context == Some(e.sentences[i]))
                && (forall|j: int|
                0 <= j < sentences.len() && (#[trigger] sentences[j]) is Some ==> sentences[j]->0 <= sentences[i]->0),
        spelling is None && (forall|i: int| 0 <= i < sentences.len() ==> sentences[i] is None) && (exists|i: int|
            0 <= i < books.len() && books[i] is Some) ==> exists|i: int|
            0 <= i < books.len() && books[i] is Some && (chosen(e, spelling, sentences, books) matches Some(f)
                && f.field == MatchField::Book && f.score == books[i]->0 && f.context == Some(e.books[i])) && (
            forall|j: int| 0 <= j < books.len() && (#[trigger] books[j]) is Some ==> books[j]->0 <= books[i]->0),
        spelling is None && (forall|i: int| 0 <= i < sentences.len() ==> sentences[i] is None) && (forall|i: int|
            0 <= i < books.len() ==> books[i] is None) ==> chosen(e, spelling, sentences, books) is None,
{
    law_the_best_scoring_text_is_the_one_found(e.sentences, sentences);
    law_the_best_scoring_text_is_the_one_found(e.books, books);
}

/// Search results come Word matches first, then sentence matches, then Book
/// matches; within a band, higher scores first; and among equal scores, in
/// the order of their spellings.
pub proof fn law_results_are_ranked_by_band_then_score_then_spelling(c: Seq<CorpusView>, query: Seq<char>)
    ensures
        forall|i: int, j: int|
            0 <= i < j < search_results(c, query).len() ==> {
                let a = #[trigger] search_results(c, query)[i];
                let b = #[trigger] search_results(c, query)[j];
                let band_a: int = match a.field {
                    MatchField::Word => 0,
                    MatchField::Sentence => 1,
                    MatchField::Book => 2,
                };
                let band_b: int = match b.field {
                    MatchField::Word => 0,
                    MatchField::Sentence => 1,
                    MatchField::Book => 2,
                };
                &&& band_a <= band_b
                &&& band_a == band_b ==> a.score >= b.score
                &&& band_a == band_b && a.score == b.score ==> !text_before(b.spelling, a.spelling)
            },
{
    let q = trimmed(query);
    if q.len() > 0 {
        law_ranking_orders_and_keeps(matches(c, q));
    }
}

/// Spellings are in the order of their characters: one that runs alike with
/// another up to some point comes first if it ends there, or if its next
/// character comes first.
pub proof fn law_spellings_are_in_character_order(a: Seq<char>, b: Seq<char>, k: int)
    requires
        0 <= k <= a.len(),
        k < b.len(),
        a.take(k) == b.take(k),
        k == a.len() || (a[k] as int) < (b[k] as int),
    ensures
        text_before(a, b),
    decreases k,
{
    if k > 0 {
        assert(a[0] == a.take(k)[0] && b[0] == b.take(k)[0]);
        assert(a.drop_first().take(k - 1) =~= a.take(k).drop_first());
        assert(b.drop_first().take(k - 1) =~= b.take(k).drop_first());
        law_spellings_are_in_character_order(a.drop_first(), b.drop_first(), k - 1);
    }
}

} // verus!
