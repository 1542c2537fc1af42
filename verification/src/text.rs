//! Character-level text handling shared by the rest of the library.
//!
//! Everything here works on the character sequence a string views as, so the
//! contracts elsewhere can speak of text as `Seq<char>`.
use vstd::prelude::*;

verus! {

broadcast use vstd::string::group_string_axioms;

/// std's `String::push`: the character is appended at the end, and nothing
/// else changes.
pub assume_specification[ String::push ](string: &mut String, ch: char)
    ensures
        final(string)@ == old(string)@.push(ch),
;

// -- Whitespace -----------------------------------------------------------

/// Unicode `White_Space`, the property `char::is_whitespace` tests.
pub open spec fn is_ws(c: char) -> bool {
    let u = c as u32;
    ||| 0x09 <= u <= 0x0d
    ||| u == 0x20
    ||| u == 0x85
    ||| u == 0xa0
    ||| u == 0x1680
    ||| 0x2000 <= u <= 0x200a
    ||| u == 0x2028
    ||| u == 0x2029
    ||| u == 0x202f
    ||| u == 0x205f
    ||| u == 0x3000
}

pub fn is_whitespace(c: char) -> (b: bool)
    ensures
        b == is_ws(c),
{
    let u = c as u32;
    (0x09 <= u && u <= 0x0d) || u == 0x20 || u == 0x85 || u == 0xa0 || u == 0x1680 || (0x2000
        <= u && u <= 0x200a) || u == 0x2028 || u == 0x2029 || u == 0x202f || u == 0x205f || u
        == 0x3000
}

/// Where the text of `s` starts once the whitespace in front of index `i` is
/// skipped.
pub open spec fn lead_from(s: Seq<char>, i: int) -> int
    decreases s.len() - i,
{
    if 0 <= i < s.len() && is_ws(s[i]) {
        lead_from(s, i + 1)
    } else {
        i
    }
}

/// Where the text of `s` ends once the whitespace before index `j` (and after
/// `lo`) is dropped.
pub open spec fn end_from(s: Seq<char>, j: int, lo: int) -> int
    decreases j - lo,
{
    if lo < j <= s.len() && is_ws(s[j - 1]) {
        end_from(s, j - 1, lo)
    } else {
        j
    }
}

/// `s` without leading and trailing whitespace, as `str::trim` gives it.
pub open spec fn trimmed(s: Seq<char>) -> Seq<char> {
    let a = lead_from(s, 0);
    s.subrange(a, end_from(s, s.len() as int, a))
}

/// Whether `s` holds a whitespace character anywhere.
pub open spec fn has_ws(s: Seq<char>) -> bool {
    exists|i: int| 0 <= i < s.len() && is_ws(#[trigger] s[i])
}

pub proof fn lemma_lead_bounds(s: Seq<char>, i: int)
    requires
        0 <= i <= s.len(),
    ensures
        i <= lead_from(s, i) <= s.len(),
        forall|k: int| i <= k < lead_from(s, i) ==> is_ws(#[trigger] s[k]),
        lead_from(s, i) < s.len() ==> !is_ws(s[lead_from(s, i)]),
    decreases s.len() - i,
{
    if i < s.len() && is_ws(s[i]) {
        lemma_lead_bounds(s, i + 1);
    }
}

pub proof fn lemma_end_bounds(s: Seq<char>, j: int, lo: int)
    requires
        0 <= lo <= j <= s.len(),
    ensures
        lo <= end_from(s, j, lo) <= j,
        forall|k: int| end_from(s, j, lo) <= k < j ==> is_ws(#[trigger] s[k]),
        end_from(s, j, lo) > lo ==> !is_ws(s[end_from(s, j, lo) - 1]),
    decreases j - lo,
{
    if lo < j && is_ws(s[j - 1]) {
        lemma_end_bounds(s, j - 1, lo);
    }
}

/// The trimmed text neither starts nor ends with whitespace.
pub proof fn lemma_trimmed_shape(s: Seq<char>)
    ensures
        trimmed(s).len() <= s.len(),
        trimmed(s).len() > 0 ==> !is_ws(trimmed(s)[0]) && !is_ws(
            trimmed(s)[trimmed(s).len() - 1],
        ),
        trimmed(s).len() == 0 <==> (forall|k: int| 0 <= k < s.len() ==> is_ws(#[trigger] s[k])),
{
    let a = lead_from(s, 0);
    lemma_lead_bounds(s, 0);
    lemma_end_bounds(s, s.len() as int, a);
    let e = end_from(s, s.len() as int, a);
    if e == a {
        assert forall|k: int| 0 <= k < s.len() implies is_ws(#[trigger] s[k]) by {
            if k >= a {
                assert(e <= k < s.len());
            }
        }
    } else {
        assert(!is_ws(s[a]));
    }
}

/// Trimming twice is trimming once.
pub proof fn lemma_trim_idempotent(s: Seq<char>)
    ensures
        trimmed(trimmed(s)) == trimmed(s),
{
    let t = trimmed(s);
    lemma_trimmed_shape(s);
    lemma_lead_bounds(t, 0);
    if t.len() > 0 {
        assert(lead_from(t, 0) == 0);
        assert(end_from(t, t.len() as int, 0) == t.len()) by {
            assert(is_ws(t[t.len() - 1]) == false);
        }
        assert(trimmed(t) =~= t);
    } else {
        assert(trimmed(t) =~= t);
    }
}

// -- Building strings -----------------------------------------------------

/// The characters of `s`, in order.
pub fn chars_of(s: &str) -> (v: Vec<char>)
    ensures
        v@ == s@,
{
    let mut v: Vec<char> = Vec::new();
    for c in it: s.chars()
        invariant
            v@ == it.seq().take(it.index()),
            it.seq() == s@,
    {
        v.push(c);
    }
    v
}

/// Append the characters `v[from..to]` to `out`.
pub fn push_range(out: &mut String, v: &Vec<char>, from: usize, to: usize)
    requires
        from <= to <= v@.len(),
    ensures
        final(out)@ == old(out)@ + v@.subrange(from as int, to as int),
{
    let mut i = from;
    while i < to
        invariant
            from <= i <= to <= v@.len(),
            out@ == old(out)@ + v@.subrange(from as int, i as int),
        decreases to - i,
    {
        out.push(v[i]);
        assert(v@.subrange(from as int, i + 1) =~= v@.subrange(from as int, i as int).push(v@[i as int]));
        i = i + 1;
    }
}

/// A `String` holding exactly the characters `v[from..to]`.
pub fn string_of_range(v: &Vec<char>, from: usize, to: usize) -> (s: String)
    requires
        from <= to <= v@.len(),
    ensures
        s@ == v@.subrange(from as int, to as int),
{
    let mut s = String::new();
    push_range(&mut s, v, from, to);
    assert(s@ =~= v@.subrange(from as int, to as int));
    s
}

/// A `String` holding exactly the characters of `v`.
pub fn string_of(v: &Vec<char>) -> (s: String)
    ensures
        s@ == v@,
{
    let s = string_of_range(v, 0, v.len());
    assert(v@.subrange(0, v@.len() as int) =~= v@);
    s
}

/// A fresh copy of `s`.
pub fn owned(s: &str) -> (r: String)
    ensures
        r@ == s@,
{
    String::from_str(s)
}

/// `a` followed by `b`.
pub fn joined(a: &str, b: &str) -> (r: String)
    ensures
        r@ == a@ + b@,
{
    let mut r = String::from_str(a);
    r.append(b);
    r
}

// -- Trimming -------------------------------------------------------------

/// Where the leading whitespace of `v` ends.
pub fn lead_of(v: &Vec<char>) -> (a: usize)
    ensures
        a == lead_from(v@, 0),
{
    let mut i: usize = 0;
    while i < v.len() && is_whitespace(v[i])
        invariant
            0 <= i <= v@.len(),
            lead_from(v@, i as int) == lead_from(v@, 0),
        decreases v@.len() - i,
    {
        i = i + 1;
    }
    i
}

/// Where the text of `v` ends, looking no further left than `lo`.
pub fn end_of(v: &Vec<char>, lo: usize) -> (e: usize)
    requires
        lo <= v@.len(),
    ensures
        e == end_from(v@, v@.len() as int, lo as int),
{
    let mut j: usize = v.len();
    while j > lo && is_whitespace(v[j - 1])
        invariant
            lo <= j <= v@.len(),
            end_from(v@, j as int, lo as int) == end_from(v@, v@.len() as int, lo as int),
        decreases j,
    {
        j = j - 1;
    }
    j
}

/// The characters of `s` without leading and trailing whitespace.
pub fn trimmed_chars(s: &str) -> (t: Vec<char>)
    ensures
        t@ == trimmed(s@),
{
    let v = chars_of(s);
    let a = lead_of(&v);
    proof {
        lemma_lead_bounds(v@, 0);
    }
    let e = end_of(&v, a);
    proof {
        lemma_end_bounds(v@, v@.len() as int, a as int);
    }
    let mut t: Vec<char> = Vec::new();
    let mut i = a;
    while i < e
        invariant
            a <= i <= e <= v@.len(),
            t@ == v@.subrange(a as int, i as int),
        decreases e - i,
    {
        t.push(v[i]);
        assert(v@.subrange(a as int, i + 1) =~= v@.subrange(a as int, i as int).push(v@[i as int]));
        i = i + 1;
    }
    t
}

/// `s` without leading and trailing whitespace, as `str::trim` gives it.
pub fn trim(s: &str) -> (r: String)
    ensures
        r@ == trimmed(s@),
{
    let t = trimmed_chars(s);
    string_of(&t)
}

/// Whether `s` is empty once trimmed.
pub fn is_blank(s: &str) -> (b: bool)
    ensures
        b == (trimmed(s@).len() == 0),
{
    let t = trimmed_chars(s);
    t.len() == 0
}

/// Whether `v` holds a whitespace character anywhere.
pub fn holds_whitespace(v: &Vec<char>) -> (b: bool)
    ensures
        b == has_ws(v@),
{
    let mut i: usize = 0;
    while i < v.len()
        invariant
            0 <= i <= v@.len(),
            forall|k: int| 0 <= k < i ==> !is_ws(#[trigger] v@[k]),
        decreases v@.len() - i,
    {
        if is_whitespace(v[i]) {
            return true;
        }
        i = i + 1;
    }
    false
}

// -- Comparing --------------------------------------------------------------

/// Whether the two character sequences are the same.
pub fn same_chars(a: &Vec<char>, b: &Vec<char>) -> (r: bool)
    ensures
        r == (a@ == b@),
{
    if a.len() != b.len() {
        return false;
    }
    let mut i: usize = 0;
    while i < a.len()
        invariant
            a@.len() == b@.len(),
            0 <= i <= a@.len(),
            forall|k: int| 0 <= k < i ==> a@[k] == b@[k],
        decreases a@.len() - i,
    {
        if a[i] != b[i] {
            return false;
        }
        i = i + 1;
    }
    assert(a@ =~= b@);
    true
}

/// Whether `a` and `b` are the same text.
pub fn same_text(a: &str, b: &str) -> (r: bool)
    ensures
        r == (a@ == b@),
{
    same_chars(&chars_of(a), &chars_of(b))
}

/// Whether `s` begins with `p`.
pub open spec fn begins_with(s: Seq<char>, p: Seq<char>) -> bool {
    p.len() <= s.len() && s.subrange(0, p.len() as int) == p
}

pub fn starts_with(s: &str, p: &str) -> (r: bool)
    ensures
        r == begins_with(s@, p@),
{
    let sv = chars_of(s);
    let pv = chars_of(p);
    if pv.len() > sv.len() {
        return false;
    }
    let mut i: usize = 0;
    while i < pv.len()
        invariant
            sv@ == s@,
            pv@ == p@,
            pv@.len() <= sv@.len(),
            0 <= i <= pv@.len(),
            forall|k: int| 0 <= k < i ==> sv@[k] == pv@[k],
        decreases pv@.len() - i,
    {
        if sv[i] != pv[i] {
            assert(sv@.subrange(0, pv@.len() as int)[i as int] == sv@[i as int]);
            return false;
        }
        i = i + 1;
    }
    assert(sv@.subrange(0, pv@.len() as int) =~= pv@);
    true
}

/// ASCII letters folded to lower case, as `eq_ignore_ascii_case` compares them.
pub open spec fn ascii_fold(c: char) -> u32 {
    let u = c as u32;
    if 0x41 <= u <= 0x5a {
        (u + 0x20) as u32
    } else {
        u
    }
}

/// Equal once ASCII letters are folded to lower case.
pub open spec fn same_ignoring_ascii_case(a: Seq<char>, b: Seq<char>) -> bool {
    a.len() == b.len() && forall|k: int| 0 <= k < a.len() ==> ascii_fold(a[k]) == ascii_fold(b[k])
}

pub fn fold(c: char) -> (u: u32)
    ensures
        u == ascii_fold(c),
{
    let u = c as u32;
    if 0x41 <= u && u <= 0x5a {
        u + 0x20
    } else {
        u
    }
}

pub fn eq_ignore_ascii_case(a: &Vec<char>, b: &Vec<char>) -> (r: bool)
    ensures
        r == same_ignoring_ascii_case(a@, b@),
{
    if a.len() != b.len() {
        return false;
    }
    let mut i: usize = 0;
    while i < a.len()
        invariant
            a@.len() == b@.len(),
            0 <= i <= a@.len(),
            forall|k: int| 0 <= k < i ==> ascii_fold(a@[k]) == ascii_fold(b@[k]),
        decreases a@.len() - i,
    {
        if fold(a[i]) != fold(b[i]) {
            return false;
        }
        i = i + 1;
    }
    true
}

// -- Splitting ------------------------------------------------------------

/// The index of the first whitespace character in `s`, if there is one.
pub open spec fn first_ws_from(s: Seq<char>, i: int) -> int
    decreases s.len() - i,
{
    if i < 0 || i >= s.len() {
        s.len() as int
    } else if is_ws(s[i]) {
        i
    } else {
        first_ws_from(s, i + 1)
    }
}

pub open spec fn first_ws(s: Seq<char>) -> int {
    first_ws_from(s, 0)
}

pub proof fn lemma_first_ws(s: Seq<char>, i: int)
    requires
        0 <= i <= s.len(),
    ensures
        i <= first_ws_from(s, i) <= s.len(),
        forall|k: int| i <= k < first_ws_from(s, i) ==> !is_ws(#[trigger] s[k]),
        first_ws_from(s, i) < s.len() ==> is_ws(s[first_ws_from(s, i)]),
    decreases s.len() - i,
{
    if i < s.len() && !is_ws(s[i]) {
        lemma_first_ws(s, i + 1);
    }
}

/// `str::split_once(char::is_whitespace)`: the text before the first
/// whitespace character and the text after it.
pub open spec fn split_ws(s: Seq<char>) -> Option<(Seq<char>, Seq<char>)> {
    let i = first_ws(s);
    if i < s.len() {
        Some((s.subrange(0, i), s.subrange(i + 1, s.len() as int)))
    } else {
        None
    }
}

pub fn split_once_ws(v: &Vec<char>) -> (r: Option<(Vec<char>, Vec<char>)>)
    ensures
        match r {
            Some((a, b)) => split_ws(v@) == Some((a@, b@)),
            None => split_ws(v@) is None,
        },
{
    let mut i: usize = 0;
    while i < v.len() && !is_whitespace(v[i])
        invariant
            0 <= i <= v@.len(),
            first_ws_from(v@, i as int) == first_ws(v@),
        decreases v@.len() - i,
    {
        i = i + 1;
    }
    if i == v.len() {
        return None;
    }
    let mut a: Vec<char> = Vec::new();
    let mut b: Vec<char> = Vec::new();
    let mut k: usize = 0;
    while k < i
        invariant
            0 <= k <= i < v@.len(),
            a@ == v@.subrange(0, k as int),
        decreases i - k,
    {
        a.push(v[k]);
        assert(v@.subrange(0, k + 1) =~= v@.subrange(0, k as int).push(v@[k as int]));
        k = k + 1;
    }
    let mut k = i + 1;
    while k < v.len()
        invariant
            i < k <= v@.len(),
            b@ == v@.subrange(i + 1, k as int),
        decreases v@.len() - k,
    {
        b.push(v[k]);
        assert(v@.subrange(i + 1, k + 1) =~= v@.subrange(i + 1, k as int).push(v@[k as int]));
        k = k + 1;
    }
    Some((a, b))
}

// -- Numbers --------------------------------------------------------------

pub open spec fn digit(d: nat) -> char {
    (0x30 + d) as char
}

/// The decimal digits of `n`, most significant first, with no padding.
pub open spec fn decimal(n: nat) -> Seq<char>
    decreases n,
{
    if n < 10 {
        seq![digit(n)]
    } else {
        decimal(n / 10).push(digit(n % 10))
    }
}

pub fn digit_char(d: u64) -> (c: char)
    requires
        d < 10,
    ensures
        c == digit(d as nat),
{
    match d {
        0 => '0',
        1 => '1',
        2 => '2',
        3 => '3',
        4 => '4',
        5 => '5',
        6 => '6',
        7 => '7',
        8 => '8',
        _ => '9',
    }
}

/// Append the decimal digits of `n` to `out`.
pub fn push_decimal(out: &mut String, n: u64)
    ensures
        final(out)@ == old(out)@ + decimal(n as nat),
    decreases n,
{
    if n >= 10 {
        push_decimal(out, n / 10);
    }
    out.push(digit_char(n % 10));
    assert(out@ =~= old(out)@ + decimal(n as nat));
}

pub proof fn lemma_decimal_len(n: nat)
    ensures
        decimal(n).len() >= 1,
        n < 10 ==> decimal(n).len() == 1,
        n < 100 ==> decimal(n).len() <= 2,
        n < 1000 ==> decimal(n).len() <= 3,
        n < 10000 ==> decimal(n).len() <= 4,
        n >= 10 ==> decimal(n).len() >= 2,
        n >= 100 ==> decimal(n).len() >= 3,
        n >= 1000 ==> decimal(n).len() >= 4,
    decreases n,
{
    if n >= 10 {
        lemma_decimal_len(n / 10);
    }
}

/// `c` repeated `k` times.
pub open spec fn repeat(c: char, k: nat) -> Seq<char> {
    Seq::new(k, |i: int| c)
}

pub fn push_repeat(out: &mut String, c: char, k: usize)
    ensures
        final(out)@ == old(out)@ + repeat(c, k as nat),
{
    let mut i: usize = 0;
    while i < k
        invariant
            0 <= i <= k,
            out@ == old(out)@ + repeat(c, i as nat),
        decreases k - i,
    {
        out.push(c);
        assert(repeat(c, (i + 1) as nat) =~= repeat(c, i as nat).push(c));
        i = i + 1;
    }
}

} // verus!
