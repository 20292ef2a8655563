use unicode_width::UnicodeWidthStr;
use vstd::prelude::*;

verus! {

/// What full Unicode lower-case mapping makes of a text.
pub uninterp spec fn lower_of(s: Seq<char>) -> Seq<char>;

/// What full Unicode upper-case mapping makes of a text.
pub uninterp spec fn upper_of(s: Seq<char>) -> Seq<char>;

/// The number of terminal columns a text occupies.
pub uninterp spec fn width_of(s: Seq<char>) -> nat;

/// Relies on `str::to_lowercase`: the result depends on the characters alone.
#[verifier::external_body]
pub(crate) fn lowercase(s: &str) -> (r: String)
    ensures
        r@ == lower_of(s@),
        s@.len() == 0 ==> r@.len() == 0,
{
    s.to_lowercase()
}

/// Relies on `str::to_uppercase`: the result depends on the characters alone.
#[verifier::external_body]
pub(crate) fn uppercase(s: &str) -> (r: String)
    ensures
        r@ == upper_of(s@),
        s@.len() == 0 ==> r@.len() == 0,
{
    s.to_uppercase()
}

/// Relies on `unicode_width::UnicodeWidthStr::width`: the sum of the widths of the
/// characters, so an empty text has width 0.
#[verifier::external_body]
pub(crate) fn display_width(s: &str) -> (r: usize)
    ensures
        r == width_of(s@),
        s@.len() == 0 ==> r == 0,
{
    s.width()
}

/// Whether `w` stands in `s` at position `i`.
pub open spec fn occurs_at(s: Seq<char>, w: Seq<char>, i: int) -> bool {
    0 <= i && i + w.len() <= s.len() && s.subrange(i, i + w.len()) == w
}

pub open spec fn has_prefix(s: Seq<char>, w: Seq<char>) -> bool {
    occurs_at(s, w, 0)
}

pub open spec fn has_suffix(s: Seq<char>, w: Seq<char>) -> bool {
    occurs_at(s, w, s.len() - w.len())
}

pub open spec fn has_infix(s: Seq<char>, w: Seq<char>) -> bool {
    exists|i: int| occurs_at(s, w, i)
}

/// `s` with every occurrence of `w` replaced by `r`, scanning left to right without
/// overlaps. An empty `w` occurs before each character and at the end.
pub open spec fn replace_all(s: Seq<char>, w: Seq<char>, r: Seq<char>) -> Seq<char>
    decreases s.len(),
{
    if w.len() == 0 {
        if s.len() == 0 {
            r
        } else {
            r + seq![s[0]] + replace_all(s.skip(1), w, r)
        }
    } else if s.len() < w.len() {
        s
    } else if s.take(w.len() as int) == w {
        r + replace_all(s.skip(w.len() as int), w, r)
    } else {
        seq![s[0]] + replace_all(s.skip(1), w, r)
    }
}

/// Whether `w` stands in `s` at position `i`.
pub fn matches_at(s: &str, w: &str, i: usize) -> (r: bool)
    ensures
        r == occurs_at(s@, w@, i as int),
{
    let n = s.unicode_len();
    let m = w.unicode_len();
    if i > n || m > n - i {
        return false;
    }
    let mut j: usize = 0;
    while j < m
        invariant
            n == s@.len(),
            m == w@.len(),
            i + m <= n,
            j <= m,
            forall|k: int| 0 <= k < j ==> s@[i + k] == w@[k],
        decreases m - j,
    {
        if s.get_char(i + j) != w.get_char(j) {
            assert(s@.subrange(i as int, i + m)[j as int] != w@[j as int]);
            return false;
        }
        j = j + 1;
    }
    assert(s@.subrange(i as int, i + m) =~= w@);
    true
}

/// Whether two texts are equal.
pub fn text_eq(a: &str, b: &str) -> (r: bool)
    ensures
        r == (a@ == b@),
{
    if a.unicode_len() != b.unicode_len() {
        return false;
    }
    let r = matches_at(a, b, 0);
    assert(a@.subrange(0, a@.len() as int) =~= a@);
    r
}

/// Whether `p` is a regular expression that the `regex` crate accepts.
pub uninterp spec fn regex_valid(p: Seq<char>) -> bool;

/// Whether the regular expression `p` matches somewhere in `s`.
pub uninterp spec fn regex_matches(p: Seq<char>, s: Seq<char>) -> bool;

/// Relies on `regex::Regex::new`, which accepts or refuses a pattern by its text alone,
/// and `regex::Regex::is_match`, which looks for a match anywhere in `s`. A refusal
/// carries the crate's message.
#[verifier::external_body]
pub(crate) fn regex_search(p: &str, s: &str) -> (r: Result<bool, String>)
    ensures
        r is Ok <==> regex_valid(p@),
        r matches Ok(b) ==> b == regex_matches(p@, s@),
{
    match regex::Regex::new(p) {
        Ok(re) => Ok(re.is_match(s)),
        Err(e) => Err(e.to_string()),
    }
}

/// Whether `s` begins with `w`.
pub fn text_starts_with(s: &str, w: &str) -> (r: bool)
    ensures
        r == has_prefix(s@, w@),
{
    matches_at(s, w, 0)
}

/// Whether `s` ends with `w`.
pub fn text_ends_with(s: &str, w: &str) -> (r: bool)
    ensures
        r == has_suffix(s@, w@),
{
    let n = s.unicode_len();
    let m = w.unicode_len();
    if m > n {
        return false;
    }
    matches_at(s, w, n - m)
}

/// Whether `w` occurs anywhere in `s`.
pub fn text_contains(s: &str, w: &str) -> (r: bool)
    ensures
        r == has_infix(s@, w@),
{
    let n = s.unicode_len();
    let m = w.unicode_len();
    if m > n {
        return false;
    }
    let last = n - m;
    let mut i: usize = 0;
    loop
        invariant
            n == s@.len(),
            m == w@.len(),
            last == n - m,
            i <= last,
            forall|k: int| 0 <= k < i ==> !occurs_at(s@, w@, k),
        decreases last - i,
    {
        if matches_at(s, w, i) {
            return true;
        }
        if i == last {
            assert(forall|k: int| #![auto] k > last ==> !occurs_at(s@, w@, k));
            return false;
        }
        i = i + 1;
    }
}

proof fn lemma_replace_step(s: Seq<char>, w: Seq<char>, r: Seq<char>, i: int)
    requires
        w.len() > 0,
        0 <= i < s.len(),
        i + w.len() <= s.len(),
    ensures
        occurs_at(s, w, i) ==> replace_all(s.skip(i), w, r) == r + replace_all(
            s.skip(i + w.len()),
            w,
            r,
        ),
        !occurs_at(s, w, i) ==> replace_all(s.skip(i), w, r) == seq![s[i]] + replace_all(
            s.skip(i + 1),
            w,
            r,
        ),
{
    let t = s.skip(i);
    assert(t.take(w.len() as int) =~= s.subrange(i, i + w.len()));
    assert(t.skip(w.len() as int) =~= s.skip(i + w.len()));
    assert(t.skip(1) =~= s.skip(i + 1));
}

/// `s` with every occurrence of `w` replaced by `r`.
pub fn replace_text(s: &str, w: &str, r: &str) -> (res: String)
    ensures
        res@ == replace_all(s@, w@, r@),
{
    let n = s.unicode_len();
    let m = w.unicode_len();
    let mut res = String::new();
    let mut i: usize = 0;
    assert(s@.skip(0) =~= s@);
    if m == 0 {
        while i < n
            invariant
                n == s@.len(),
                m == w@.len() == 0,
                i <= n,
                res@ + replace_all(s@.skip(i as int), w@, r@) == replace_all(s@, w@, r@),
            decreases n - i,
        {
            assert(s@.skip(i as int).skip(1) =~= s@.skip(i + 1));
            res.append(r);
            res.append(s.substring_char(i, i + 1));
            i = i + 1;
            assert(res@ + replace_all(s@.skip(i as int), w@, r@) =~= replace_all(s@, w@, r@));
        }
        assert(s@.skip(i as int).len() == 0);
        res.append(r);
        return res;
    }
    while i < n
        invariant
            n == s@.len(),
            m == w@.len() > 0,
            i <= n,
            res@ + replace_all(s@.skip(i as int), w@, r@) == replace_all(s@, w@, r@),
        decreases n - i,
    {
        if m > n - i {
            assert(replace_all(s@.skip(i as int), w@, r@) == s@.skip(i as int));
            res.append(s.substring_char(i, n));
            assert(s@.subrange(i as int, n as int) =~= s@.skip(i as int));
            return res;
        }
        proof {
            lemma_replace_step(s@, w@, r@, i as int);
        }
        if matches_at(s, w, i) {
            res.append(r);
            i = i + m;
            assert(res@ + replace_all(s@.skip(i as int), w@, r@) =~= replace_all(s@, w@, r@));
        } else {
            res.append(s.substring_char(i, i + 1));
            i = i + 1;
            assert(res@ + replace_all(s@.skip(i as int), w@, r@) =~= replace_all(s@, w@, r@));
        }
    }
    assert(s@.skip(i as int).len() == 0);
    assert(res@ =~= replace_all(s@, w@, r@));
    res
}

/// Whether a character is white space in Unicode's sense.
pub open spec fn is_space(c: char) -> bool {
    ('\u{9}' <= c && c <= '\u{d}') || c == ' ' || c == '\u{85}' || c == '\u{a0}' || c
        == '\u{1680}' || ('\u{2000}' <= c && c <= '\u{200a}') || c == '\u{2028}' || c
        == '\u{2029}' || c == '\u{202f}' || c == '\u{205f}' || c == '\u{3000}'
}

pub fn char_is_space(c: char) -> (r: bool)
    ensures
        r == is_space(c),
{
    ('\u{9}' <= c && c <= '\u{d}') || c == ' ' || c == '\u{85}' || c == '\u{a0}' || c
        == '\u{1680}' || ('\u{2000}' <= c && c <= '\u{200a}') || c == '\u{2028}' || c
        == '\u{2029}' || c == '\u{202f}' || c == '\u{205f}' || c == '\u{3000}'
}

/// What trimming removes: white space, or one given character.
#[derive(Clone, Copy, Debug, PartialEq, Eq)]
pub enum Strip {
    Space,
    Char(char),
}

pub open spec fn strips(m: Strip, c: char) -> bool {
    match m {
        Strip::Space => is_space(c),
        Strip::Char(x) => c == x,
    }
}

/// The number of leading characters of `s` that `m` removes.
pub open spec fn lead(s: Seq<char>, m: Strip) -> nat
    decreases s.len(),
{
    if s.len() > 0 && strips(m, s[0]) {
        1 + lead(s.skip(1), m)
    } else {
        0
    }
}

/// The number of trailing characters of `s` that `m` removes.
pub open spec fn trail(s: Seq<char>, m: Strip) -> nat
    decreases s.len(),
{
    if s.len() > 0 && strips(m, s.last()) {
        1 + trail(s.drop_last(), m)
    } else {
        0
    }
}

pub open spec fn trim_left(s: Seq<char>, m: Strip) -> Seq<char> {
    s.skip(lead(s, m) as int)
}

pub open spec fn trim_right(s: Seq<char>, m: Strip) -> Seq<char> {
    s.take(s.len() - trail(s, m))
}

pub open spec fn trim_both(s: Seq<char>, m: Strip) -> Seq<char> {
    trim_right(trim_left(s, m), m)
}

proof fn lemma_lead(s: Seq<char>, m: Strip, i: int)
    requires
        0 <= i <= s.len(),
        forall|k: int| 0 <= k < i ==> strips(m, #[trigger] s[k]),
        i == s.len() || !strips(m, s[i]),
    ensures
        lead(s, m) == i,
    decreases i,
{
    if i > 0 {
        assert(strips(m, s[0]));
        assert forall|k: int| 0 <= k < i - 1 implies strips(m, #[trigger] s.skip(1)[k]) by {
            assert(strips(m, s[k + 1]));
        }
        lemma_lead(s.skip(1), m, i - 1);
    }
}

proof fn lemma_trail(s: Seq<char>, m: Strip, i: int)
    requires
        0 <= i <= s.len(),
        forall|k: int| i <= k < s.len() ==> strips(m, #[trigger] s[k]),
        i == 0 || !strips(m, s[i - 1]),
    ensures
        trail(s, m) == s.len() - i,
    decreases s.len() - i,
{
    if i < s.len() {
        assert(strips(m, s[s.len() - 1]));
        lemma_trail(s.drop_last(), m, i);
    }
}

/// The number of leading characters of `s` that `m` removes.
fn lead_count(s: &str, m: Strip) -> (r: usize)
    ensures
        r == lead(s@, m),
{
    let n = s.unicode_len();
    let mut i: usize = 0;
    while i < n
        invariant
            n == s@.len(),
            i <= n,
            forall|k: int| 0 <= k < i ==> strips(m, #[trigger] s@[k]),
        ensures
            i <= n,
            forall|k: int| 0 <= k < i ==> strips(m, #[trigger] s@[k]),
            i == n || !strips(m, s@[i as int]),
        decreases n - i,
    {
        let c = s.get_char(i);
        let stripped = match m {
            Strip::Space => char_is_space(c),
            Strip::Char(x) => c == x,
        };
        if !stripped {
            break;
        }
        i = i + 1;
    }
    proof {
        lemma_lead(s@, m, i as int);
    }
    i
}

/// The number of trailing characters of `s` that `m` removes.
fn trail_count(s: &str, m: Strip) -> (r: usize)
    ensures
        r == trail(s@, m),
        r <= s@.len(),
{
    let n = s.unicode_len();
    let mut i: usize = n;
    while i > 0
        invariant
            n == s@.len(),
            i <= n,
            forall|k: int| i <= k < n ==> strips(m, #[trigger] s@[k]),
        ensures
            i <= n,
            forall|k: int| i <= k < n ==> strips(m, #[trigger] s@[k]),
            i == 0 || !strips(m, s@[i - 1]),
        decreases i,
    {
        let c = s.get_char(i - 1);
        let stripped = match m {
            Strip::Space => char_is_space(c),
            Strip::Char(x) => c == x,
        };
        if !stripped {
            break;
        }
        i = i - 1;
    }
    proof {
        lemma_trail(s@, m, i as int);
    }
    n - i
}

/// `s` without the leading characters that `m` removes.
pub fn trim_start_text(s: &str, m: Strip) -> (r: &str)
    ensures
        r@ == trim_left(s@, m),
{
    let n = s.unicode_len();
    let a = lead_count(s, m);
    proof {
        lemma_lead_bound(s@, m);
    }
    let r = s.substring_char(a, n);
    assert(r@ =~= trim_left(s@, m));
    r
}

/// `s` without the trailing characters that `m` removes.
pub fn trim_end_text(s: &str, m: Strip) -> (r: &str)
    ensures
        r@ == trim_right(s@, m),
{
    let n = s.unicode_len();
    let b = trail_count(s, m);
    let r = s.substring_char(0, n - b);
    assert(r@ =~= trim_right(s@, m));
    r
}

proof fn lemma_lead_bound(s: Seq<char>, m: Strip)
    ensures
        lead(s, m) <= s.len(),
    decreases s.len(),
{
    if s.len() > 0 && strips(m, s[0]) {
        lemma_lead_bound(s.skip(1), m);
    }
}

proof fn lemma_lead_stop(s: Seq<char>, m: Strip)
    ensures
        lead(s, m) <= s.len(),
        lead(s, m) < s.len() ==> !strips(m, s[lead(s, m) as int]),
    decreases s.len(),
{
    if s.len() > 0 && strips(m, s[0]) {
        lemma_lead_stop(s.skip(1), m);
        if lead(s, m) < s.len() {
            assert(s.skip(1)[lead(s.skip(1), m) as int] == s[lead(s, m) as int]);
        }
    }
}

proof fn lemma_trail_stop(s: Seq<char>, m: Strip)
    ensures
        trail(s, m) <= s.len(),
        trail(s, m) < s.len() ==> !strips(m, s[s.len() - trail(s, m) - 1]),
    decreases s.len(),
{
    if s.len() > 0 && strips(m, s.last()) {
        lemma_trail_stop(s.drop_last(), m);
        if trail(s, m) < s.len() {
            assert(s.drop_last()[s.drop_last().len() - trail(s.drop_last(), m) - 1] == s[s.len()
                - trail(s, m) - 1]);
        }
    }
}

/// Trimming both ends leaves a text that neither starts nor ends with what is trimmed.
pub proof fn law_trim_ends(s: Seq<char>, m: Strip)
    ensures
        trim_both(s, m).len() > 0 ==> !strips(m, trim_both(s, m)[0]) && !strips(
            m,
            trim_both(s, m).last(),
        ),
{
    let l = trim_left(s, m);
    lemma_lead_stop(s, m);
    lemma_trail_stop(l, m);
    let r = trim_both(s, m);
    if r.len() > 0 {
        assert(r[0] == l[0]);
        lemma_lead_stop(s, m);
        assert(l[0] == s[lead(s, m) as int]);
        assert(r.last() == l[l.len() - trail(l, m) - 1]);
    }
}

} // verus!
