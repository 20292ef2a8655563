use vstd::prelude::*;

verus! {

/// The characters that the path functions look for.
#[derive(Clone, Copy, Debug, PartialEq, Eq)]
pub enum Mark {
    Sep,
    Dot,
}

pub open spec fn is_sep(c: char) -> bool {
    c == '/' || c == '\\'
}

pub open spec fn marks(m: Mark, c: char) -> bool {
    match m {
        Mark::Sep => is_sep(c),
        Mark::Dot => c == '.',
    }
}

/// The index of the last character of `s` that `m` marks, or -1.
pub open spec fn last_mark(s: Seq<char>, m: Mark) -> int
    decreases s.len(),
{
    if s.len() == 0 {
        -1
    } else if marks(m, s.last()) {
        s.len() - 1
    } else {
        last_mark(s.drop_last(), m)
    }
}

/// The last component of a path: what follows its last separator.
pub open spec fn file_name(p: Seq<char>) -> Seq<char> {
    p.skip(last_mark(p, Mark::Sep) + 1)
}

/// The path without its last component: empty when there is no separator, the root
/// when the only separator leads.
pub open spec fn parent(p: Seq<char>) -> Seq<char> {
    let k = last_mark(p, Mark::Sep);
    if k < 0 {
        Seq::empty()
    } else if k == 0 {
        p.take(1)
    } else {
        p.take(k)
    }
}

/// A file name has an extension when it holds a dot after its first character.
pub open spec fn has_ext(p: Seq<char>) -> bool {
    last_mark(file_name(p), Mark::Dot) > 0
}

/// The extension: what follows the last dot of the file name.
pub open spec fn ext(p: Seq<char>) -> Seq<char> {
    if has_ext(p) {
        file_name(p).skip(last_mark(file_name(p), Mark::Dot) + 1)
    } else {
        Seq::empty()
    }
}

/// The file name without its extension and the dot before it.
pub open spec fn stem(p: Seq<char>) -> Seq<char> {
    if has_ext(p) {
        file_name(p).take(last_mark(file_name(p), Mark::Dot))
    } else {
        file_name(p)
    }
}

/// `p` with its extension replaced by `e`, or removed when `e` is empty. A path without a
/// file name stays as it is.
pub open spec fn with_ext(p: Seq<char>, e: Seq<char>) -> Seq<char> {
    if file_name(p).len() == 0 {
        p
    } else {
        let base = if has_ext(p) {
            p.take(p.len() - ext(p).len() - 1)
        } else {
            p
        };
        if e.len() == 0 {
            base
        } else {
            base + seq!['.'] + e
        }
    }
}

/// An absolute path starts at a separator or with a drive letter and a colon.
pub open spec fn is_absolute(b: Seq<char>) -> bool {
    (b.len() > 0 && is_sep(b[0])) || (b.len() > 1 && b[1] == ':' && (('a' <= b[0] && b[0]
        <= 'z') || ('A' <= b[0] && b[0] <= 'Z')))
}

/// The separator that a path already uses last, else `/`.
pub open spec fn sep_of(a: Seq<char>) -> char {
    let k = last_mark(a, Mark::Sep);
    if k >= 0 {
        a[k]
    } else {
        '/'
    }
}

/// `b` joined onto `a`: an absolute `b` replaces `a`; otherwise a separator goes between
/// them unless `a` is empty or already ends with one.
pub open spec fn join(a: Seq<char>, b: Seq<char>) -> Seq<char> {
    if is_absolute(b) {
        b
    } else if a.len() == 0 || is_sep(a.last()) {
        a + b
    } else {
        a + seq![sep_of(a)] + b
    }
}

/// `p` with its file name replaced by `n`.
pub open spec fn with_name(p: Seq<char>, n: Seq<char>) -> Seq<char> {
    if file_name(p).len() > 0 {
        join(parent(p), n)
    } else {
        join(p, n)
    }
}

/// `p` with its stem replaced by `st`, the extension kept.
pub open spec fn with_stem(p: Seq<char>, st: Seq<char>) -> Seq<char> {
    join(
        parent(p),
        if ext(p).len() == 0 {
            st
        } else {
            st + seq!['.'] + ext(p)
        },
    )
}

pub proof fn lemma_last_mark(s: Seq<char>, m: Mark)
    ensures
        -1 <= last_mark(s, m) < s.len(),
        last_mark(s, m) >= 0 ==> marks(m, s[last_mark(s, m)]),
        forall|k: int| last_mark(s, m) < k < s.len() ==> !marks(m, #[trigger] s[k]),
    decreases s.len(),
{
    if s.len() > 0 && !marks(m, s.last()) {
        lemma_last_mark(s.drop_last(), m);
        assert forall|k: int| last_mark(s, m) < k < s.len() implies !marks(m, #[trigger] s[k]) by {
            if k < s.len() - 1 {
                assert(s[k] == s.drop_last()[k]);
            }
        }
    }
}

proof fn lemma_last_mark_prefix(s: Seq<char>, m: Mark, i: int)
    requires
        0 <= i <= s.len(),
        forall|k: int| i <= k < s.len() ==> !marks(m, #[trigger] s[k]),
    ensures
        last_mark(s, m) == last_mark(s.take(i), m),
    decreases s.len() - i,
{
    if i < s.len() {
        assert(!marks(m, s[s.len() - 1]));
        lemma_last_mark_prefix(s.drop_last(), m, i);
        assert(s.drop_last().take(i) =~= s.take(i));
    } else {
        assert(s.take(i) =~= s);
    }
}

/// Where the last character that `m` marks stands in `s`.
pub fn last_mark_pos(s: &str, m: Mark) -> (r: Option<usize>)
    ensures
        match r {
            Some(k) => k == last_mark(s@, m),
            None => last_mark(s@, m) == -1,
        },
{
    let n = s.unicode_len();
    let mut i: usize = n;
    while i > 0
        invariant
            n == s@.len(),
            i <= n,
            forall|k: int| i <= k < n ==> !marks(m, #[trigger] s@[k]),
        decreases i,
    {
        let c = s.get_char(i - 1);
        let hit = match m {
            Mark::Sep => c == '/' || c == '\\',
            Mark::Dot => c == '.',
        };
        if hit {
            proof {
                lemma_last_mark_prefix(s@, m, i as int);
                assert(s@.take(i as int).last() == c);
            }
            return Some(i - 1);
        }
        i = i - 1;
    }
    proof {
        lemma_last_mark_prefix(s@, m, 0);
    }
    None
}

/// The last component of a path.
pub fn file_name_of(p: &str) -> (r: &str)
    ensures
        r@ == file_name(p@),
{
    proof {
        lemma_last_mark(p@, Mark::Sep);
    }
    let n = p.unicode_len();
    let start = match last_mark_pos(p, Mark::Sep) {
        Some(k) => k + 1,
        None => 0,
    };
    let r = p.substring_char(start, n);
    assert(r@ =~= file_name(p@));
    r
}

/// The path without its last component.
pub fn parent_of(p: &str) -> (r: &str)
    ensures
        r@ == parent(p@),
{
    proof {
        lemma_last_mark(p@, Mark::Sep);
    }
    let end = match last_mark_pos(p, Mark::Sep) {
        Some(k) => if k == 0 {
            1
        } else {
            k
        },
        None => 0,
    };
    let r = p.substring_char(0, end);
    assert(r@ =~= parent(p@));
    r
}

/// The extension of a path, empty when it has none.
pub fn ext_of(p: &str) -> (r: &str)
    ensures
        r@ == ext(p@),
{
    let name = file_name_of(p);
    proof {
        lemma_last_mark(name@, Mark::Dot);
    }
    let n = name.unicode_len();
    match last_mark_pos(name, Mark::Dot) {
        Some(d) => if d > 0 {
            let r = name.substring_char(d + 1, n);
            assert(r@ =~= ext(p@));
            r
        } else {
            let r = name.substring_char(0, 0);
            assert(r@ =~= ext(p@));
            r
        },
        None => {
            let r = name.substring_char(0, 0);
            assert(r@ =~= ext(p@));
            r
        },
    }
}

/// The stem of a path: its file name without the extension.
pub fn stem_of(p: &str) -> (r: &str)
    ensures
        r@ == stem(p@),
{
    let name = file_name_of(p);
    proof {
        lemma_last_mark(name@, Mark::Dot);
    }
    match last_mark_pos(name, Mark::Dot) {
        Some(d) => if d > 0 {
            let r = name.substring_char(0, d);
            assert(r@ =~= stem(p@));
            r
        } else {
            name
        },
        None => name,
    }
}

/// `b` joined onto `a`.
pub fn join_text(a: &str, b: &str) -> (r: String)
    ensures
        r@ == join(a@, b@),
{
    let bn = b.unicode_len();
    let abs = (bn > 0 && (b.get_char(0) == '/' || b.get_char(0) == '\\')) || (bn > 1
        && b.get_char(1) == ':' && (('a' <= b.get_char(0) && b.get_char(0) <= 'z') || ('A'
        <= b.get_char(0) && b.get_char(0) <= 'Z')));
    if abs {
        return String::from_str(b);
    }
    let an = a.unicode_len();
    let mut r = String::from_str(a);
    if an > 0 {
        let last = a.get_char(an - 1);
        if last != '/' && last != '\\' {
            proof {
                lemma_last_mark(a@, Mark::Sep);
            }
            let sep = match last_mark_pos(a, Mark::Sep) {
                Some(k) => a.substring_char(k, k + 1),
                None => {
                    proof {
                        reveal_strlit("/");
                    }
                    "/"
                },
            };
            assert(sep@ =~= seq![sep_of(a@)]);
            r.append(sep);
        }
    }
    r.append(b);
    assert(r@ =~= join(a@, b@));
    r
}

/// `p` with its extension replaced by `e`, or removed when `e` is empty.
pub fn with_ext_text(p: &str, e: &str) -> (r: String)
    ensures
        r@ == with_ext(p@, e@),
{
    let name = file_name_of(p);
    if name.unicode_len() == 0 {
        return String::from_str(p);
    }
    let n = p.unicode_len();
    let x = ext_of(p);
    let keep = if has_ext_text(p) {
        proof {
            lemma_ext_fits(p@);
        }
        n - x.unicode_len() - 1
    } else {
        n
    };
    let mut r = String::from_str(p.substring_char(0, keep));
    if e.unicode_len() > 0 {
        proof {
            reveal_strlit(".");
        }
        r.append(".");
        r.append(e);
    }
    assert(r@ =~= with_ext(p@, e@));
    r
}

proof fn lemma_ext_fits(p: Seq<char>)
    requires
        has_ext(p),
    ensures
        ext(p).len() + 1 <= p.len(),
{
    lemma_last_mark(p, Mark::Sep);
    lemma_last_mark(file_name(p), Mark::Dot);
}

/// Whether the file name of `p` has an extension.
pub fn has_ext_text(p: &str) -> (r: bool)
    ensures
        r == has_ext(p@),
{
    let name = file_name_of(p);
    match last_mark_pos(name, Mark::Dot) {
        Some(d) => d > 0,
        None => false,
    }
}

/// `p` with its file name replaced by `n`.
pub fn with_name_text(p: &str, n: &str) -> (r: String)
    ensures
        r@ == with_name(p@, n@),
{
    if file_name_of(p).unicode_len() > 0 {
        join_text(parent_of(p), n)
    } else {
        join_text(p, n)
    }
}

/// `p` with its stem replaced by `st`, the extension kept.
pub fn with_stem_text(p: &str, st: &str) -> (r: String)
    ensures
        r@ == with_stem(p@, st@),
{
    let x = ext_of(p);
    let mut name = String::from_str(st);
    if x.unicode_len() > 0 {
        proof {
            reveal_strlit(".");
        }
        name.append(".");
        name.append(x);
    }
    assert(name@ =~= (if ext(p@).len() == 0 {
        st@
    } else {
        st@ + seq!['.'] + ext(p@)
    }));
    join_text(parent_of(p), name.as_str())
}

pub open spec fn free_of(s: Seq<char>, m: Mark) -> bool {
    forall|i: int| 0 <= i < s.len() ==> !marks(m, #[trigger] s[i])
}

proof fn lemma_last_mark_append(s: Seq<char>, t: Seq<char>, m: Mark)
    ensures
        last_mark(s + t, m) == if last_mark(t, m) >= 0 {
            s.len() + last_mark(t, m)
        } else {
            last_mark(s, m)
        },
    decreases t.len(),
{
    if t.len() == 0 {
        assert(s + t =~= s);
    } else {
        assert((s + t).drop_last() =~= s + t.drop_last());
        assert((s + t).last() == t.last());
        lemma_last_mark_append(s, t.drop_last(), m);
    }
}

proof fn lemma_free_last_mark(s: Seq<char>, m: Mark)
    requires
        free_of(s, m),
    ensures
        last_mark(s, m) == -1,
{
    lemma_last_mark(s, m);
}

/// The file name of `p` followed by text without separators is the old file name
/// followed by that text.
proof fn lemma_file_name_append(p: Seq<char>, t: Seq<char>)
    requires
        free_of(t, Mark::Sep),
    ensures
        last_mark(p + t, Mark::Sep) == last_mark(p, Mark::Sep),
        file_name(p + t) == file_name(p) + t,
{
    lemma_free_last_mark(t, Mark::Sep);
    lemma_last_mark_append(p, t, Mark::Sep);
    lemma_last_mark(p, Mark::Sep);
    assert(file_name(p + t) =~= file_name(p) + t);
}

/// A file name that has an extension is its stem, a dot, and the extension.
pub proof fn law_stem_dot_ext(p: Seq<char>)
    requires
        has_ext(p),
    ensures
        stem(p) + seq!['.'] + ext(p) == file_name(p),
{
    let name = file_name(p);
    lemma_last_mark(name, Mark::Dot);
    assert(stem(p) + seq!['.'] + ext(p) =~= name);
}

/// Appending a dot and an extension `e` (no dot, no separator) to a path with a file
/// name gives a path whose extension is `e`, and whose file name is its stem, a dot,
/// and `e`.
pub proof fn law_ext_of_appended(p: Seq<char>, e: Seq<char>)
    requires
        file_name(p).len() > 0,
        e.len() > 0,
        free_of(e, Mark::Dot),
        free_of(e, Mark::Sep),
    ensures
        has_ext(p + seq!['.'] + e),
        ext(p + seq!['.'] + e) == e,
        stem(p + seq!['.'] + e) + seq!['.'] + ext(p + seq!['.'] + e) == file_name(
            p + seq!['.'] + e,
        ),
{
    let t = seq!['.'] + e;
    assert(p + seq!['.'] + e =~= p + t);
    assert(free_of(t, Mark::Sep));
    lemma_file_name_append(p, t);
    let name = file_name(p);
    assert(file_name(p + t) =~= (name + seq!['.']) + e);
    lemma_free_last_mark(e, Mark::Dot);
    lemma_last_mark_append(name + seq!['.'], e, Mark::Dot);
    assert((name + seq!['.']).drop_last() =~= name);
    assert(last_mark(name + seq!['.'], Mark::Dot) == name.len());
    assert(file_name(p + t).skip(name.len() + 1 as int) =~= e);
    law_stem_dot_ext(p + t);
}

/// Clearing the extension of `p` leaves `p` without its extension and the dot before it.
proof fn lemma_cleared(p: Seq<char>)
    requires
        file_name(p).len() > 0,
    ensures
        has_ext(p) ==> with_ext(p, Seq::empty()) + seq!['.'] + ext(p) == p,
        !has_ext(p) ==> with_ext(p, Seq::empty()) == p,
        file_name(with_ext(p, Seq::empty())) == stem(p),
        last_mark(with_ext(p, Seq::empty()), Mark::Sep) == last_mark(p, Mark::Sep),
{
    lemma_last_mark(p, Mark::Sep);
    let name = file_name(p);
    lemma_last_mark(name, Mark::Dot);
    let q = with_ext(p, Seq::empty());
    if has_ext(p) {
        let d = last_mark(name, Mark::Dot);
        let k = last_mark(p, Mark::Sep);
        assert(q =~= p.take(k + 1 + d));
        assert forall|i: int| k + 1 + d <= i < p.len() implies !marks(Mark::Sep, #[trigger] p[i]) by {}
        lemma_last_mark_prefix(p, Mark::Sep, k + 1 + d);
        assert(file_name(q) =~= stem(p));
        assert(q + seq!['.'] + ext(p) =~= p);
    }
}

/// Setting an empty extension leaves a path without one, unless its stem holds a dot
/// after its first character.
pub proof fn law_cleared_ext_is_empty(p: Seq<char>)
    requires
        last_mark(stem(p), Mark::Dot) <= 0,
    ensures
        ext(with_ext(p, Seq::empty())).len() == 0,
{
    if file_name(p).len() > 0 {
        lemma_cleared(p);
    }
}

/// Setting an extension `x` (no dot, no separator) and then clearing it gives the same
/// path as clearing the extension at once.
pub proof fn law_clear_after_set(p: Seq<char>, x: Seq<char>)
    requires
        x.len() > 0,
        free_of(x, Mark::Dot),
        free_of(x, Mark::Sep),
    ensures
        with_ext(with_ext(p, x), Seq::empty()) == with_ext(p, Seq::empty()),
{
    if file_name(p).len() > 0 {
        lemma_cleared(p);
        let q = with_ext(p, Seq::empty());
        assert(with_ext(p, x) =~= q + seq!['.'] + x);
        lemma_last_mark(stem(p), Mark::Dot);
        lemma_last_mark(file_name(p), Mark::Dot);
        assert(stem(p).len() > 0);
        assert(file_name(q).len() > 0);
        law_ext_of_appended(q, x);
        let qx = q + seq!['.'] + x;
        lemma_cleared(qx);
        assert(with_ext(qx, Seq::empty()) + seq!['.'] + x == qx);
        assert(with_ext(qx, Seq::empty()) =~= q);
    }
}

} // verus!
