use vstd::prelude::*;

use crate::path::{
    ext,
    ext_of,
    file_name,
    file_name_of,
    join,
    join_text,
    parent,
    parent_of,
    stem,
    stem_of,
    with_ext,
    with_ext_text,
    with_name,
    with_name_text,
    with_stem,
    with_stem_text,
};
use crate::text::{
    has_infix,
    has_prefix,
    has_suffix,
    lower_of,
    lowercase,
    replace_all,
    replace_text,
    text_contains,
    text_ends_with,
    text_starts_with,
    trim_both,
    trim_end_text,
    trim_left,
    trim_right,
    trim_start_text,
    regex_matches,
    regex_search,
    regex_valid,
    text_eq,
    upper_of,
    uppercase,
    width_of,
    display_width,
    Strip,
};
use crate::host::{
    now_formatted,
    now_rfc2822,
    now_rfc3339,
    user_config_dir,
    user_document_dir,
    user_home_dir,
};
use crate::value::VarValue;

verus! {

/// What a built-in function gives: a value, or a message that says why it failed.
pub type FuncResult = Result<VarValue, String>;

/// Which part of a path to take.
#[derive(Clone, Copy, Debug, PartialEq, Eq)]
pub enum PathPart {
    Stem,
    Name,
    Dir,
    Ext,
}

/// Which side of a text to work on.
#[derive(Clone, Copy, Debug, PartialEq, Eq)]
pub enum Where {
    All,
    Left,
    Right,
}

#[derive(Clone, Copy, Debug, PartialEq, Eq)]
pub enum StrCase {
    Up,
    Low,
}

pub open spec fn gives_str(r: FuncResult, t: Seq<char>) -> bool {
    r matches Ok(VarValue::Str(s)) && s@ == t
}

pub open spec fn gives_int(r: FuncResult, i: int) -> bool {
    r matches Ok(VarValue::Int(v)) && v == i
}

pub open spec fn fails_with(r: FuncResult, t: Seq<char>) -> bool {
    r matches Err(e) && e@ == t
}

/// The text of argument `k`.
pub open spec fn arg(args: Seq<VarValue>, k: int) -> Seq<char> {
    args[k].text_value()
}

pub(crate) fn fail(msg: &str) -> (r: FuncResult)
    ensures
        fails_with(r, msg@),
{
    Err(String::from_str(msg))
}

pub(crate) fn give_str(s: String) -> (r: FuncResult)
    ensures
        gives_str(r, s@),
{
    Ok(VarValue::Str(s))
}

pub open spec fn path_part(p: Seq<char>, tp: PathPart) -> Seq<char> {
    match tp {
        PathPart::Stem => stem(p),
        PathPart::Name => file_name(p),
        PathPart::Dir => parent(p),
        PathPart::Ext => ext(p),
    }
}

pub open spec fn extract_part_post(args: Seq<VarValue>, tp: PathPart, r: FuncResult) -> bool {
    if args.len() == 0 {
        gives_int(r, 0)
    } else {
        gives_str(r, path_part(arg(args, 0), tp))
    }
}

/// A part of the path in the first argument; the integer 0 when there is none.
pub fn extract_part(args: &[VarValue], tp: PathPart) -> (r: FuncResult)
    ensures
        extract_part_post(args@, tp, r),
{
    if args.len() == 0 {
        return Ok(VarValue::Int(0));
    }
    let s = args[0].to_text();
    let part = match tp {
        PathPart::Stem => stem_of(s.as_str()),
        PathPart::Name => file_name_of(s.as_str()),
        PathPart::Dir => parent_of(s.as_str()),
        PathPart::Ext => ext_of(s.as_str()),
    };
    give_str(String::from_str(part))
}

pub open spec fn replace_ext_post(args: Seq<VarValue>, r: FuncResult) -> bool {
    if args.len() == 0 {
        fails_with(r, "path undefined"@)
    } else if args.len() == 1 {
        r == Ok::<VarValue, String>(args[0])
    } else {
        gives_str(r, with_ext(arg(args, 0), arg(args, 1)))
    }
}

/// The path in the first argument with its extension replaced by the second, or removed
/// when the second is empty; the first argument itself when there is no second.
pub fn replace_ext(args: &[VarValue]) -> (r: FuncResult)
    ensures
        replace_ext_post(args@, r),
{
    if args.len() == 0 {
        return fail("path undefined");
    }
    if args.len() == 1 {
        return Ok(args[0].copied());
    }
    let p = args[0].to_text();
    let e = args[1].to_text();
    give_str(with_ext_text(p.as_str(), e.as_str()))
}

/// A path with an extension appended: `e` as it is when it starts with a dot, else after
/// a dot; nothing when `e` is empty.
pub open spec fn add_ext_text(p: Seq<char>, e: Seq<char>) -> Seq<char> {
    if e.len() == 0 {
        p
    } else if e[0] == '.' {
        p + e
    } else {
        p + seq!['.'] + e
    }
}

pub open spec fn add_ext_post(args: Seq<VarValue>, r: FuncResult) -> bool {
    if args.len() == 0 {
        fails_with(r, "path undefined"@)
    } else if args.len() == 1 {
        r == Ok::<VarValue, String>(args[0])
    } else {
        gives_str(r, add_ext_text(arg(args, 0), arg(args, 1)))
    }
}

/// The path in the first argument with the second appended as an extension.
pub fn add_ext(args: &[VarValue]) -> (r: FuncResult)
    ensures
        add_ext_post(args@, r),
{
    if args.len() == 0 {
        return fail("path undefined");
    }
    if args.len() == 1 {
        return Ok(args[0].copied());
    }
    let mut p = args[0].to_text();
    let e = args[1].to_text();
    if e.as_str().unicode_len() == 0 {
        return give_str(p);
    }
    if e.as_str().get_char(0) != '.' {
        proof {
            reveal_strlit(".");
        }
        p.append(".");
    }
    p.append(e.as_str());
    assert(p@ =~= add_ext_text(arg(args@, 0), arg(args@, 1)));
    give_str(p)
}

pub open spec fn replace_name_post(args: Seq<VarValue>, r: FuncResult) -> bool {
    if args.len() == 0 {
        fails_with(r, "path undefined"@)
    } else if args.len() != 2 {
        fails_with(r, "new name undefined"@)
    } else {
        gives_str(r, with_name(arg(args, 0), arg(args, 1)))
    }
}

/// The path in the first argument with its file name replaced by the second; exactly two
/// arguments are taken.
pub fn replace_name(args: &[VarValue]) -> (r: FuncResult)
    ensures
        replace_name_post(args@, r),
{
    if args.len() == 0 {
        return fail("path undefined");
    }
    if args.len() != 2 {
        return fail("new name undefined");
    }
    let p = args[0].to_text();
    let n = args[1].to_text();
    give_str(with_name_text(p.as_str(), n.as_str()))
}

pub open spec fn replace_stem_post(args: Seq<VarValue>, r: FuncResult) -> bool {
    if args.len() == 0 {
        fails_with(r, "path undefined"@)
    } else if args.len() == 1 || arg(args, 1).len() == 0 {
        fails_with(r, "new stem undefined"@)
    } else {
        gives_str(r, with_stem(arg(args, 0), arg(args, 1)))
    }
}

/// The path in the first argument with its stem replaced by the second, which must not
/// be empty; the extension is kept.
pub fn replace_stem(args: &[VarValue]) -> (r: FuncResult)
    ensures
        replace_stem_post(args@, r),
{
    if args.len() == 0 {
        return fail("path undefined");
    }
    if args.len() == 1 {
        return fail("new stem undefined");
    }
    let p = args[0].to_text();
    let st = args[1].to_text();
    if st.as_str().unicode_len() == 0 {
        return fail("new stem undefined");
    }
    give_str(with_stem_text(p.as_str(), st.as_str()))
}

/// The first `k` arguments joined as paths, left to right.
pub open spec fn joined(args: Seq<VarValue>, k: int) -> Seq<char>
    decreases k,
{
    if k <= 1 {
        arg(args, 0)
    } else {
        join(joined(args, k - 1), arg(args, k - 1))
    }
}

pub open spec fn join_path_post(args: Seq<VarValue>, r: FuncResult) -> bool {
    if args.len() == 0 {
        gives_str(r, Seq::empty())
    } else if args.len() == 1 {
        r == Ok::<VarValue, String>(args[0])
    } else {
        gives_str(r, joined(args, args.len() as int))
    }
}

/// All arguments joined as paths: a later absolute path replaces what came before.
pub fn join_path(args: &[VarValue]) -> (r: FuncResult)
    ensures
        join_path_post(args@, r),
{
    if args.len() == 0 {
        return give_str(String::new());
    }
    if args.len() == 1 {
        return Ok(args[0].copied());
    }
    let mut path = args[0].to_text();
    let mut k: usize = 1;
    while k < args.len()
        invariant
            1 <= k <= args@.len(),
            path@ == joined(args@, k as int),
        decreases args@.len() - k,
    {
        let a = args[k].to_text();
        path = join_text(path.as_str(), a.as_str());
        k = k + 1;
    }
    give_str(path)
}

pub open spec fn trimmed(s: Seq<char>, m: Strip, dir: Where) -> Seq<char> {
    match dir {
        Where::All => trim_both(s, m),
        Where::Left => trim_left(s, m),
        Where::Right => trim_right(s, m),
    }
}

pub open spec fn trim_string_post(args: Seq<VarValue>, dir: Where, r: FuncResult) -> bool {
    if args.len() == 0 {
        gives_str(r, Seq::empty())
    } else if args.len() == 1 {
        gives_str(r, trimmed(arg(args, 0), Strip::Space, dir))
    } else if arg(args, 1).len() == 0 {
        gives_str(r, arg(args, 0))
    } else {
        gives_str(r, trimmed(arg(args, 0), Strip::Char(arg(args, 1)[0]), dir))
    }
}

fn trim_text(s: &str, m: Strip, dir: Where) -> (r: &str)
    ensures
        r@ == trimmed(s@, m, dir),
{
    match dir {
        Where::All => trim_end_text(trim_start_text(s, m), m),
        Where::Left => trim_start_text(s, m),
        Where::Right => trim_end_text(s, m),
    }
}

/// The first argument trimmed on the side `dir` names: of white space, or, when a second
/// argument is given, of the first character of that one.
pub fn trim_string(args: &[VarValue], dir: Where) -> (r: FuncResult)
    ensures
        trim_string_post(args@, dir, r),
{
    if args.len() == 0 {
        return give_str(String::new());
    }
    let s = args[0].to_text();
    if args.len() == 1 {
        return give_str(String::from_str(trim_text(s.as_str(), Strip::Space, dir)));
    }
    let what = args[1].to_text();
    if what.as_str().unicode_len() == 0 {
        return give_str(s);
    }
    let c = what.as_str().get_char(0);
    give_str(String::from_str(trim_text(s.as_str(), Strip::Char(c), dir)))
}

/// Which test `starts_with`, `ends_with` and `contains` make of the subject.
#[derive(Clone, Copy, Debug, PartialEq, Eq)]
pub enum Probe {
    Prefix,
    Suffix,
    Infix,
}

pub open spec fn probe_holds(pr: Probe, s: Seq<char>, w: Seq<char>) -> bool {
    match pr {
        Probe::Prefix => has_prefix(s, w),
        Probe::Suffix => has_suffix(s, w),
        Probe::Infix => has_infix(s, w),
    }
}

/// Whether the first argument passes the test with any of the others.
pub open spec fn any_probe(args: Seq<VarValue>, pr: Probe) -> bool {
    exists|k: int| 1 <= k < args.len() && #[trigger] probe_holds(pr, arg(args, 0), arg(args, k))
}

pub open spec fn probe_post(args: Seq<VarValue>, pr: Probe, r: FuncResult) -> bool {
    if args.len() < 2 {
        gives_int(r, 1)
    } else {
        gives_int(r, if any_probe(args, pr) { 1 } else { 0 })
    }
}

fn probe(args: &[VarValue], pr: Probe) -> (r: FuncResult)
    ensures
        probe_post(args@, pr, r),
{
    if args.len() < 2 {
        return Ok(VarValue::Int(1));
    }
    let s = args[0].to_text();
    let mut k: usize = 1;
    while k < args.len()
        invariant
            1 <= k <= args@.len(),
            s@ == arg(args@, 0),
            forall|j: int| 1 <= j < k ==> !#[trigger] probe_holds(pr, arg(args@, 0), arg(args@, j)),
        decreases args@.len() - k,
    {
        let w = args[k].to_text();
        let hit = match pr {
            Probe::Prefix => text_starts_with(s.as_str(), w.as_str()),
            Probe::Suffix => text_ends_with(s.as_str(), w.as_str()),
            Probe::Infix => text_contains(s.as_str(), w.as_str()),
        };
        if hit {
            assert(probe_holds(pr, arg(args@, 0), arg(args@, k as int)));
            return Ok(VarValue::Int(1));
        }
        k = k + 1;
    }
    Ok(VarValue::Int(0))
}

/// 1 when the first argument starts with any of the others (or there are no others),
/// else 0.
pub fn starts_with(args: &[VarValue]) -> (r: FuncResult)
    ensures
        probe_post(args@, Probe::Prefix, r),
{
    probe(args, Probe::Prefix)
}

/// 1 when the first argument ends with any of the others (or there are no others), else 0.
pub fn ends_with(args: &[VarValue]) -> (r: FuncResult)
    ensures
        probe_post(args@, Probe::Suffix, r),
{
    probe(args, Probe::Suffix)
}

/// 1 when the first argument contains any of the others (or there are no others), else 0.
pub fn contains(args: &[VarValue]) -> (r: FuncResult)
    ensures
        probe_post(args@, Probe::Infix, r),
{
    probe(args, Probe::Infix)
}

pub open spec fn change_case_post(args: Seq<VarValue>, case: StrCase, r: FuncResult) -> bool {
    if args.len() == 0 {
        gives_str(r, Seq::empty())
    } else {
        gives_str(
            r,
            match case {
                StrCase::Up => upper_of(arg(args, 0)),
                StrCase::Low => lower_of(arg(args, 0)),
            },
        )
    }
}

/// The first argument in upper or lower case.
pub fn change_case(args: &[VarValue], case: StrCase) -> (r: FuncResult)
    ensures
        change_case_post(args@, case, r),
{
    if args.len() == 0 {
        return give_str(String::new());
    }
    let s = args[0].to_text();
    let res = match case {
        StrCase::Up => uppercase(s.as_str()),
        StrCase::Low => lowercase(s.as_str()),
    };
    give_str(res)
}

pub open spec fn replace_post(args: Seq<VarValue>, r: FuncResult) -> bool {
    if args.len() < 2 {
        fails_with(r, "requires two arguments"@)
    } else {
        gives_str(
            r,
            replace_all(
                arg(args, 0),
                arg(args, 1),
                if args.len() > 2 {
                    arg(args, 2)
                } else {
                    Seq::empty()
                },
            ),
        )
    }
}

/// The first argument with every occurrence of the second replaced by the third (by
/// nothing when there is no third).
pub fn replace(args: &[VarValue]) -> (r: FuncResult)
    ensures
        replace_post(args@, r),
{
    if args.len() < 2 {
        return fail("requires two arguments");
    }
    let s = args[0].to_text();
    let what = args[1].to_text();
    let with = if args.len() > 2 {
        args[2].to_text()
    } else {
        String::new()
    };
    give_str(replace_text(s.as_str(), what.as_str(), with.as_str()))
}

/// Whether pattern `p` settles a match against `s`: it is refused, or it matches.
pub open spec fn decides(p: Seq<char>, s: Seq<char>) -> bool {
    !regex_valid(p) || regex_matches(p, s)
}

/// The first argument from `k` on whose pattern settles the match, or the length.
pub open spec fn first_decisive(args: Seq<VarValue>, k: int) -> int
    decreases args.len() - k,
{
    if k >= args.len() {
        args.len() as int
    } else if decides(arg(args, k), arg(args, 0)) {
        k
    } else {
        first_decisive(args, k + 1)
    }
}

pub open spec fn match_regex_post(args: Seq<VarValue>, r: FuncResult) -> bool {
    if args.len() < 2 {
        gives_int(r, 1)
    } else {
        let j = first_decisive(args, 1);
        if j >= args.len() {
            gives_int(r, 0)
        } else if !regex_valid(arg(args, j)) {
            r is Err
        } else {
            gives_int(r, 1)
        }
    }
}

/// 1 when any argument after the first, read as a regular expression, matches the first
/// (or there are none), else 0. The patterns are tried in order; one that is refused
/// ends the search with the refusal.
pub fn match_regex(args: &[VarValue]) -> (r: FuncResult)
    ensures
        match_regex_post(args@, r),
{
    if args.len() < 2 {
        return Ok(VarValue::Int(1));
    }
    let s = args[0].to_text();
    let mut k: usize = 1;
    while k < args.len()
        invariant
            1 <= k <= args@.len(),
            s@ == arg(args@, 0),
            first_decisive(args@, 1) == first_decisive(args@, k as int),
        decreases args@.len() - k,
    {
        let rx = args[k].to_text();
        match regex_search(rx.as_str(), s.as_str()) {
            Err(e) => return Err(e),
            Ok(found) => if found {
                return Ok(VarValue::Int(1));
            },
        }
        k = k + 1;
    }
    Ok(VarValue::Int(0))
}

/// `n` copies of `p`.
pub open spec fn repeat(p: Seq<char>, n: nat) -> Seq<char>
    decreases n,
{
    if n == 0 {
        Seq::empty()
    } else {
        repeat(p, (n - 1) as nat) + p
    }
}

/// `s`, of width `sw`, padded with copies of `p`, of width `pw`, toward the width
/// `target`: as many whole copies as fit, on the left, the right, or both sides with the
/// larger half on the left. `s` as it is when it and one copy already reach `target`.
pub open spec fn padded(s: Seq<char>, p: Seq<char>, sw: int, pw: int, target: int, loc: Where) -> Seq<
    char,
> {
    if sw + pw >= target {
        s
    } else {
        let cnt = (target - sw) / pw;
        match loc {
            Where::All => repeat(p, (cnt - cnt / 2) as nat) + s + repeat(p, (cnt / 2) as nat),
            Where::Left => repeat(p, cnt as nat) + s,
            Where::Right => s + repeat(p, cnt as nat),
        }
    }
}

fn append_repeat(out: &mut String, p: &str, n: u64)
    ensures
        final(out)@ == old(out)@ + repeat(p@, n as nat),
{
    let mut k: u64 = 0;
    while k < n
        invariant
            k <= n,
            out@ == old(out)@ + repeat(p@, k as nat),
        decreases n - k,
    {
        out.append(p);
        k = k + 1;
        assert(out@ =~= old(out)@ + repeat(p@, k as nat));
    }
}

/// `s` padded with copies of `p`, given the display widths `sw` of `s` and `pw` of `p`.
pub fn pad_text(s: &str, p: &str, sw: usize, pw: usize, target: i64, loc: Where) -> (r: String)
    requires
        pw > 0,
    ensures
        r@ == padded(s@, p@, sw as int, pw as int, target as int, loc),
{
    if (sw as i128) + (pw as i128) >= target as i128 {
        return String::from_str(s);
    }
    let diff: i128 = target as i128 - sw as i128;
    let q: i128 = diff / (pw as i128);
    assert(0 <= q <= diff) by (nonlinear_arith)
        requires
            diff > 0,
            pw > 0,
            q == diff / (pw as i128),
    ;
    let cnt: u64 = q as u64;
    let mut out = String::new();
    match loc {
        Where::All => {
            let right = cnt / 2;
            let left = cnt - right;
            append_repeat(&mut out, p, left);
            out.append(s);
            append_repeat(&mut out, p, right);
        },
        Where::Left => {
            append_repeat(&mut out, p, cnt);
            out.append(s);
        },
        Where::Right => {
            out.append(s);
            append_repeat(&mut out, p, cnt);
        },
    }
    assert(out@ =~= padded(s@, p@, sw as int, pw as int, target as int, loc));
    out
}

pub open spec fn pad_post(args: Seq<VarValue>, loc: Where, r: FuncResult) -> bool {
    if args.len() != 3 {
        fails_with(r, "requires three arguments"@)
    } else if width_of(arg(args, 1)) == 0 {
        fails_with(r, "pad string cannot be empty"@)
    } else {
        gives_str(
            r,
            padded(
                arg(args, 0),
                arg(args, 1),
                width_of(arg(args, 0)) as int,
                width_of(arg(args, 1)) as int,
                args[2].int_value(),
                loc,
            ),
        )
    }
}

/// The first argument padded with copies of the second toward the display width that
/// the third gives; exactly three arguments are taken.
pub fn pad(args: &[VarValue], loc: Where) -> (r: FuncResult)
    ensures
        pad_post(args@, loc, r),
{
    if args.len() != 3 {
        return fail("requires three arguments");
    }
    let patt = args[1].to_text();
    let patt_width = display_width(patt.as_str());
    if patt_width == 0 {
        return fail("pad string cannot be empty");
    }
    let l = args[2].to_int();
    let s = args[0].to_text();
    let orig_width = display_width(s.as_str());
    give_str(pad_text(s.as_str(), patt.as_str(), orig_width, patt_width, l, loc))
}

/// The form in which `time` writes the current time.
#[derive(Debug, Clone)]
pub enum TimeFormat {
    Rfc2822,
    Rfc3339,
    Pattern(String),
}

pub open spec fn time_format_post(args: Seq<VarValue>, r: TimeFormat) -> bool {
    if args.len() == 0 {
        r matches TimeFormat::Pattern(p) && p@ == "%Y%m%d-%H%M%S"@
    } else {
        let low = lower_of(arg(args, 0));
        if low == "2822"@ || low == "rfc2822"@ {
            r is Rfc2822
        } else if low == "3339"@ || low == "rfc3339"@ {
            r is Rfc3339
        } else {
            r matches TimeFormat::Pattern(p) && p@ == arg(args, 0)
        }
    }
}

/// The form that the arguments of `time` ask for.
pub fn time_format(args: &[VarValue]) -> (r: TimeFormat)
    ensures
        time_format_post(args@, r),
{
    if args.len() == 0 {
        return TimeFormat::Pattern(String::from_str("%Y%m%d-%H%M%S"));
    }
    let f = args[0].to_text();
    let low = lowercase(f.as_str());
    if text_eq(low.as_str(), "2822") || text_eq(low.as_str(), "rfc2822") {
        TimeFormat::Rfc2822
    } else if text_eq(low.as_str(), "3339") || text_eq(low.as_str(), "rfc3339") {
        TimeFormat::Rfc3339
    } else {
        TimeFormat::Pattern(f)
    }
}

/// Whether the arguments of `time` ask for one of the fixed standard forms.
pub open spec fn fixed_time_form(args: Seq<VarValue>) -> bool {
    args.len() > 0 && {
        let low = lower_of(arg(args, 0));
        low == "2822"@ || low == "rfc2822"@ || low == "3339"@ || low == "rfc3339"@
    }
}

/// The local time now, in the form the arguments ask for. The fixed standard forms
/// always succeed; a pattern fails when chrono cannot write it.
pub fn format_time(args: &[VarValue]) -> (r: FuncResult)
    ensures
        r matches Ok(v) ==> v is Str,
        fixed_time_form(args@) ==> r is Ok,
        r is Err ==> fails_with(r, "invalid time format"@),
{
    match time_format(args) {
        TimeFormat::Rfc2822 => give_str(now_rfc2822()),
        TimeFormat::Rfc3339 => give_str(now_rfc3339()),
        TimeFormat::Pattern(p) => match now_formatted(p.as_str()) {
            Some(t) => give_str(t),
            None => fail("invalid time format"),
        },
    }
}

/// A directory of the user's.
#[derive(Clone, Copy, Debug, PartialEq, Eq)]
pub enum SysPath {
    Home,
    Docs,
    Config,
}

pub open spec fn missing_dir_message(kind: SysPath) -> Seq<char> {
    match kind {
        SysPath::Home => "user home directory undefined"@,
        SysPath::Config => "user configuration directory undefined"@,
        SysPath::Docs => "user document directory undefined"@,
    }
}

pub open spec fn user_dir_post(kind: SysPath, found: Option<String>, r: FuncResult) -> bool {
    match found {
        Some(d) => gives_str(r, d@),
        None => fails_with(r, missing_dir_message(kind)),
    }
}

/// The outcome of asking the host for a directory of the user's: the directory, or a
/// message that names the one that is missing.
pub fn user_dir_result(kind: SysPath, found: Option<String>) -> (r: FuncResult)
    ensures
        user_dir_post(kind, found, r),
{
    match found {
        Some(d) => give_str(d),
        None => match kind {
            SysPath::Home => fail("user home directory undefined"),
            SysPath::Config => fail("user configuration directory undefined"),
            SysPath::Docs => fail("user document directory undefined"),
        },
    }
}

/// A directory of the user's, as the host reports it.
pub fn system_path(kind: SysPath) -> (r: FuncResult)
    ensures
        r matches Ok(v) ==> v is Str,
        r is Err ==> fails_with(r, missing_dir_message(kind)),
{
    let found = match kind {
        SysPath::Home => user_home_dir(),
        SysPath::Config => user_config_dir(),
        SysPath::Docs => user_document_dir(),
    };
    user_dir_result(kind, found)
}

/// The texts of the first `k` arguments, one space between each two.
pub open spec fn spaced(args: Seq<VarValue>, k: int) -> Seq<char>
    decreases k,
{
    if k <= 0 {
        Seq::empty()
    } else if k == 1 {
        arg(args, 0)
    } else {
        spaced(args, k - 1) + seq![' '] + arg(args, k - 1)
    }
}

pub open spec fn print_text_spec(args: Seq<VarValue>, add_new_line: bool) -> Seq<char> {
    if add_new_line {
        spaced(args, args.len() as int) + seq!['\n']
    } else {
        spaced(args, args.len() as int)
    }
}

/// What `print` writes: the arguments one space apart, and a line end for `println`.
pub fn print_text(args: &[VarValue], add_new_line: bool) -> (r: String)
    ensures
        r@ == print_text_spec(args@, add_new_line),
{
    let mut out = String::new();
    let mut k: usize = 0;
    while k < args.len()
        invariant
            k <= args@.len(),
            out@ == spaced(args@, k as int),
        decreases args@.len() - k,
    {
        proof {
            reveal_strlit(" ");
        }
        if k != 0 {
            out.append(" ");
        }
        let t = args[k].to_text();
        out.append(t.as_str());
        k = k + 1;
        assert(out@ =~= spaced(args@, k as int));
    }
    if add_new_line {
        proof {
            reveal_strlit("\n");
        }
        out.append("\n");
    }
    assert(out@ =~= print_text_spec(args@, add_new_line));
    out
}

pub open spec fn all_are_post(checks: Seq<bool>, r: FuncResult) -> bool {
    gives_int(
        r,
        if checks.len() > 0 && forall|i: int| 0 <= i < checks.len() ==> #[trigger] checks[i] {
            1
        } else {
            0
        },
    )
}

/// 1 when every path passed its check, else 0; 0 as well when there was no path.
pub fn all_are(checks: &[bool]) -> (r: FuncResult)
    ensures
        all_are_post(checks@, r),
{
    if checks.len() == 0 {
        return Ok(VarValue::Int(0));
    }
    let mut k: usize = 0;
    while k < checks.len()
        invariant
            k <= checks@.len(),
            forall|i: int| 0 <= i < k ==> #[trigger] checks@[i],
        decreases checks@.len() - k,
    {
        if !checks[k] {
            return Ok(VarValue::Int(0));
        }
        k = k + 1;
    }
    Ok(VarValue::Int(1))
}

/// Adding an empty extension gives back the path.
pub proof fn law_add_empty_ext(args: Seq<VarValue>, r: FuncResult)
    requires
        args.len() == 2,
        arg(args, 1).len() == 0,
        add_ext_post(args, r),
    ensures
        gives_str(r, arg(args, 0)),
{
}

/// With a subject and nothing to test it against, `starts_with` and `ends_with` both
/// give 1.
pub proof fn law_lone_subject(args: Seq<VarValue>, starts: FuncResult, ends: FuncResult)
    requires
        args.len() == 1,
        probe_post(args, Probe::Prefix, starts),
        probe_post(args, Probe::Suffix, ends),
    ensures
        gives_int(starts, 1),
        gives_int(ends, 1),
{
}

/// Padding toward a width that the subject and one copy of the pad already reach gives
/// the subject unchanged.
pub proof fn law_pad_no_room(
    s: Seq<char>,
    p: Seq<char>,
    sw: int,
    pw: int,
    target: int,
    loc: Where,
)
    requires
        target <= sw + pw,
    ensures
        padded(s, p, sw, pw, target, loc) == s,
{
}

} // verus!
