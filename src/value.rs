use vstd::prelude::*;

verus! {

/// A script value: an integer or a piece of text.
#[derive(Debug, Clone, PartialEq)]
pub enum VarValue {
    Int(i64),
    Str(String),
}

/// The character of a decimal digit.
pub open spec fn digit_char(d: int) -> char {
    if d == 0 {
        '0'
    } else if d == 1 {
        '1'
    } else if d == 2 {
        '2'
    } else if d == 3 {
        '3'
    } else if d == 4 {
        '4'
    } else if d == 5 {
        '5'
    } else if d == 6 {
        '6'
    } else if d == 7 {
        '7'
    } else if d == 8 {
        '8'
    } else {
        '9'
    }
}

/// The decimal digits of a natural number, most significant first.
pub open spec fn decimal(n: nat) -> Seq<char>
    decreases n,
{
    if n < 10 {
        seq![digit_char(n as int)]
    } else {
        decimal(n / 10).push(digit_char((n % 10) as int))
    }
}

/// The text of an integer: its decimal digits, after a minus sign when negative.
pub open spec fn int_text(i: int) -> Seq<char> {
    if i < 0 {
        seq!['-'] + decimal((-i) as nat)
    } else {
        decimal(i as nat)
    }
}

pub open spec fn is_digit(c: char) -> bool {
    '0' <= c && c <= '9'
}

pub open spec fn digit_value(c: char) -> int {
    c as int - '0' as int
}

pub open spec fn all_digits(s: Seq<char>) -> bool {
    s.len() > 0 && forall|i: int| 0 <= i < s.len() ==> is_digit(#[trigger] s[i])
}

/// The number that a sequence of decimal digits denotes.
pub open spec fn digits_value(s: Seq<char>) -> int
    decreases s.len(),
{
    if s.len() == 0 {
        0
    } else {
        digits_value(s.drop_last()) * 10 + digit_value(s.last())
    }
}

/// The integer that a text denotes: decimal digits, optionally after a minus sign.
pub open spec fn parsed_int(s: Seq<char>) -> Option<int> {
    if s.len() > 0 && s[0] == '-' && all_digits(s.skip(1)) {
        Some(-digits_value(s.skip(1)))
    } else if all_digits(s) {
        Some(digits_value(s))
    } else {
        None
    }
}

/// The integer reading of a text: the integer it denotes when that fits in `i64`, else 0.
pub open spec fn text_int(s: Seq<char>) -> int {
    match parsed_int(s) {
        Some(v) => if i64::MIN <= v <= i64::MAX {
            v
        } else {
            0
        },
        None => 0,
    }
}

impl VarValue {
    /// The text form of the value.
    pub open spec fn text_value(&self) -> Seq<char> {
        match self {
            VarValue::Int(i) => int_text(*i as int),
            VarValue::Str(s) => s@,
        }
    }

    /// The integer form of the value.
    pub open spec fn int_value(&self) -> int {
        match self {
            VarValue::Int(i) => *i as int,
            VarValue::Str(s) => text_int(s@),
        }
    }

    pub open spec fn is_str(&self, t: Seq<char>) -> bool {
        self matches VarValue::Str(s) && s@ == t
    }

    /// A copy of the value.
    pub fn copied(&self) -> (r: VarValue)
        ensures
            r == *self,
    {
        match self {
            VarValue::Int(i) => VarValue::Int(*i),
            VarValue::Str(s) => VarValue::Str(s.clone()),
        }
    }

    pub fn to_text(&self) -> (r: String)
        ensures
            r@ == self.text_value(),
    {
        match self {
            VarValue::Int(i) => int_to_text(*i),
            VarValue::Str(s) => s.clone(),
        }
    }

    pub fn to_int(&self) -> (r: i64)
        ensures
            r as int == self.int_value(),
    {
        match self {
            VarValue::Int(i) => *i,
            VarValue::Str(s) => text_to_int(s.as_str()),
        }
    }
}

impl From<&str> for VarValue {
    fn from(s: &str) -> (r: VarValue) {
        VarValue::Str(String::from_str(s))
    }
}

impl vstd::std_specs::convert::FromSpecImpl<&str> for VarValue {
    /// A new `String` has no identity that a spec can name, so only its text is described.
    open spec fn obeys_from_spec() -> bool {
        false
    }

    open spec fn from_spec(s: &str) -> VarValue {
        choose|v: VarValue| v.is_str(s@)
    }
}

impl From<String> for VarValue {
    fn from(s: String) -> (r: VarValue) {
        VarValue::Str(s)
    }
}

impl vstd::std_specs::convert::FromSpecImpl<String> for VarValue {
    open spec fn obeys_from_spec() -> bool {
        true
    }

    open spec fn from_spec(s: String) -> VarValue {
        VarValue::Str(s)
    }
}

impl From<i64> for VarValue {
    fn from(i: i64) -> (r: VarValue) {
        VarValue::Int(i)
    }
}

impl vstd::std_specs::convert::FromSpecImpl<i64> for VarValue {
    open spec fn obeys_from_spec() -> bool {
        true
    }

    open spec fn from_spec(i: i64) -> VarValue {
        VarValue::Int(i)
    }
}

fn digit_text(d: u64) -> (r: &'static str)
    requires
        d < 10,
    ensures
        r@ == seq![digit_char(d as int)],
{
    let r = match d {
        0 => "0",
        1 => "1",
        2 => "2",
        3 => "3",
        4 => "4",
        5 => "5",
        6 => "6",
        7 => "7",
        8 => "8",
        _ => "9",
    };
    proof {
        reveal_strlit("0");
        reveal_strlit("1");
        reveal_strlit("2");
        reveal_strlit("3");
        reveal_strlit("4");
        reveal_strlit("5");
        reveal_strlit("6");
        reveal_strlit("7");
        reveal_strlit("8");
        reveal_strlit("9");
    }
    assert(r@ =~= seq![digit_char(d as int)]);
    r
}

fn append_decimal(n: u64, out: &mut String)
    ensures
        final(out)@ == old(out)@ + decimal(n as nat),
    decreases n,
{
    if n >= 10 {
        append_decimal(n / 10, out);
    }
    out.append(digit_text(n % 10));
    assert(final(out)@ =~= old(out)@ + decimal(n as nat));
}

/// The decimal text of an integer.
pub fn int_to_text(i: i64) -> (r: String)
    ensures
        r@ == int_text(i as int),
{
    let mut out = String::new();
    if i < 0 {
        proof {
            reveal_strlit("-");
        }
        out.append("-");
        let m: u64 = (-(i as i128)) as u64;
        append_decimal(m, &mut out);
        assert(out@ =~= int_text(i as int));
    } else {
        append_decimal(i as u64, &mut out);
    }
    out
}

proof fn lemma_digits_value_step(s: Seq<char>, i: int)
    requires
        0 <= i < s.len(),
    ensures
        digits_value(s.subrange(0, i + 1)) == digits_value(s.subrange(0, i)) * 10 + digit_value(
            s[i],
        ),
{
    assert(s.subrange(0, i + 1).drop_last() =~= s.subrange(0, i));
}

proof fn lemma_digits_value_nonneg(s: Seq<char>)
    requires
        forall|i: int| 0 <= i < s.len() ==> is_digit(#[trigger] s[i]),
    ensures
        digits_value(s) >= 0,
    decreases s.len(),
{
    if s.len() > 0 {
        assert(is_digit(s[s.len() - 1]));
        lemma_digits_value_nonneg(s.drop_last());
    }
}

/// The value of the digits of `s` from `start` on, held at a cap: `min(value, cap)`.
fn capped_digits(s: &str, start: usize) -> (r: (bool, u128))
    requires
        start <= s@.len(),
    ensures
        r.0 == (start < s@.len() && all_digits(s@.skip(start as int))),
        r.0 ==> r.1 == if digits_value(s@.skip(start as int)) < 0x8000_0000_0000_0001 {
            digits_value(s@.skip(start as int))
        } else {
            0x8000_0000_0000_0001
        },
{
    let cap: u128 = 0x8000_0000_0000_0001;
    let n = s.unicode_len();
    if start >= n {
        return (false, 0);
    }
    let ghost t = s@.skip(start as int);
    let mut acc: u128 = 0;
    let mut i: usize = start;
    while i < n
        invariant
            start <= i <= n,
            n == s@.len(),
            t == s@.skip(start as int),
            forall|k: int| 0 <= k < i - start ==> is_digit(#[trigger] t[k]),
            cap == 0x8000_0000_0000_0001u128,
            acc <= cap,
            acc == if digits_value(t.subrange(0, i - start)) < cap {
                digits_value(t.subrange(0, i - start))
            } else {
                cap as int
            },
        decreases n - i,
    {
        let c = s.get_char(i);
        if !('0' <= c && c <= '9') {
            assert(t[i - start] == c);
            return (false, 0);
        }
        let d: u128 = (c as u32 - '0' as u32) as u128;
        proof {
            assert(t[i - start] == c);
            lemma_digits_value_step(t, i - start);
            assert(t.subrange(0, i - start + 1) =~= t.subrange(0, i + 1 - start));
            lemma_digits_value_nonneg(t.subrange(0, i - start));
        }
        let next = acc * 10 + d;
        acc = if next < cap {
            next
        } else {
            cap
        };
        i = i + 1;
    }
    assert(t.subrange(0, i - start) =~= t);
    (true, acc)
}

/// The integer reading of a text.
pub fn text_to_int(s: &str) -> (r: i64)
    ensures
        r as int == text_int(s@),
{
    let n = s.unicode_len();
    if n > 0 && s.get_char(0) == '-' {
        let (ok, v) = capped_digits(s, 1);
        if ok {
            if v <= 0x8000_0000_0000_0000 {
                return (-(v as i128)) as i64;
            } else {
                return 0;
            }
        }
    }
    let (ok, v) = capped_digits(s, 0);
    assert(s@.skip(0) =~= s@);
    if ok && v <= 0x7fff_ffff_ffff_ffff {
        v as i64
    } else {
        0
    }
}

} // verus!
