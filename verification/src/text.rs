//! Character-level helpers on text: its characters, Unicode white space and
//! trimming, comparison with a literal.

use vstd::prelude::*;

verus! {

/// The characters of `s`, in order.
pub fn chars_of(s: &str) -> (v: Vec<char>)
    ensures
        v@ == s@,
{
    let mut v: Vec<char> = Vec::new();
    for c in it: s.chars()
        invariant
            v@ == it.seq().take(it.index()),
            it.seq() == s@,
    {
        v.push(c);
    }
    v
}

/// `char::is_whitespace`: the characters with Unicode's White_Space
/// property.
pub open spec fn is_white_space(c: char) -> bool {
    let u = c as u32;
    ||| 0x09 <= u <= 0x0d
    ||| u == 0x20
    ||| u == 0x85
    ||| u == 0xa0
    ||| u == 0x1680
    ||| 0x2000 <= u <= 0x200a
    ||| u == 0x2028
    ||| u == 0x2029
    ||| u == 0x202f
    ||| u == 0x205f
    ||| u == 0x3000
}

/// Whether `c` is Unicode white space.
pub fn white_space(c: char) -> (b: bool)
    ensures
        b == is_white_space(c),
{
    let u = c as u32;
    (0x09 <= u && u <= 0x0d) || u == 0x20 || u == 0x85 || u == 0xa0 || u == 0x1680 || (0x2000
        <= u && u <= 0x200a) || u == 0x2028 || u == 0x2029 || u == 0x202f || u == 0x205f || u
        == 0x3000
}

/// `s` without its leading white space.
pub open spec fn trim_start(s: Seq<char>) -> Seq<char>
    decreases s.len(),
{
    if s.len() > 0 && is_white_space(s[0]) {
        trim_start(s.drop_first())
    } else {
        s
    }
}

/// `s` without its trailing white space.
pub open spec fn trim_end(s: Seq<char>) -> Seq<char>
    decreases s.len(),
{
    if s.len() > 0 && is_white_space(s.last()) {
        trim_end(s.drop_last())
    } else {
        s
    }
}

/// `str::trim`: `s` without leading and trailing white space.
pub open spec fn trim(s: Seq<char>) -> Seq<char> {
    trim_end(trim_start(s))
}

/// The bounds of `chars[from..to]` once trimmed.
pub fn trim_range(chars: &Vec<char>, from: usize, to: usize) -> (r: (usize, usize))
    requires
        from <= to <= chars@.len(),
    ensures
        from <= r.0 <= r.1 <= to,
        chars@.subrange(r.0 as int, r.1 as int) == trim(chars@.subrange(from as int, to as int)),
{
    let mut lo = from;
    while lo < to && white_space(chars[lo])
        invariant
            from <= lo <= to <= chars@.len(),
            trim_start(chars@.subrange(from as int, to as int)) == trim_start(
                chars@.subrange(lo as int, to as int),
            ),
        decreases to - lo,
    {
        assert(chars@.subrange(lo as int, to as int).drop_first() =~= chars@.subrange(
            lo + 1,
            to as int,
        ));
        lo = lo + 1;
    }
    let mut hi = to;
    while hi > lo && white_space(chars[hi - 1])
        invariant
            from <= lo <= hi <= to <= chars@.len(),
            trim(chars@.subrange(from as int, to as int)) == trim_end(
                chars@.subrange(lo as int, hi as int),
            ),
        decreases hi - lo,
    {
        assert(chars@.subrange(lo as int, hi as int).drop_last() =~= chars@.subrange(
            lo as int,
            hi - 1,
        ));
        hi = hi - 1;
    }
    (lo, hi)
}

/// Whether `chars[from..to]` spells `lit`.
pub fn range_is(chars: &Vec<char>, from: usize, to: usize, lit: &str) -> (b: bool)
    requires
        from <= to <= chars@.len(),
    ensures
        b == (chars@.subrange(from as int, to as int) == lit@),
{
    let lit_chars = chars_of(lit);
    if lit_chars.len() != to - from {
        assert(chars@.subrange(from as int, to as int).len() != lit@.len());
        return false;
    }
    let mut i: usize = 0;
    while i < lit_chars.len()
        invariant
            lit_chars@ == lit@,
            lit_chars@.len() == to - from,
            from <= to <= chars@.len(),
            i <= lit_chars@.len(),
            forall|j: int| 0 <= j < i ==> chars@[from + j] == lit_chars@[j],
        decreases lit_chars@.len() - i,
    {
        if chars[from + i] != lit_chars[i] {
            assert(chars@.subrange(from as int, to as int)[i as int] != lit@[i as int]);
            return false;
        }
        i = i + 1;
    }
    assert(chars@.subrange(from as int, to as int) =~= lit@);
    true
}

/// `s` begins with `prefix`.
pub open spec fn starts_with(s: Seq<char>, prefix: Seq<char>) -> bool {
    prefix.len() <= s.len() && s.take(prefix.len() as int) == prefix
}

/// Whether `chars` begins with `lit`, and how many characters `lit` has.
pub fn starts_with_lit(chars: &Vec<char>, lit: &str) -> (r: (bool, usize))
    ensures
        r.0 == starts_with(chars@, lit@),
        r.1 == lit@.len(),
{
    let lit_chars = chars_of(lit);
    let k = lit_chars.len();
    if k > chars.len() {
        return (false, k);
    }
    let b = range_is(chars, 0, k, lit);
    assert(chars@.subrange(0, k as int) == chars@.take(k as int));
    (b, k)
}

/// `prefix` followed by `rest`.
pub fn joined(prefix: &str, rest: &str) -> (s: String)
    ensures
        s@ == prefix@ + rest@,
{
    let mut s = prefix.to_owned();
    s.append(rest);
    s
}

/// The character of the decimal digit `d`.
pub open spec fn digit_char(d: nat) -> char {
    if d == 0 { '0' }
    else if d == 1 { '1' }
    else if d == 2 { '2' }
    else if d == 3 { '3' }
    else if d == 4 { '4' }
    else if d == 5 { '5' }
    else if d == 6 { '6' }
    else if d == 7 { '7' }
    else if d == 8 { '8' }
    else { '9' }
}

/// `n` written in decimal, without leading zeros.
pub open spec fn decimal(n: nat) -> Seq<char>
    decreases n,
{
    if n < 10 {
        seq![digit_char(n)]
    } else {
        decimal(n / 10).push(digit_char(n % 10))
    }
}

/// The text of the decimal digit `d`.
fn digit_text(d: u32) -> (t: &'static str)
    requires
        d < 10,
    ensures
        t@ == seq![digit_char(d as nat)],
{
    proof {
        reveal_strlit("0");
        reveal_strlit("1");
        reveal_strlit("2");
        reveal_strlit("3");
        reveal_strlit("4");
        reveal_strlit("5");
        reveal_strlit("6");
        reveal_strlit("7");
        reveal_strlit("8");
        reveal_strlit("9");
    }
    match d {
        0 => "0",
        1 => "1",
        2 => "2",
        3 => "3",
        4 => "4",
        5 => "5",
        6 => "6",
        7 => "7",
        8 => "8",
        _ => "9",
    }
}

/// `n` written in decimal, without leading zeros, as `Display` writes it.
pub fn u32_text(n: u32) -> (s: String)
    ensures
        s@ == decimal(n as nat),
    decreases n,
{
    if n < 10 {
        digit_text(n).to_owned()
    } else {
        let mut s = u32_text(n / 10);
        s.append(digit_text(n % 10));
        s
    }
}

} // verus!
