//! The portal's answer to a screenshot request: where it put the picture,
//! and whether a picture on the clipboard is the new snip.

use vstd::prelude::*;
use vstd::string::StrSliceExecFns;
use vstd::utf8::{decode_utf8, encode_utf8, valid_utf8};

use crate::text::{chars_of, joined, starts_with, starts_with_lit};

verus! {

/// Where the portal put the picture.
#[derive(Debug, PartialEq)]
pub enum Location {
    File(String),
    Clipboard,
}

/// What `String::from_utf8_lossy` makes of `bytes`: their text, with each
/// invalid sequence replaced by U+FFFD.
pub uninterp spec fn utf8_lossy(bytes: Seq<u8>) -> Seq<char>;

/// `String::from_utf8_lossy`, owned. Claimed of it: the text is a function of
/// the bytes alone; valid UTF-8 decodes to its own characters; no bytes give
/// no text, and some bytes give some text.
#[verifier::external_body]
fn string_from_utf8_lossy(bytes: &[u8]) -> (s: String)
    ensures
        s@ == utf8_lossy(bytes@),
        valid_utf8(bytes@) ==> s@ == decode_utf8(bytes@),
        s@.len() == 0 <==> bytes@.len() == 0,
{
    String::from_utf8_lossy(bytes).into_owned()
}

/// The value of an ASCII hex digit.
pub open spec fn hex_digit(b: u8) -> Option<u8> {
    if 48 <= b <= 57 {
        Some((b - 48) as u8)
    } else if 97 <= b <= 102 {
        Some((b - 87) as u8)
    } else if 65 <= b <= 70 {
        Some((b - 55) as u8)
    } else {
        None
    }
}

/// `u8::from_str_radix` in base 16 on the two characters `b1 b2`: two hex
/// digits, or a `+` sign and one.
pub open spec fn hex_pair(b1: u8, b2: u8) -> Option<u8> {
    if b1 == 43 {
        hex_digit(b2)
    } else {
        match (hex_digit(b1), hex_digit(b2)) {
            (Some(h), Some(l)) => Some((h * 16 + l) as u8),
            _ => None,
        }
    }
}

/// The bytes of a percent-encoded path, decoded: each `%` followed by two
/// more bytes that read as a hex number stands for that byte; every other
/// byte stands for itself.
pub open spec fn percent_decoded(bytes: Seq<u8>) -> Seq<u8>
    decreases bytes.len(),
{
    if bytes.len() == 0 {
        seq![]
    } else if bytes[0] == 37 && bytes.len() > 2 && hex_pair(bytes[1], bytes[2]) is Some {
        seq![hex_pair(bytes[1], bytes[2])->0] + percent_decoded(bytes.skip(3))
    } else {
        seq![bytes[0]] + percent_decoded(bytes.skip(1))
    }
}

/// The path a `file://` URI names: the rest of the URI, percent-decoded, as
/// text.
pub open spec fn file_uri_path(rest: Seq<char>) -> Seq<char> {
    utf8_lossy(percent_decoded(encode_utf8(rest)))
}

fn hex_digit_of(b: u8) -> (v: Option<u8>)
    ensures
        v == hex_digit(b),
{
    if 48 <= b && b <= 57 {
        Some(b - 48)
    } else if 97 <= b && b <= 102 {
        Some(b - 87)
    } else if 65 <= b && b <= 70 {
        Some(b - 55)
    } else {
        None
    }
}

fn hex_pair_of(b1: u8, b2: u8) -> (v: Option<u8>)
    ensures
        v == hex_pair(b1, b2),
{
    if b1 == 43 {
        return hex_digit_of(b2);
    }
    match (hex_digit_of(b1), hex_digit_of(b2)) {
        (Some(h), Some(l)) => Some(h * 16 + l),
        _ => None,
    }
}

/// Percent-decoding gives no bytes exactly when it is given none.
proof fn lemma_percent_decoded_empty(bytes: Seq<u8>)
    ensures
        percent_decoded(bytes).len() == 0 <==> bytes.len() == 0,
{
}

/// Bytes without a `%` decode to themselves.
proof fn lemma_percent_decoded_plain(bytes: Seq<u8>)
    requires
        !bytes.contains(37u8),
    ensures
        percent_decoded(bytes) == bytes,
    decreases bytes.len(),
{
    if bytes.len() > 0 {
        assert(!bytes.skip(1).contains(37u8)) by {
            if bytes.skip(1).contains(37u8) {
                let i = choose|i: int| 0 <= i < bytes.skip(1).len() && bytes.skip(1)[i] == 37u8;
                assert(bytes[i + 1] == 37u8);
            }
        }
        assert(bytes[0] != 37u8) by {
            assert(bytes[0] == bytes[0int]);
        }
        lemma_percent_decoded_plain(bytes.skip(1));
        assert(seq![bytes[0]] + bytes.skip(1) =~= bytes);
    }
}

/// The UTF-8 encoding of a character other than `%` holds no `%` byte: a
/// multi-byte encoding has the high bit set in every byte.
proof fn lemma_scalar_without_percent(c: char)
    requires
        c != '%',
    ensures
        !vstd::utf8::encode_scalar(c as u32).contains(37u8),
{
    vstd::utf8::char_is_scalar(c);
    let u = c as u32;
    let e = vstd::utf8::encode_scalar(u);
    assert(u <= 0x7f ==> (u & 0x7f) == u) by (bit_vector);
    assert(forall|x: u8| #![auto] (0x80u8 | x) >= 0x80) by (bit_vector);
    assert(forall|x: u8| #![auto] (0xC0u8 | x) >= 0x80) by (bit_vector);
    assert(forall|x: u8| #![auto] (0xE0u8 | x) >= 0x80) by (bit_vector);
    assert(forall|x: u8| #![auto] (0xF0u8 | x) >= 0x80) by (bit_vector);
    if e.contains(37u8) {
        let i = choose|i: int| 0 <= i < e.len() && e[i] == 37u8;
        if u <= 0x7f {
            assert(('%' as u32) == 37);
            vstd::utf8::char_u32_cast(c, u);
        }
    }
}

/// Text without a `%` encodes to bytes without a `%`.
proof fn lemma_encoding_without_percent(s: Seq<char>)
    requires
        !s.contains('%'),
    ensures
        !encode_utf8(s).contains(37u8),
    decreases s.len(),
{
    if s.len() > 0 {
        assert(s[0] != '%');
        lemma_scalar_without_percent(s[0]);
        assert(!s.drop_first().contains('%')) by {
            if s.drop_first().contains('%') {
                let i = choose|i: int| 0 <= i < s.drop_first().len() && s.drop_first()[i] == '%';
                assert(s[i + 1] == '%');
            }
        }
        lemma_encoding_without_percent(s.drop_first());
        let head = vstd::utf8::encode_scalar(s[0] as u32);
        let all = encode_utf8(s);
        assert(all == head + encode_utf8(s.drop_first()));
        if all.contains(37u8) {
            let i = choose|i: int| 0 <= i < all.len() && all[i] == 37u8;
            if i < head.len() {
                assert(head[i] == 37u8);
            } else {
                assert(encode_utf8(s.drop_first())[i - head.len()] == 37u8);
            }
        }
    }
}

/// A path with no `%` in it decodes to itself.
pub proof fn lemma_plain_path_is_itself(rest: Seq<char>)
    requires
        !rest.contains('%'),
    ensures
        percent_decoded(encode_utf8(rest)) == encode_utf8(rest),
        valid_utf8(percent_decoded(encode_utf8(rest))),
        decode_utf8(percent_decoded(encode_utf8(rest))) == rest,
{
    lemma_encoding_without_percent(rest);
    lemma_percent_decoded_plain(encode_utf8(rest));
    vstd::utf8::encode_utf8_valid_utf8(rest);
    vstd::utf8::encode_utf8_decode_utf8(rest);
}

/// Decodes the `%XX` escapes of a path.
pub fn percent_decode(s: &str) -> (decoded: String)
    ensures
        decoded@ == utf8_lossy(percent_decoded(encode_utf8(s@))),
        valid_utf8(percent_decoded(encode_utf8(s@))) ==> decoded@ == decode_utf8(
            percent_decoded(encode_utf8(s@)),
        ),
        decoded@.len() == 0 <==> s@.len() == 0,
{
    proof {
        vstd::utf8::encode_utf8_decode_utf8(s@);
        lemma_percent_decoded_empty(encode_utf8(s@));
    }
    let bytes = s.as_bytes();
    let ghost all = bytes@;
    let mut out: Vec<u8> = Vec::with_capacity(bytes.len());
    let mut i: usize = 0;
    assert(all.skip(0) =~= all);
    assert(out@ + percent_decoded(all.skip(0)) =~= percent_decoded(all));
    while i < bytes.len()
        invariant
            bytes@ == all,
            i <= bytes@.len(),
            percent_decoded(all) == out@ + percent_decoded(all.skip(i as int)),
        decreases bytes@.len() - i,
    {
        let ghost rest = all.skip(i as int);
        if bytes[i] == 37 && bytes.len() - i > 2 {
            if let Some(v) = hex_pair_of(bytes[i + 1], bytes[i + 2]) {
                assert(rest.skip(3) =~= all.skip(i + 3));
                out.push(v);
                i = i + 3;
                continue;
            }
        }
        assert(rest.skip(1) =~= all.skip(i + 1));
        out.push(bytes[i]);
        i = i + 1;
    }
    assert(out@ + percent_decoded(all.skip(i as int)) =~= out@);
    string_from_utf8_lossy(out.as_slice())
}

/// Classifies the URI the portal answers with.
pub fn locate(uri: &str) -> (res: Result<Location, String>)
    ensures
        starts_with(uri@, "file://"@) ==> ({
            let rest = uri@.skip("file://"@.len() as int);
            if rest.len() == 0 {
                res matches Err(msg) && msg@ == "portal returned an empty file URI: "@ + uri@
            } else {
                &&& res matches Ok(Location::File(p)) && p@ == file_uri_path(rest)
                &&& valid_utf8(percent_decoded(encode_utf8(rest))) ==> file_uri_path(rest)
                    == decode_utf8(percent_decoded(encode_utf8(rest)))
                &&& !rest.contains('%') ==> file_uri_path(rest) == rest
            }
        }),
        !starts_with(uri@, "file://"@) && starts_with(uri@, "clipboard:"@) ==> res
            == Ok::<Location, String>(Location::Clipboard),
        !starts_with(uri@, "file://"@) && !starts_with(uri@, "clipboard:"@) ==> (res matches Err(
            msg,
        ) && msg@ == "portal returned an unsupported URI: "@ + uri@),
{
    let chars = chars_of(uri);
    let (is_file, k) = starts_with_lit(&chars, "file://");
    if is_file {
        let rest = uri.substring_char(k, chars.len());
        assert(rest@ == uri@.skip(k as int));
        let path = percent_decode(rest);
        proof {
            if !rest@.contains('%') {
                lemma_plain_path_is_itself(rest@);
            }
        }
        if path.as_str().is_empty() {
            return Err(joined("portal returned an empty file URI: ", uri));
        }
        return Ok(Location::File(path));
    }
    let (is_clipboard, _) = starts_with_lit(&chars, "clipboard:");
    if is_clipboard {
        return Ok(Location::Clipboard);
    }
    Err(joined("portal returned an unsupported URI: ", uri))
}

/// True when `now` is a picture the clipboard did not hold before the request.
pub fn is_fresh(before: Option<&[u8]>, now: &[u8]) -> (fresh: bool)
    ensures
        fresh == (now@.len() > 0 && !(before matches Some(b) && b@ == now@)),
{
    if now.len() == 0 {
        return false;
    }
    match before {
        None => true,
        Some(b) => {
            if b.len() != now.len() {
                return true;
            }
            let mut i: usize = 0;
            while i < now.len()
                invariant
                    before == Some(b),
                    b@.len() == now@.len(),
                    i <= now@.len(),
                    forall|j: int| 0 <= j < i ==> b@[j] == now@[j],
                decreases now@.len() - i,
            {
                if b[i] != now[i] {
                    assert(b@[i as int] != now@[i as int]);
                    return true;
                }
                i = i + 1;
            }
            assert(b@ =~= now@);
            false
        },
    }
}

/// How many times the clipboard is read, 50 ms apart, while waiting for the
/// portal's copy.
pub const CLIPBOARD_POLLS: u32 = 100;

/// What to do after reading the clipboard while waiting for the portal's copy.
#[derive(Clone, Copy, Debug, PartialEq, Eq, Structural)]
pub enum PollAction {
    /// The picture just read is the snip.
    Take,
    /// Wait, then read again.
    Retry,
    /// Wait, then give up: the clipboard still holds what it held before.
    GiveUp,
}

/// The picture `now` (or `None`, when the clipboard held no PNG) is the snip.
pub open spec fn fresh_picture(before: Option<&[u8]>, now: Option<&[u8]>) -> bool {
    now matches Some(n) && n@.len() > 0 && !(before matches Some(b) && b@ == n@)
}

/// The decision after read number `attempt` (counted from 0): take a fresh
/// picture; otherwise read again until `CLIPBOARD_POLLS` reads are spent.
pub open spec fn poll_action(attempt: u32, before: Option<&[u8]>, now: Option<&[u8]>) -> PollAction {
    if fresh_picture(before, now) {
        PollAction::Take
    } else if attempt + 1 < CLIPBOARD_POLLS {
        PollAction::Retry
    } else {
        PollAction::GiveUp
    }
}

/// What to do after read number `attempt` of the clipboard, which gave `now`.
pub fn clipboard_poll(attempt: u32, before: Option<&[u8]>, now: Option<&[u8]>) -> (action:
    PollAction)
    ensures
        action == poll_action(attempt, before, now),
{
    if let Some(n) = now {
        if is_fresh(before, n) {
            return PollAction::Take;
        }
    }
    if attempt < CLIPBOARD_POLLS - 1 {
        PollAction::Retry
    } else {
        PollAction::GiveUp
    }
}

/// The wait is bounded: a stale clipboard is read again only while fewer than
/// `CLIPBOARD_POLLS` reads are spent, so reading from 0 and counting each
/// `Retry` ends after `CLIPBOARD_POLLS` reads at most; and the previous picture
/// is never taken for the snip.
pub proof fn lemma_wait_is_bounded(attempt: u32, before: Option<&[u8]>, now: Option<&[u8]>)
    ensures
        poll_action(attempt, before, now) == PollAction::Retry ==> attempt + 1 < CLIPBOARD_POLLS,
        attempt + 1 >= CLIPBOARD_POLLS ==> poll_action(attempt, before, now) != PollAction::Retry,
        before matches Some(b) && now matches Some(n) && b@ == n@ ==> poll_action(
            attempt,
            before,
            now,
        ) != PollAction::Take,
{
}

/// The clipboard is read again after every read that gives no fresh picture,
/// while fewer than 100 reads are spent: when it holds no PNG, an empty one,
/// or the picture it held before. A non-empty picture other than the one held
/// before is taken, at any read. After the hundredth stale read the wait ends.
pub proof fn lemma_poll_reads_on(attempt: u32, before: Option<&[u8]>, now: Option<&[u8]>)
    ensures
        CLIPBOARD_POLLS == 100,
        attempt + 1 < 100 && now is None ==> poll_action(attempt, before, now) == PollAction::Retry,
        attempt + 1 < 100 ==> (now matches Some(n) && n@.len() == 0 ==> poll_action(
            attempt,
            before,
            now,
        ) == PollAction::Retry),
        attempt + 1 < 100 ==> (before matches Some(b) && now matches Some(n) && b@ == n@
            ==> poll_action(attempt, before, now) == PollAction::Retry),
        now matches Some(n) && n@.len() > 0 && before is None ==> poll_action(attempt, before, now)
            == PollAction::Take,
        before matches Some(b) && now matches Some(n) && n@.len() > 0 && b@ != n@ ==> poll_action(
            attempt,
            before,
            now,
        ) == PollAction::Take,
        attempt + 1 >= 100 && now is None ==> poll_action(attempt, before, now)
            == PollAction::GiveUp,
{
}

/// A `%` escape decodes to the byte its two hex digits spell, the letters
/// A to F counting in either case as 10 to 15; the rest decodes after it.
pub proof fn lemma_escape(h1: u8, h2: u8, rest: Seq<u8>)
    requires
        48 <= h1 <= 57 || 65 <= h1 <= 70 || 97 <= h1 <= 102,
        48 <= h2 <= 57 || 65 <= h2 <= 70 || 97 <= h2 <= 102,
    ensures
        ({
            let v1 = if h1 <= 57 { h1 - 48 } else if h1 <= 70 { h1 - 55 } else { h1 - 87 };
            let v2 = if h2 <= 57 { h2 - 48 } else if h2 <= 70 { h2 - 55 } else { h2 - 87 };
            percent_decoded(seq![37u8, h1, h2] + rest) == seq![(v1 * 16 + v2) as u8]
                + percent_decoded(rest)
        }),
{
    let s = seq![37u8, h1, h2] + rest;
    assert(s[0] == 37u8 && s[1] == h1 && s[2] == h2);
    assert(s.skip(3) =~= rest);
}

/// Escapes ignore case: upper-case hex letters decode as the lower-case ones.
pub proof fn lemma_escape_case(h1: u8, h2: u8, l1: u8, l2: u8, rest: Seq<u8>)
    requires
        48 <= h1 <= 57 || 65 <= h1 <= 70 || 97 <= h1 <= 102,
        48 <= h2 <= 57 || 65 <= h2 <= 70 || 97 <= h2 <= 102,
        l1 == if 65 <= h1 <= 70 { (h1 + 32) as u8 } else { h1 },
        l2 == if 65 <= h2 <= 70 { (h2 + 32) as u8 } else { h2 },
    ensures
        percent_decoded(seq![37u8, h1, h2] + rest) == percent_decoded(seq![37u8, l1, l2] + rest),
{
    lemma_escape(h1, h2, rest);
    lemma_escape(l1, l2, rest);
}

/// A `+` sign before one hex digit reads as that digit, as
/// `u8::from_str_radix` reads it.
pub proof fn lemma_signed_escape(h: u8, rest: Seq<u8>)
    requires
        48 <= h <= 57 || 65 <= h <= 70 || 97 <= h <= 102,
    ensures
        ({
            let v = if h <= 57 { h - 48 } else if h <= 70 { h - 55 } else { h - 87 };
            percent_decoded(seq![37u8, 43u8, h] + rest) == seq![v as u8] + percent_decoded(rest)
        }),
{
    let s = seq![37u8, 43u8, h] + rest;
    assert(s[0] == 37u8 && s[1] == 43u8 && s[2] == h);
    assert(s.skip(3) =~= rest);
}

/// A `%` not followed by a hex number stands for itself, and decoding goes on
/// with the byte after it.
pub proof fn lemma_bare_percent(b1: u8, b2: u8, rest: Seq<u8>)
    requires
        !(48 <= b2 <= 57 || 65 <= b2 <= 70 || 97 <= b2 <= 102),
    ensures
        percent_decoded(seq![37u8, b1, b2] + rest) == seq![37u8] + percent_decoded(
            seq![b1, b2] + rest,
        ),
{
    let s = seq![37u8, b1, b2] + rest;
    assert(s[1] == b1 && s[2] == b2);
    assert(s.skip(1) =~= seq![b1, b2] + rest);
}

} // verus!
