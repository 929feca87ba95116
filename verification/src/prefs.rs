//! The structure of the file in which the editor remembers the colour and the
//! stroke widths between snips: `key=value` lines.
//!
//! Reading finds, line by line, the settings the file holds; a line that is
//! not `key=value`, a key that is unknown, or a colour that the palette does
//! not name, is passed over, so a damaged file never stops the editor from
//! opening. A width is handed on as the text of its value, trimmed; the
//! caller reads it as a number. Lines end at `\n`; a `\r` before it is white
//! space at the end of the value, and trimmed with it.

use vstd::prelude::*;
use vstd::string::StrSliceExecFns;

use crate::config::{
    clamp_color, palette_index, palette_index_of, palette_name, palette_name_spec, PALETTE_LEN,
};
use crate::text::{chars_of, joined, range_is, trim, trim_range};

verus! {

/// One setting the file holds.
#[derive(Debug, PartialEq)]
pub enum Setting {
    /// An index into the palette.
    Color(usize),
    /// The text of the pen's width.
    PenWidth(String),
    /// The text of the highlighter's width.
    HighlightWidth(String),
}

/// A setting as the contracts see it.
pub enum SettingView {
    Color(usize),
    PenWidth(Seq<char>),
    HighlightWidth(Seq<char>),
}

impl View for Setting {
    type V = SettingView;

    open spec fn view(&self) -> SettingView {
        match self {
            Setting::Color(i) => SettingView::Color(*i),
            Setting::PenWidth(w) => SettingView::PenWidth(w@),
            Setting::HighlightWidth(w) => SettingView::HighlightWidth(w@),
        }
    }
}

/// Where `c` first occurs in `s`.
pub open spec fn first_index_of(s: Seq<char>, c: char) -> Option<int>
    decreases s.len(),
{
    if s.len() == 0 {
        None
    } else if s[0] == c {
        Some(0)
    } else {
        match first_index_of(s.drop_first(), c) {
            Some(i) => Some(i + 1),
            None => None,
        }
    }
}

/// `first_index_of` finds the first occurrence, or tells that there is none.
pub proof fn lemma_first_index_of(s: Seq<char>, c: char)
    ensures
        first_index_of(s, c) matches Some(i) ==> {
            &&& 0 <= i < s.len()
            &&& s[i] == c
            &&& forall|j: int| 0 <= j < i ==> s[j] != c
        },
        first_index_of(s, c) is None ==> forall|j: int| 0 <= j < s.len() ==> s[j] != c,
    decreases s.len(),
{
    if s.len() > 0 {
        lemma_first_index_of(s.drop_first(), c);
        if s[0] != c {
            assert forall|j: int| 0 < j < s.len() implies #[trigger] s[j] == s.drop_first()[j - 1] by {}
        }
    }
}

/// The setting one line holds, if any: the key and the value are what stand
/// before and after the line's first `=`, trimmed.
pub open spec fn line_setting(line: Seq<char>) -> Seq<SettingView> {
    match first_index_of(line, '=') {
        None => seq![],
        Some(k) => {
            let key = trim(line.take(k));
            let value = trim(line.skip(k + 1));
            if key == "color"@ {
                match palette_index_of(value) {
                    Some(i) => seq![SettingView::Color(i)],
                    None => seq![],
                }
            } else if key == "pen_width"@ {
                seq![SettingView::PenWidth(value)]
            } else if key == "highlight_width"@ {
                seq![SettingView::HighlightWidth(value)]
            } else {
                seq![]
            }
        },
    }
}

/// The settings a text holds, line by line, in order.
pub open spec fn text_settings(s: Seq<char>) -> Seq<SettingView>
    decreases s.len(),
{
    match first_index_of(s, '\n') {
        None => line_setting(s),
        Some(k) => {
            proof {
                lemma_first_index_of(s, '\n');
            }
            line_setting(s.take(k)) + text_settings(s.skip(k + 1))
        },
    }
}

/// The first `c` in `chars[from..to]`, or `to` when there is none.
fn find_char(chars: &Vec<char>, from: usize, to: usize, c: char) -> (k: usize)
    requires
        from <= to <= chars@.len(),
    ensures
        from <= k <= to,
        k < to ==> chars@[k as int] == c,
        forall|j: int| from <= j < k ==> chars@[j] != c,
{
    let mut k = from;
    while k < to && chars[k] != c
        invariant
            from <= k <= to <= chars@.len(),
            forall|j: int| from <= j < k ==> chars@[j] != c,
        decreases to - k,
    {
        k = k + 1;
    }
    k
}

/// `first_index_of` on `s[from..]`, from where `c` was searched for in it.
proof fn lemma_found(s: Seq<char>, from: int, k: int, c: char)
    requires
        0 <= from <= k <= s.len(),
        k < s.len() ==> s[k] == c,
        forall|j: int| from <= j < k ==> s[j] != c,
    ensures
        first_index_of(s.subrange(from, s.len() as int), c) == if k < s.len() {
            Some(k - from)
        } else {
            None::<int>
        },
{
    let t = s.subrange(from, s.len() as int);
    lemma_first_index_of(t, c);
    if k < s.len() {
        assert(t[k - from] == c);
        match first_index_of(t, c) {
            Some(i) => {
                if i < k - from {
                    assert(s[from + i] == c);
                }
            },
            None => {},
        }
    } else {
        match first_index_of(t, c) {
            Some(i) => {
                assert(s[from + i] == c);
            },
            None => {},
        }
    }
}

/// The setting the line `chars[from..to]` holds, appended to `out`.
fn read_line(text: &str, chars: &Vec<char>, from: usize, to: usize, out: &mut Vec<Setting>)
    requires
        chars@ == text@,
        from <= to <= chars@.len(),
    ensures
        final(out)@.map_values(|s: Setting| s@) == old(out)@.map_values(|s: Setting| s@) + line_setting(
            chars@.subrange(from as int, to as int),
        ),
{
    let ghost line = chars@.subrange(from as int, to as int);
    let ghost before = out@.map_values(|s: Setting| s@);
    let eq = find_char(chars, from, to, '=');
    proof {
        lemma_found(chars@.subrange(0, to as int), from as int, eq as int, '=');
        assert(chars@.subrange(0, to as int).subrange(from as int, to as int) =~= line);
    }
    if eq == to {
        assert(out@.map_values(|s: Setting| s@) =~= before + line_setting(line));
        return;
    }
    let (key_lo, key_hi) = trim_range(chars, from, eq);
    let (value_lo, value_hi) = trim_range(chars, eq + 1, to);
    proof {
        assert(line.take(eq - from) =~= chars@.subrange(from as int, eq as int));
        assert(line.skip(eq - from + 1) =~= chars@.subrange(eq + 1, to as int));
    }
    if range_is(chars, key_lo, key_hi, "color") {
        if let Some(i) = palette_index(chars, value_lo, value_hi) {
            out.push(Setting::Color(i));
        }
    } else if range_is(chars, key_lo, key_hi, "pen_width") {
        let v = text.substring_char(value_lo, value_hi).to_owned();
        out.push(Setting::PenWidth(v));
    } else if range_is(chars, key_lo, key_hi, "highlight_width") {
        let v = text.substring_char(value_lo, value_hi).to_owned();
        out.push(Setting::HighlightWidth(v));
    }
    assert(out@.map_values(|s: Setting| s@) =~= before + line_setting(line));
}

/// The settings `text` holds, in the order of its lines.
pub fn settings(text: &str) -> (found: Vec<Setting>)
    ensures
        found@.map_values(|s: Setting| s@) == text_settings(text@),
{
    let chars = chars_of(text);
    let n = chars.len();
    let mut out: Vec<Setting> = Vec::new();
    let mut pos: usize = 0;
    proof {
        assert(chars@.subrange(0, n as int) =~= chars@);
        assert(out@.map_values(|s: Setting| s@) + text_settings(chars@) =~= text_settings(chars@));
    }
    loop
        invariant
            chars@ == text@,
            n == chars@.len(),
            pos <= n,
            text_settings(chars@) == out@.map_values(|s: Setting| s@) + text_settings(
                chars@.subrange(pos as int, n as int),
            ),
        decreases n - pos,
    {
        let ghost rest = chars@.subrange(pos as int, n as int);
        let k = find_char(&chars, pos, n, '\n');
        proof {
            lemma_found(chars@, pos as int, k as int, '\n');
        }
        let ghost acc = out@.map_values(|s: Setting| s@);
        read_line(text, &chars, pos, k, &mut out);
        if k == n {
            assert(rest =~= chars@.subrange(pos as int, k as int));
            assert(out@.map_values(|s: Setting| s@) =~= acc + text_settings(rest));
            return out;
        }
        proof {
            assert(rest.take(k - pos) =~= chars@.subrange(pos as int, k as int));
            assert(rest.skip(k - pos + 1) =~= chars@.subrange(k + 1, n as int));
            assert(acc + line_setting(rest.take(k - pos)) + text_settings(rest.skip(k - pos + 1))
                =~= acc + (line_setting(rest.take(k - pos)) + text_settings(rest.skip(k - pos + 1))));
        }
        pos = k + 1;
    }
}

/// The text the file holds for a colour and two width texts.
pub open spec fn prefs_text(color: usize, pen_width: Seq<char>, highlight_width: Seq<char>) -> Seq<
    char,
> {
    let index = if color < PALETTE_LEN { color } else { (PALETTE_LEN - 1) as usize };
    "color="@ + palette_name_spec(index as int) + "\npen_width="@ + pen_width
        + "\nhighlight_width="@ + highlight_width + "\n"@
}

/// The file's text for the colour `color` (past the palette's end, its last
/// colour) and the widths written as `pen_width` and `highlight_width`.
pub fn format_prefs(color: usize, pen_width: &str, highlight_width: &str) -> (text: String)
    ensures
        text@ == prefs_text(color, pen_width@, highlight_width@),
{
    let mut text = joined("color=", palette_name(clamp_color(color)));
    text.append("\npen_width=");
    text.append(pen_width);
    text.append("\nhighlight_width=");
    text.append(highlight_width);
    text.append("\n");
    text
}

/// The first `c` in `a + [c] + b`, where `a` holds none, is the one after `a`.
proof fn lemma_first_after(a: Seq<char>, c: char, b: Seq<char>)
    requires
        !a.contains(c),
    ensures
        first_index_of(a + seq![c] + b, c) == Some(a.len() as int),
{
    let s = a + seq![c] + b;
    lemma_first_index_of(s, c);
    assert(s[a.len() as int] == c);
    match first_index_of(s, c) {
        Some(i) => {
            if i < a.len() {
                assert(a[i] == s[i]);
            }
        },
        None => {},
    }
}

/// A text without `c` holds no first `c`.
proof fn lemma_first_none(s: Seq<char>, c: char)
    requires
        !s.contains(c),
    ensures
        first_index_of(s, c) is None,
{
    lemma_first_index_of(s, c);
}

/// Text that neither begins nor ends with white space is its own trim.
proof fn lemma_trim_plain(s: Seq<char>)
    requires
        s.len() > 0,
        !crate::text::is_white_space(s[0]),
        !crate::text::is_white_space(s.last()),
    ensures
        trim(s) == s,
{
}

/// A text is its first line's setting followed by the rest's.
proof fn lemma_line_then_rest(a: Seq<char>, rest: Seq<char>)
    requires
        !a.contains('\n'),
    ensures
        text_settings(a + seq!['\n'] + rest) == line_setting(a) + text_settings(rest),
{
    let s = a + seq!['\n'] + rest;
    lemma_first_after(a, '\n', rest);
    assert(s.take(a.len() as int) =~= a);
    assert(s.skip(a.len() as int + 1) =~= rest);
}

/// The setting of the line `key=value`, where `key` holds no `=`.
proof fn lemma_key_value(key: Seq<char>, value: Seq<char>)
    requires
        !key.contains('='),
    ensures
        ({
            let line = key + seq!['='] + value;
            &&& first_index_of(line, '=') == Some(key.len() as int)
            &&& line.take(key.len() as int) == key
            &&& line.skip(key.len() as int + 1) == value
        }),
{
    let line = key + seq!['='] + value;
    lemma_first_after(key, '=', value);
    assert(line.take(key.len() as int) =~= key);
    assert(line.skip(key.len() as int + 1) =~= value);
}

/// What is written is read back: the text written for a colour and two width
/// texts without line breaks holds that colour (brought into the palette) and
/// those width texts, trimmed, in that order.
pub proof fn lemma_written_is_read_back(color: usize, pen_width: Seq<char>, highlight_width: Seq<char>)
    requires
        !pen_width.contains('\n'),
        !highlight_width.contains('\n'),
    ensures
        text_settings(prefs_text(color, pen_width, highlight_width)) == seq![
            SettingView::Color(if color < PALETTE_LEN { color } else { (PALETTE_LEN - 1) as usize }),
            SettingView::PenWidth(trim(pen_width)),
            SettingView::HighlightWidth(trim(highlight_width)),
        ],
{
    reveal_strlit("color=");
    reveal_strlit("\npen_width=");
    reveal_strlit("\nhighlight_width=");
    reveal_strlit("\n");
    reveal_strlit("color");
    reveal_strlit("pen_width");
    reveal_strlit("highlight_width");
    reveal_strlit("red");
    reveal_strlit("orange");
    reveal_strlit("blue");
    reveal_strlit("green");
    reveal_strlit("black");
    reveal_strlit("white");
    let index = if color < PALETTE_LEN { color } else { (PALETTE_LEN - 1) as usize };
    let name = palette_name_spec(index as int);
    let color_key = "color"@;
    let pen_key = "pen_width"@;
    let highlight_key = "highlight_width"@;
    assert(!color_key.contains('=') && !color_key.contains('\n'));
    assert(!pen_key.contains('=') && !pen_key.contains('\n'));
    assert(!highlight_key.contains('=') && !highlight_key.contains('\n'));
    assert(!name.contains('\n'));
    let line1 = color_key + seq!['='] + name;
    let line2 = pen_key + seq!['='] + pen_width;
    let line3 = highlight_key + seq!['='] + highlight_width;
    let text = prefs_text(color, pen_width, highlight_width);
    assert(text =~= line1 + seq!['\n'] + (line2 + seq!['\n'] + (line3 + seq!['\n']
        + Seq::<char>::empty())));
    assert(!line1.contains('\n')) by {
        if line1.contains('\n') {
            let i = choose|i: int| 0 <= i < line1.len() && line1[i] == '\n';
            if i >= color_key.len() + 1 {
                assert(name[i - color_key.len() - 1] == '\n');
            }
        }
    }
    assert(!line2.contains('\n')) by {
        if line2.contains('\n') {
            let i = choose|i: int| 0 <= i < line2.len() && line2[i] == '\n';
            if i >= pen_key.len() + 1 {
                assert(pen_width[i - pen_key.len() - 1] == '\n');
            }
        }
    }
    assert(!line3.contains('\n')) by {
        if line3.contains('\n') {
            let i = choose|i: int| 0 <= i < line3.len() && line3[i] == '\n';
            if i >= highlight_key.len() + 1 {
                assert(highlight_width[i - highlight_key.len() - 1] == '\n');
            }
        }
    }
    lemma_line_then_rest(line1, line2 + seq!['\n'] + (line3 + seq!['\n'] + Seq::<char>::empty()));
    lemma_line_then_rest(line2, line3 + seq!['\n'] + Seq::<char>::empty());
    lemma_line_then_rest(line3, Seq::<char>::empty());
    lemma_first_none(Seq::<char>::empty(), '\n');
    lemma_first_none(Seq::<char>::empty(), '=');
    lemma_key_value(color_key, name);
    lemma_key_value(pen_key, pen_width);
    lemma_key_value(highlight_key, highlight_width);
    lemma_trim_plain(color_key);
    lemma_trim_plain(pen_key);
    lemma_trim_plain(highlight_key);
    lemma_trim_plain(name);
    assert(palette_index_of(name) == Some(index));
    assert(line_setting(line1) =~= seq![SettingView::Color(index)]);
    assert(line_setting(line2) =~= seq![SettingView::PenWidth(trim(pen_width))]);
    assert(line_setting(line3) =~= seq![SettingView::HighlightWidth(trim(highlight_width))]);
}

} // verus!
