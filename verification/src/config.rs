//! The palette's colour names and the limits that the editor keeps.

use vstd::prelude::*;

use crate::text::range_is;

verus! {

/// The most committed strokes the undo history holds.
pub const MAX_UNDO_HISTORY: usize = 200;

/// The most points one freehand stroke holds.
pub const MAX_STROKE_POINTS: usize = 10_000;

/// The widest snip the editor accepts, in pixels.
pub const MAX_IMAGE_WIDTH: u32 = 15_360;

/// The tallest snip the editor accepts, in pixels.
pub const MAX_IMAGE_HEIGHT: u32 = 8_640;

/// How many colours the palette offers.
pub const PALETTE_LEN: usize = 6;

/// The name under which the palette's colour `index` is stored.
pub open spec fn palette_name_spec(index: int) -> Seq<char> {
    if index == 0 {
        "red"@
    } else if index == 1 {
        "orange"@
    } else if index == 2 {
        "blue"@
    } else if index == 3 {
        "green"@
    } else if index == 4 {
        "black"@
    } else {
        "white"@
    }
}

/// The label the palette's colour `index` is shown with.
pub open spec fn palette_label_spec(index: int) -> Seq<char> {
    if index == 0 {
        "Red"@
    } else if index == 1 {
        "Orange"@
    } else if index == 2 {
        "Blue"@
    } else if index == 3 {
        "Green"@
    } else if index == 4 {
        "Black"@
    } else {
        "White"@
    }
}

/// The stored name of the palette's colour `index`.
pub fn palette_name(index: usize) -> (name: &'static str)
    requires
        index < PALETTE_LEN,
    ensures
        name@ == palette_name_spec(index as int),
{
    match index {
        0 => "red",
        1 => "orange",
        2 => "blue",
        3 => "green",
        4 => "black",
        _ => "white",
    }
}

/// The shown label of the palette's colour `index`.
pub fn palette_label(index: usize) -> (label: &'static str)
    requires
        index < PALETTE_LEN,
    ensures
        label@ == palette_label_spec(index as int),
{
    match index {
        0 => "Red",
        1 => "Orange",
        2 => "Blue",
        3 => "Green",
        4 => "Black",
        _ => "White",
    }
}

/// The first palette colour stored under `name`.
pub open spec fn palette_index_of(name: Seq<char>) -> Option<usize> {
    if name == palette_name_spec(0) {
        Some(0)
    } else if name == palette_name_spec(1) {
        Some(1)
    } else if name == palette_name_spec(2) {
        Some(2)
    } else if name == palette_name_spec(3) {
        Some(3)
    } else if name == palette_name_spec(4) {
        Some(4)
    } else if name == palette_name_spec(5) {
        Some(5)
    } else {
        None
    }
}

/// The palette colour stored under the name `chars[from..to]`, if any.
pub fn palette_index(chars: &Vec<char>, from: usize, to: usize) -> (index: Option<usize>)
    requires
        from <= to <= chars@.len(),
    ensures
        index == palette_index_of(chars@.subrange(from as int, to as int)),
{
    let ghost name = chars@.subrange(from as int, to as int);
    let mut i: usize = 0;
    while i < PALETTE_LEN
        invariant
            from <= to <= chars@.len(),
            name == chars@.subrange(from as int, to as int),
            i <= PALETTE_LEN,
            forall|j: int| 0 <= j < i ==> name != palette_name_spec(j),
        decreases PALETTE_LEN - i,
    {
        if range_is(chars, from, to, palette_name(i)) {
            assert(i == 0 || i == 1 || i == 2 || i == 3 || i == 4 || i == 5);
            return Some(i);
        }
        i = i + 1;
    }
    None
}

/// A colour index brought into the palette: the last colour stands for
/// every index past the end.
pub fn clamp_color(index: usize) -> (clamped: usize)
    ensures
        clamped == if index < PALETTE_LEN { index } else { (PALETTE_LEN - 1) as usize },
{
    if index < PALETTE_LEN {
        index
    } else {
        PALETTE_LEN - 1
    }
}

} // verus!
