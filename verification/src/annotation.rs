//! The annotations drawn over a snip, and their undo history.
//!
//! Every coordinate is in image pixels. A coordinate, a colour channel and a
//! stroke width are single-precision floats; the model carries each one as
//! the IEEE 754 bit pattern of that float (`f32::to_bits`), and compares
//! coordinates with the float comparison `==` written over those bits, so
//! a point in the model is the same point the editor drew.

use vstd::prelude::*;
use vstd::std_specs::cmp::PartialEqSpecImpl;

use crate::config::{MAX_STROKE_POINTS, MAX_UNDO_HISTORY};

verus! {

/// The bit pattern of the highlighter's opacity, 0.35.
pub const HIGHLIGHT_ALPHA_BITS: u32 = 0x3eb3_3333;

/// The bits of a float with the sign bit cleared.
pub open spec fn magnitude_bits(b: u32) -> u32 {
    b & 0x7fff_ffff
}

/// The bit pattern `b` encodes a NaN: all exponent bits set, a non-zero
/// mantissa.
pub open spec fn is_nan_bits(b: u32) -> bool {
    magnitude_bits(b) > 0x7f80_0000
}

/// IEEE 754 equality of the floats whose bit patterns are `a` and `b`: a NaN
/// equals nothing, +0 equals -0, every other float equals only itself.
pub open spec fn f32_bits_eq(a: u32, b: u32) -> bool {
    &&& !is_nan_bits(a)
    &&& !is_nan_bits(b)
    &&& (a == b || (magnitude_bits(a) == 0 && magnitude_bits(b) == 0))
}

/// `==` on the floats whose bit patterns are `a` and `b`.
pub fn f32_bits_equal(a: u32, b: u32) -> (eq: bool)
    ensures
        eq == f32_bits_eq(a, b),
{
    let ma = a & 0x7fff_ffff;
    let mb = b & 0x7fff_ffff;
    if ma > 0x7f80_0000 || mb > 0x7f80_0000 {
        false
    } else {
        a == b || (ma == 0 && mb == 0)
    }
}

#[derive(Clone, Copy, Debug, PartialEq, Eq, Hash, Structural)]
pub enum Tool {
    Pen,
    Highlighter,
    Arrow,
    Rect,
}

/// `c` as `char::to_ascii_lowercase` gives it, by its code.
pub open spec fn ascii_lowercase_code(c: char) -> int {
    if 65 <= (c as u32) && (c as u32) <= 90 {
        (c as u32) + 32
    } else {
        c as u32 as int
    }
}

/// The tool a key selects: P, H, A and R, in either case.
pub open spec fn hotkey_tool(c: char) -> Option<Tool> {
    let code = ascii_lowercase_code(c);
    if code == 112 {
        Some(Tool::Pen)
    } else if code == 104 {
        Some(Tool::Highlighter)
    } else if code == 97 {
        Some(Tool::Arrow)
    } else if code == 114 {
        Some(Tool::Rect)
    } else {
        None
    }
}

impl Tool {
    pub const ALL: [Tool; 4] = [Tool::Pen, Tool::Highlighter, Tool::Arrow, Tool::Rect];

    /// CosmicSnip's single-key shortcuts: P, H, A, R.
    pub fn from_hotkey(c: char) -> (tool: Option<Tool>)
        ensures
            tool == hotkey_tool(c),
    {
        match c {
            'p' | 'P' => Some(Tool::Pen),
            'h' | 'H' => Some(Tool::Highlighter),
            'a' | 'A' => Some(Tool::Arrow),
            'r' | 'R' => Some(Tool::Rect),
            _ => None,
        }
    }

    pub fn label(self) -> (label: &'static str)
        ensures
            label@ == match self {
                Tool::Pen => "Pen (P)"@,
                Tool::Highlighter => "Highlighter (H)"@,
                Tool::Arrow => "Arrow (A)"@,
                Tool::Rect => "Rectangle (R)"@,
            },
    {
        match self {
            Tool::Pen => "Pen (P)",
            Tool::Highlighter => "Highlighter (H)",
            Tool::Arrow => "Arrow (A)",
            Tool::Rect => "Rectangle (R)",
        }
    }

    pub fn icon(self) -> (icon: &'static str)
        ensures
            icon@ == match self {
                Tool::Pen => "edit-symbolic"@,
                Tool::Highlighter => "format-text-highlight-symbolic"@,
                Tool::Arrow => "go-next-symbolic"@,
                Tool::Rect => "checkbox-symbolic"@,
            },
    {
        match self {
            Tool::Pen => "edit-symbolic",
            Tool::Highlighter => "format-text-highlight-symbolic",
            Tool::Arrow => "go-next-symbolic",
            Tool::Rect => "checkbox-symbolic",
        }
    }

    /// The highlighter has a width of its own; every other tool shares the
    /// pen's.
    pub fn uses_highlight_width(self) -> (b: bool)
        ensures
            b == (self == Tool::Highlighter),
    {
        match self {
            Tool::Highlighter => true,
            _ => false,
        }
    }
}

/// The key a tool's tooltip names.
pub fn tool_hotkey(tool: Tool) -> (c: char)
    ensures
        c == match tool {
            Tool::Pen => 'P',
            Tool::Highlighter => 'H',
            Tool::Arrow => 'A',
            Tool::Rect => 'R',
        },
        hotkey_tool(c) == Some(tool),
{
    match tool {
        Tool::Pen => 'P',
        Tool::Highlighter => 'H',
        Tool::Arrow => 'A',
        Tool::Rect => 'R',
    }
}

/// A point in image pixels, each coordinate the bit pattern of its float.
/// `==` on points is float equality of both coordinates (`same_point`).
#[derive(Clone, Copy, Debug)]
pub struct Point {
    pub x: u32,
    pub y: u32,
}

/// `==` on points: both coordinates equal as floats.
pub open spec fn same_point(a: Point, b: Point) -> bool {
    f32_bits_eq(a.x, b.x) && f32_bits_eq(a.y, b.y)
}

impl PartialEq for Point {
    fn eq(&self, other: &Point) -> (eq: bool) {
        self.same(*other)
    }
}

impl PartialEqSpecImpl for Point {
    open spec fn obeys_eq_spec() -> bool {
        true
    }

    open spec fn eq_spec(&self, other: &Point) -> bool {
        same_point(*self, *other)
    }
}

impl Point {
    /// The point whose coordinates have the bit patterns `x` and `y`.
    pub fn new(x: u32, y: u32) -> (p: Self)
        ensures
            p.x == x,
            p.y == y,
    {
        Point { x, y }
    }

    /// `==` on points, as the editor compares them.
    pub fn same(self, other: Point) -> (eq: bool)
        ensures
            eq == same_point(self, other),
    {
        f32_bits_equal(self.x, other.x) && f32_bits_equal(self.y, other.y)
    }
}

#[derive(Clone, Debug, PartialEq)]
pub enum Shape {
    /// Freehand: pen and highlighter.
    Path(Vec<Point>),
    /// A straight shaft with a head at `end`.
    Arrow { start: Point, end: Point },
    Rect { start: Point, end: Point },
}

/// A shape as the contracts see it.
pub enum ShapeView {
    Path(Seq<Point>),
    Arrow { start: Point, end: Point },
    Rect { start: Point, end: Point },
}

impl View for Shape {
    type V = ShapeView;

    open spec fn view(&self) -> ShapeView {
        match self {
            Shape::Path(points) => ShapeView::Path(points@),
            Shape::Arrow { start, end } => ShapeView::Arrow { start: *start, end: *end },
            Shape::Rect { start, end } => ShapeView::Rect { start: *start, end: *end },
        }
    }
}

#[derive(Clone, Debug, PartialEq)]
pub struct Stroke {
    pub shape: Shape,
    /// Straight RGBA, the bit pattern of each channel; a highlighter's alpha
    /// is already reduced here.
    pub rgba: [u32; 4],
    /// The bit pattern of the stroke's width.
    pub width: u32,
}

/// A stroke as the contracts see it.
pub struct StrokeView {
    pub shape: ShapeView,
    pub rgba: Seq<u32>,
    pub width: u32,
}

impl View for Stroke {
    type V = StrokeView;

    open spec fn view(&self) -> StrokeView {
        StrokeView { shape: self.shape@, rgba: self.rgba@, width: self.width }
    }
}

/// A stroke too small to see: a freehand path of fewer than two points, or a
/// line or rectangle whose ends are the same point.
pub open spec fn visible(s: StrokeView) -> bool {
    match s.shape {
        ShapeView::Path(points) => points.len() >= 2,
        ShapeView::Arrow { start, end } => !same_point(start, end),
        ShapeView::Rect { start, end } => !same_point(start, end),
    }
}

/// A freehand stroke holds at most `MAX_STROKE_POINTS` points, and no point
/// of it repeats the one before.
pub open spec fn bounded_shape(s: ShapeView) -> bool {
    match s {
        ShapeView::Path(points) => {
            &&& points.len() <= MAX_STROKE_POINTS
            &&& forall|i: int|
                0 <= i < points.len() - 1 ==> !same_point(#[trigger] points[i], points[i + 1])
        },
        _ => true,
    }
}

impl Stroke {
    /// A stroke too small to see is not kept: a click without a drag should
    /// not leave an undo step that does nothing.
    fn is_visible(&self) -> (b: bool)
        ensures
            b == visible(self@),
    {
        match &self.shape {
            Shape::Path(points) => points.len() >= 2,
            Shape::Arrow { start, end } => !start.same(*end),
            Shape::Rect { start, end } => !start.same(*end),
        }
    }
}

/// The stroke that `Document::begin` starts.
pub open spec fn started_stroke(tool: Tool, rgba: Seq<u32>, width: u32, at: Point) -> StrokeView {
    StrokeView {
        shape: match tool {
            Tool::Pen | Tool::Highlighter => ShapeView::Path(seq![at]),
            Tool::Arrow => ShapeView::Arrow { start: at, end: at },
            Tool::Rect => ShapeView::Rect { start: at, end: at },
        },
        rgba: if tool == Tool::Highlighter {
            rgba.update(3, HIGHLIGHT_ALPHA_BITS)
        } else {
            rgba
        },
        width,
    }
}

/// The shape that `Document::extend` leaves: a freehand path gains `at`
/// unless it is full or already ends there; a line or rectangle moves its
/// far end to `at`.
pub open spec fn extended_shape(shape: ShapeView, at: Point) -> ShapeView {
    match shape {
        ShapeView::Path(points) => if points.len() < MAX_STROKE_POINTS && (points.len() == 0
            || !same_point(points.last(), at)) {
            ShapeView::Path(points.push(at))
        } else {
            ShapeView::Path(points)
        },
        ShapeView::Arrow { start, end } => ShapeView::Arrow { start, end: at },
        ShapeView::Rect { start, end } => ShapeView::Rect { start, end: at },
    }
}

/// The strokes of one snip as the contracts see them: the committed ones,
/// oldest first, and the one being drawn.
pub struct DocumentView {
    pub committed: Seq<StrokeView>,
    pub current: Option<StrokeView>,
}

/// The last `n` strokes of `s`, or all of them when there are fewer.
pub open spec fn keep_last(s: Seq<StrokeView>, n: nat) -> Seq<StrokeView> {
    if s.len() > n {
        s.subrange(s.len() - n, s.len() as int)
    } else {
        s
    }
}

/// What `Document::begin` leaves.
pub open spec fn begin_spec(
    d: DocumentView,
    tool: Tool,
    rgba: Seq<u32>,
    width: u32,
    at: Point,
) -> DocumentView {
    DocumentView { committed: d.committed, current: Some(started_stroke(tool, rgba, width, at)) }
}

/// What `Document::extend` leaves.
pub open spec fn extend_spec(d: DocumentView, at: Point) -> DocumentView {
    match d.current {
        None => d,
        Some(s) => DocumentView {
            committed: d.committed,
            current: Some(StrokeView { shape: extended_shape(s.shape, at), rgba: s.rgba, width: s.width }),
        },
    }
}

/// What `Document::finish` leaves: the stroke being drawn, if visible, joins
/// the history, which then keeps its last `MAX_UNDO_HISTORY` strokes.
pub open spec fn finish_spec(d: DocumentView) -> DocumentView {
    match d.current {
        Some(s) if visible(s) => DocumentView {
            committed: keep_last(d.committed.push(s), MAX_UNDO_HISTORY as nat),
            current: None,
        },
        _ => DocumentView { committed: d.committed, current: None },
    }
}

/// What `Document::undo` leaves: no stroke being drawn, and the last
/// committed stroke gone.
pub open spec fn undo_spec(d: DocumentView) -> DocumentView {
    DocumentView {
        committed: if d.committed.len() > 0 {
            d.committed.drop_last()
        } else {
            d.committed
        },
        current: None,
    }
}

/// What every document keeps: a history of at most `MAX_UNDO_HISTORY`
/// strokes, each of them visible, and freehand strokes of at most
/// `MAX_STROKE_POINTS` points.
pub open spec fn well_formed(d: DocumentView) -> bool {
    &&& d.committed.len() <= MAX_UNDO_HISTORY
    &&& forall|i: int|
        0 <= i < d.committed.len() ==> visible(#[trigger] d.committed[i]) && bounded_shape(
            d.committed[i].shape,
        )
    &&& (d.current matches Some(s) ==> bounded_shape(s.shape))
}

/// The strokes of one snip: the committed ones, and the one being drawn.
#[derive(Debug)]
pub struct Document {
    strokes: Vec<Stroke>,
    current: Option<Stroke>,
}

impl View for Document {
    type V = DocumentView;

    closed spec fn view(&self) -> DocumentView {
        DocumentView {
            committed: self.strokes@.map_values(|s: Stroke| s@),
            current: match self.current {
                Some(s) => Some(s@),
                None => None,
            },
        }
    }
}

impl Document {
    #[verifier::type_invariant]
    closed spec fn inv(self) -> bool {
        well_formed(self@)
    }

    /// Start a stroke at `at` with the given tool, colour and width.
    pub fn begin(&mut self, tool: Tool, rgba: [u32; 4], width: u32, at: Point)
        ensures
            final(self)@ == begin_spec(old(self)@, tool, rgba@, width, at),
            well_formed(final(self)@),
    {
        let old_rgba = rgba;
        let rgba = if tool == Tool::Highlighter {
            [rgba[0], rgba[1], rgba[2], HIGHLIGHT_ALPHA_BITS]
        } else {
            rgba
        };
        let shape = match tool {
            Tool::Pen | Tool::Highlighter => Shape::Path(vec![at]),
            Tool::Arrow => Shape::Arrow { start: at, end: at },
            Tool::Rect => Shape::Rect { start: at, end: at },
        };
        proof {
            use_type_invariant(&*self);
        }
        let stroke = Stroke { shape, rgba, width };
        assert(stroke@ == started_stroke(tool, old_rgba@, width, at)) by {
            if tool == Tool::Highlighter {
                assert(stroke.rgba@ =~= old_rgba@.update(3, HIGHLIGHT_ALPHA_BITS));
            }
            if let Shape::Path(points) = stroke.shape {
                assert(points@ =~= seq![at]);
            }
        }
        self.current = Some(stroke);
    }

    /// Move the stroke being drawn: a freehand path gains a point, a line or
    /// rectangle moves its far end.
    pub fn extend(&mut self, at: Point)
        ensures
            final(self)@ == extend_spec(old(self)@, at),
            well_formed(final(self)@),
    {
        proof {
            use_type_invariant(&*self);
        }
        let mut taken: Option<Stroke> = None;
        std::mem::swap(&mut taken, &mut self.current);
        if let Some(stroke) = taken {
            let Stroke { shape, rgba, width } = stroke;
            let shape = match shape {
                Shape::Path(mut points) => {
                    let n = points.len();
                    if n < MAX_STROKE_POINTS && (n == 0 || !points[n - 1].same(at)) {
                        points.push(at);
                    }
                    Shape::Path(points)
                },
                Shape::Arrow { start, end: _ } => Shape::Arrow { start, end: at },
                Shape::Rect { start, end: _ } => Shape::Rect { start, end: at },
            };
            self.current = Some(Stroke { shape, rgba, width });
        }
        proof {
            use_type_invariant(&*self);
        }
    }

    /// Commit the stroke being drawn, if it is visible.
    pub fn finish(&mut self)
        ensures
            final(self)@ == finish_spec(old(self)@),
            well_formed(final(self)@),
    {
        proof {
            use_type_invariant(&*self);
        }
        let mut taken: Option<Stroke> = None;
        std::mem::swap(&mut taken, &mut self.current);
        if let Some(stroke) = taken {
            if stroke.is_visible() {
                let mut strokes: Vec<Stroke> = Vec::new();
                std::mem::swap(&mut strokes, &mut self.strokes);
                let ghost pushed = old(self)@.committed.push(stroke@);
                strokes.push(stroke);
                assert(strokes@.map_values(|s: Stroke| s@) =~= pushed);
                if strokes.len() > MAX_UNDO_HISTORY {
                    strokes.remove(0);
                    assert(strokes@.map_values(|s: Stroke| s@) =~= pushed.subrange(1, pushed.len() as int));
                }
                assert(strokes@.map_values(|s: Stroke| s@) == keep_last(pushed, MAX_UNDO_HISTORY as nat));
                self.strokes = strokes;
            }
        }
        proof {
            use_type_invariant(&*self);
        }
    }

    pub fn is_drawing(&self) -> (b: bool)
        ensures
            b == self@.current is Some,
    {
        self.current.is_some()
    }

    /// Remove the last committed stroke. Returns whether there was one.
    pub fn undo(&mut self) -> (had: bool)
        ensures
            had == (old(self)@.committed.len() > 0),
            final(self)@ == undo_spec(old(self)@),
            well_formed(final(self)@),
    {
        proof {
            use_type_invariant(&*self);
        }
        self.current = None;
        let mut strokes: Vec<Stroke> = Vec::new();
        std::mem::swap(&mut strokes, &mut self.strokes);
        let had = strokes.pop().is_some();
        assert(strokes@.map_values(|s: Stroke| s@) =~= undo_spec(old(self)@).committed);
        self.strokes = strokes;
        proof {
            use_type_invariant(&*self);
        }
        had
    }

    /// The committed strokes, oldest first.
    pub fn committed(&self) -> (strokes: &[Stroke])
        ensures
            strokes@.map_values(|s: Stroke| s@) == self@.committed,
            well_formed(self@),
    {
        proof {
            use_type_invariant(&*self);
        }
        self.strokes.as_slice()
    }

    /// Everything to draw, the stroke in progress last.
    pub fn all(&self) -> (strokes: Vec<&Stroke>)
        ensures
            strokes@.len() == self@.committed.len() + if self@.current is Some { 1int } else { 0 },
            forall|i: int|
                0 <= i < self@.committed.len() ==> (#[trigger] strokes@[i])@ == self@.committed[i],
            self@.current matches Some(s) ==> strokes@.last()@ == s,
    {
        let mut out: Vec<&Stroke> = Vec::new();
        let n = self.strokes.len();
        for i in 0..n
            invariant
                n == self.strokes@.len(),
                out@.len() == i,
                forall|j: int| 0 <= j < i ==> *out@[j] == self.strokes@[j],
        {
            out.push(&self.strokes[i]);
        }
        if let Some(s) = &self.current {
            out.push(s);
        }
        out
    }
}

impl Default for Document {
    /// A document with no strokes.
    fn default() -> (d: Self)
        ensures
            d@.committed == Seq::<StrokeView>::empty(),
            d@.current is None,
    {
        let d = Document { strokes: Vec::new(), current: None };
        assert(d@.committed =~= Seq::<StrokeView>::empty());
        d
    }
}

/// A click without a drag leaves nothing behind: a stroke begun and finished
/// at one point adds nothing to the history. For a line or a rectangle the
/// point's coordinates are numbers: a NaN equals nothing, not even itself.
pub proof fn lemma_click_leaves_nothing(
    d: DocumentView,
    tool: Tool,
    rgba: Seq<u32>,
    width: u32,
    at: Point,
)
    requires
        tool == Tool::Arrow || tool == Tool::Rect ==> !is_nan_bits(at.x) && !is_nan_bits(at.y),
    ensures
        finish_spec(begin_spec(d, tool, rgba, width, at)) == (DocumentView {
            committed: d.committed,
            current: None,
        }),
{
}

/// A drag is one undo step: committing a visible stroke to a history that is
/// not full, then undoing, gives back the history as it was.
pub proof fn lemma_drag_is_one_undo_step(d: DocumentView)
    requires
        d.current matches Some(s) && visible(s),
        d.committed.len() < MAX_UNDO_HISTORY,
    ensures
        undo_spec(finish_spec(d)).committed == d.committed,
{
    let s = d.current->0;
    assert(d.committed.push(s).drop_last() =~= d.committed);
}

/// The history is bounded: finishing a stroke never leaves more than
/// `MAX_UNDO_HISTORY` strokes, and when it would, the oldest one goes and the
/// new one is last.
pub proof fn lemma_history_is_bounded(d: DocumentView)
    requires
        d.committed.len() <= MAX_UNDO_HISTORY,
    ensures
        finish_spec(d).committed.len() <= MAX_UNDO_HISTORY,
        d.current matches Some(s) ==> (visible(s) ==> {
            &&& finish_spec(d).committed.last() == s
            &&& d.committed.len() == MAX_UNDO_HISTORY ==> finish_spec(d).committed
                == d.committed.drop_first().push(s)
        }),
{
    if let Some(s) = d.current {
        if visible(s) && d.committed.len() == MAX_UNDO_HISTORY {
            assert(d.committed.push(s).subrange(1, MAX_UNDO_HISTORY as int + 1)
                =~= d.committed.drop_first().push(s));
        }
    }
}

/// A line or a rectangle keeps only its last corner: moving its far end
/// twice is moving it once, to the second place.
pub proof fn lemma_last_corner_wins(d: DocumentView, a: Point, b: Point)
    requires
        d.current matches Some(s) && !(s.shape is Path),
    ensures
        extend_spec(extend_spec(d, a), b) == extend_spec(d, b),
{
}

/// Every operation keeps a document well formed.
pub proof fn lemma_operations_keep_well_formed(
    d: DocumentView,
    tool: Tool,
    rgba: Seq<u32>,
    width: u32,
    at: Point,
)
    requires
        well_formed(d),
    ensures
        well_formed(begin_spec(d, tool, rgba, width, at)),
        well_formed(extend_spec(d, at)),
        well_formed(finish_spec(d)),
        well_formed(undo_spec(d)),
{
    if let Some(s) = d.current {
        if visible(s) {
            let pushed = d.committed.push(s);
            let kept = keep_last(pushed, MAX_UNDO_HISTORY as nat);
            assert forall|i: int| 0 <= i < kept.len() implies visible(#[trigger] kept[i])
                && bounded_shape(kept[i].shape) by {
                if pushed.len() > MAX_UNDO_HISTORY {
                    assert(kept[i] == pushed[i + 1]);
                }
            }
        }
        if let ShapeView::Path(points) = s.shape {
            if let ShapeView::Path(next) = extended_shape(s.shape, at) {
                assert forall|i: int| 0 <= i < next.len() - 1 implies !same_point(
                    #[trigger] next[i],
                    next[i + 1],
                ) by {
                    if i < points.len() - 1 {
                        assert(next[i] == points[i] && next[i + 1] == points[i + 1]);
                    }
                }
            }
        }
    }
    assert forall|i: int| 0 <= i < undo_spec(d).committed.len() implies visible(
        #[trigger] undo_spec(d).committed[i],
    ) && bounded_shape(undo_spec(d).committed[i].shape) by {
        assert(undo_spec(d).committed[i] == d.committed[i]);
    }
}

/// A hotkey picks its tool in either case: P or p the pen, H or h the
/// highlighter, A or a the arrow, R or r the rectangle; no other key picks one.
pub proof fn lemma_hotkeys(c: char)
    ensures
        (c == 'p' || c == 'P') ==> hotkey_tool(c) == Some(Tool::Pen),
        (c == 'h' || c == 'H') ==> hotkey_tool(c) == Some(Tool::Highlighter),
        (c == 'a' || c == 'A') ==> hotkey_tool(c) == Some(Tool::Arrow),
        (c == 'r' || c == 'R') ==> hotkey_tool(c) == Some(Tool::Rect),
        !(c == 'p' || c == 'P' || c == 'h' || c == 'H' || c == 'a' || c == 'A' || c == 'r' || c
            == 'R') ==> hotkey_tool(c) is None,
{
    if 65 <= (c as u32) && (c as u32) <= 90 {
        vstd::utf8::char_u32_cast(c, c as u32);
    }
}

/// A letter and its upper case pick the same tool.
pub proof fn lemma_hotkey_case(lower: char, upper: char)
    requires
        'A' <= upper <= 'Z',
        lower as u32 == upper as u32 + 32,
    ensures
        hotkey_tool(lower) == hotkey_tool(upper),
{
}

/// Float equality on bit patterns: a float that is not NaN equals itself, +0
/// equals -0, NaN equals nothing, and two different bit patterns that are not
/// both zeros are different floats.
pub proof fn lemma_float_equality(a: u32, b: u32)
    ensures
        a == b && (a & 0x7fff_ffff) <= 0x7f80_0000 ==> f32_bits_eq(a, b),
        a == 0 && b == 0x8000_0000 ==> f32_bits_eq(a, b),
        (a & 0x7fff_ffff) > 0x7f80_0000 ==> !f32_bits_eq(a, b),
        a != b && !((a & 0x7fff_ffff) == 0 && (b & 0x7fff_ffff) == 0) ==> !f32_bits_eq(a, b),
{
    assert((0u32 & 0x7fff_ffff) == 0 && (0x8000_0000u32 & 0x7fff_ffff) == 0) by (bit_vector);
}

/// Two points are the same point exactly when both coordinates are equal
/// floats: points that differ in either coordinate alone are different.
pub proof fn lemma_same_point(a: Point, b: Point)
    ensures
        same_point(a, b) <==> f32_bits_eq(a.x, b.x) && f32_bits_eq(a.y, b.y),
        !f32_bits_eq(a.y, b.y) ==> !same_point(a, b),
        !f32_bits_eq(a.x, b.x) ==> !same_point(a, b),
{
}

/// Extending a freehand path that is not full with a point other than its
/// last one appends that point, keeping the colour and width; a repeat of the
/// last point, or a full path, leaves the stroke as it was.
pub proof fn lemma_extend_path(d: DocumentView, points: Seq<Point>, at: Point)
    requires
        d.current matches Some(s) && s.shape == ShapeView::Path(points),
    ensures
        extend_spec(d, at).committed == d.committed,
        points.len() < MAX_STROKE_POINTS && (points.len() == 0 || !same_point(points.last(), at))
            ==> extend_spec(d, at).current == Some(
            StrokeView {
                shape: ShapeView::Path(points.push(at)),
                rgba: d.current->0.rgba,
                width: d.current->0.width,
            },
        ),
        (points.len() >= MAX_STROKE_POINTS || (points.len() > 0 && same_point(points.last(), at)))
            ==> extend_spec(d, at).current == d.current,
{
}

} // verus!
