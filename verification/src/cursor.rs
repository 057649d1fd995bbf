//! The peer's cursor shapes, kept for a consumer that polls.
//!
//! The peer sends the full shape of a cursor once and refers back to it by id from then on, so
//! shapes have to be kept to draw anything at all.

use std::collections::{HashMap, VecDeque};
use vstd::prelude::*;

verus! {

broadcast use vstd::std_specs::hash::group_hash_axioms;

/// The most cursor shapes that are kept.
pub const MAX_HEADLESS_CURSOR_SHAPES: usize = 32;

/// A cursor shape as the peer sends it; the colors are compressed.
pub struct CursorData {
    pub id: u64,
    pub hotx: i32,
    pub hoty: i32,
    pub width: i32,
    pub height: i32,
    pub colors: Vec<u8>,
}

/// A cursor shape with its RGBA pixels as they came.
pub struct HeadlessCursorShape {
    pub width: i32,
    pub height: i32,
    pub hotx: i32,
    pub hoty: i32,
    pub colors: Vec<u8>,
}

/// What a cursor shape is.
pub struct CursorShapeView {
    pub width: i32,
    pub height: i32,
    pub hotx: i32,
    pub hoty: i32,
    pub colors: Seq<u8>,
}

impl View for HeadlessCursorShape {
    type V = CursorShapeView;

    open spec fn view(&self) -> CursorShapeView {
        CursorShapeView {
            width: self.width,
            height: self.height,
            hotx: self.hotx,
            hoty: self.hoty,
            colors: self.colors@,
        }
    }
}

/// The shapes that are known, the one that is shown, and whether it changed since it was taken.
pub struct HeadlessCursorState {
    shapes: HashMap<u64, HeadlessCursorShape>,
    /// The ids of the shapes, the next one to make room in front.
    order: VecDeque<u64>,
    current: Option<u64>,
    dirty: bool,
}

/// What the cursor state is.
pub struct CursorStateView {
    pub shapes: Map<u64, CursorShapeView>,
    pub order: Seq<u64>,
    pub current: Option<u64>,
    pub dirty: bool,
}

impl View for HeadlessCursorState {
    type V = CursorStateView;

    closed spec fn view(&self) -> CursorStateView {
        CursorStateView {
            shapes: self.shapes@.map_values(|shape: HeadlessCursorShape| shape@),
            order: self.order@,
            current: self.current,
            dirty: self.dirty,
        }
    }
}

/// The four bytes of a number, the least significant one first.
pub open spec fn le_bytes(n: i32) -> Seq<u8> {
    let bits = n as u32;
    seq![
        (bits & 0xff) as u8,
        ((bits >> 8) & 0xff) as u8,
        ((bits >> 16) & 0xff) as u8,
        ((bits >> 24) & 0xff) as u8,
    ]
}

/// The number that four bytes hold, the least significant one first.
pub open spec fn from_le_bytes(bytes: Seq<u8>) -> i32 {
    ((bytes[0] as u32) | ((bytes[1] as u32) << 8) | ((bytes[2] as u32) << 16) | ((bytes[3] as u32)
        << 24)) as i32
}

impl CursorShapeView {
    /// Whether the shape has an area, maybe an empty one, whose packed pixels a `Vec` can hold.
    pub open spec fn has_area(self) -> bool {
        &&& self.width >= 0
        &&& self.height >= 0
        &&& 16 + self.width * self.height * 4 <= isize::MAX
    }

    /// The pixels that are packed: four bytes for each pixel of the area. Bytes that are missing
    /// are zero, which is transparent, and bytes beyond the area are cut off. Where there is no
    /// area that could be packed, the bytes are those that came.
    pub open spec fn pixels(self) -> Seq<u8> {
        if self.has_area() {
            Seq::new(
                (self.width * self.height * 4) as nat,
                |i: int|
                    if i < self.colors.len() {
                        self.colors[i]
                    } else {
                        0u8
                    },
            )
        } else {
            self.colors
        }
    }

    /// The shape in bytes: width, height and hot spot as four little-endian numbers, then the
    /// pixels.
    pub open spec fn packed(self) -> Seq<u8> {
        le_bytes(self.width) + le_bytes(self.height) + le_bytes(self.hotx) + le_bytes(self.hoty)
            + self.pixels()
    }
}

impl CursorStateView {
    /// Nothing is known yet.
    pub open spec fn empty() -> CursorStateView {
        CursorStateView {
            shapes: Map::empty(),
            order: Seq::empty(),
            current: None,
            dirty: false,
        }
    }

    /// Every shape has one place in the order, there are not too many of them, and the one that is
    /// shown is among them.
    pub open spec fn wf(self) -> bool {
        &&& self.order.no_duplicates()
        &&& forall|id: u64| self.order.contains(id) <==> #[trigger] self.shapes.contains_key(id)
        &&& self.order.len() <= MAX_HEADLESS_CURSOR_SHAPES
        &&& self.current is Some ==> self.shapes.contains_key(self.current.unwrap())
        &&& self.dirty ==> self.current is Some
    }

    /// A shape came and is shown. When it is one too many, the oldest shape makes room; one that is
    /// still shown goes to the end of the order and the next one makes room instead.
    pub open spec fn cached(self, id: u64, shape: CursorShapeView) -> CursorStateView {
        let shown = CursorStateView { current: Some(id), dirty: true, ..self };
        if self.shapes.contains_key(id) {
            CursorStateView { shapes: self.shapes.insert(id, shape), ..shown }
        } else if self.order.len() < MAX_HEADLESS_CURSOR_SHAPES {
            CursorStateView {
                shapes: self.shapes.insert(id, shape),
                order: self.order.push(id),
                ..shown
            }
        } else if self.current == Some(self.order[0]) {
            CursorStateView {
                shapes: self.shapes.insert(id, shape).remove(self.order[1]),
                order: self.order.skip(2).push(id).push(self.order[0]),
                ..shown
            }
        } else {
            CursorStateView {
                shapes: self.shapes.insert(id, shape).remove(self.order[0]),
                order: self.order.skip(1).push(id),
                ..shown
            }
        }
    }

    /// The peer shows a shape that it sent before. An unknown one changes nothing.
    pub open spec fn selected(self, id: u64) -> CursorStateView {
        if self.shapes.contains_key(id) && self.current != Some(id) {
            CursorStateView { current: Some(id), dirty: true, ..self }
        } else {
            self
        }
    }

    /// The bytes of the shape that is shown, when it changed since it was taken.
    pub open spec fn taken(self) -> Option<Seq<u8>> {
        if self.dirty {
            Some(self.shapes[self.current.unwrap()].packed())
        } else {
            None
        }
    }
}

impl HeadlessCursorState {
    pub open spec fn wf(&self) -> bool {
        self@.wf()
    }

    pub fn new() -> (state: HeadlessCursorState)
        ensures
            state@ == CursorStateView::empty(),
            state.wf(),
    {
        let state = HeadlessCursorState {
            shapes: HashMap::new(),
            order: VecDeque::new(),
            current: None,
            dirty: false,
        };
        assert(state@.shapes =~= Map::empty());
        assert(state@.order =~= Seq::empty());
        state
    }
}

/// Keeps the decompressed shape of a cursor and shows it.
pub fn cache_headless_cursor(state: &mut HeadlessCursorState, cd: &CursorData, colors: Vec<u8>)
    requires
        old(state).wf(),
    ensures
        final(state)@ == old(state)@.cached(
            cd.id,
            (CursorShapeView {
                width: cd.width,
                height: cd.height,
                hotx: cd.hotx,
                hoty: cd.hoty,
                colors: colors@,
            }),
        ),
        final(state).wf(),
{
    let shape = HeadlessCursorShape {
        width: cd.width,
        height: cd.height,
        hotx: cd.hotx,
        hoty: cd.hoty,
        colors,
    };
    let ghost before = state@;
    let ghost goal = before.cached(cd.id, shape@);
    let is_new = state.shapes.insert(cd.id, shape).is_none();
    if is_new {
        state.order.push_back(cd.id);
        if state.order.len() > MAX_HEADLESS_CURSOR_SHAPES {
            let oldest = state.order.pop_front();
            if oldest == state.current {
                // The shape that is shown stays; the next oldest one makes room.
                if let Some(shown) = oldest {
                    state.order.push_back(shown);
                }
                if let Some(next) = state.order.pop_front() {
                    state.shapes.remove(&next);
                }
            } else if let Some(old) = oldest {
                state.shapes.remove(&old);
            }
        }
    }
    state.current = Some(cd.id);
    state.dirty = true;
    proof {
        assert(state@.shapes =~= goal.shapes);
        assert(state@.order =~= goal.order);
        lemma_cached_wf(before, cd.id, shape@);
    }
}

/// Shows a shape that is known. One that never came, or made room, changes nothing.
pub fn select_headless_cursor(state: &mut HeadlessCursorState, id: u64)
    requires
        old(state).wf(),
    ensures
        final(state)@ == old(state)@.selected(id),
        final(state).wf(),
{
    if !state.shapes.contains_key(&id) {
        return ;
    }
    if state.current != Some(id) {
        state.current = Some(id);
        state.dirty = true;
    }
}

fn push_le_bytes(out: &mut Vec<u8>, n: i32)
    ensures
        final(out)@ == old(out)@ + le_bytes(n),
{
    let bits: u32 = n as u32;
    out.push((bits & 0xff) as u8);
    out.push(((bits >> 8) & 0xff) as u8);
    out.push(((bits >> 16) & 0xff) as u8);
    out.push(((bits >> 24) & 0xff) as u8);
    assert(out@ =~= old(out)@ + le_bytes(n));
}

/// How many bytes the packed pixels of a shape have.
fn pixel_bytes(shape: &HeadlessCursorShape) -> (count: usize)
    ensures
        count == shape@.pixels().len(),
{
    if shape.width < 0 || shape.height < 0 {
        return shape.colors.len();
    }
    let width: u64 = shape.width as u64;
    let height: u64 = shape.height as u64;
    assert(width * height <= 0x7fff_ffff * 0x7fff_ffff) by (nonlinear_arith)
        requires
            0 <= width <= 0x7fff_ffff,
            0 <= height <= 0x7fff_ffff,
    ;
    let bytes: u64 = width * height * 4;
    if 16 + bytes <= isize::MAX as u64 {
        bytes as usize
    } else {
        shape.colors.len()
    }
}

/// Takes the cursor that is shown, when it changed since the last call: width, height and hot spot
/// as four little-endian numbers, then `width * height * 4` bytes of pixels. Bytes that the peer
/// did not send are zero; those that it sent beyond the area are left out. A shape with a negative
/// side, or with more pixels than a `Vec` can hold, comes with the bytes that the peer sent.
pub fn take_headless_cursor(state: &mut HeadlessCursorState) -> (packed: Option<Vec<u8>>)
    requires
        old(state).wf(),
    ensures
        match packed {
            Some(bytes) => old(state)@.taken() == Some(bytes@),
            None => old(state)@.taken() is None,
        },
        final(state)@ == (CursorStateView { dirty: false, ..old(state)@ }),
        final(state).wf(),
{
    if !state.dirty {
        return None;
    }
    let id = match state.current {
        Some(id) => id,
        None => return None,
    };
    assert(state@.shapes.contains_key(id));
    let out = match state.shapes.get(&id) {
        Some(shape) => {
            let mut out: Vec<u8> = Vec::new();
            push_le_bytes(&mut out, shape.width);
            push_le_bytes(&mut out, shape.height);
            push_le_bytes(&mut out, shape.hotx);
            push_le_bytes(&mut out, shape.hoty);
            let count: usize = pixel_bytes(shape);
            let mut i: usize = 0;
            let ghost head = out@;
            let ghost pixels = shape@.pixels();
            assert(head + pixels.take(0) =~= head);
            while i < count
                invariant
                    i <= count,
                    count == pixels.len(),
                    pixels == shape@.pixels(),
                    out@ == head + pixels.take(i as int),
                decreases count - i,
            {
                let byte: u8 = if i < shape.colors.len() {
                    shape.colors[i]
                } else {
                    0
                };
                out.push(byte);
                assert(pixels.take(i + 1) =~= pixels.take(i as int).push(pixels[i as int]));
                i += 1;
                assert(out@ =~= head + pixels.take(i as int));
            }
            assert(pixels.take(pixels.len() as int) =~= pixels);
            assert(out@ =~= shape@.packed());
            out
        },
        None => return None,
    };
    state.dirty = false;
    Some(out)
}

/// Replaces pixels that are all zero by pixels that are not quite: a fully transparent shape would
/// be drawn as a black rectangle.
pub open spec fn visible(colors: Seq<u8>) -> Seq<u8> {
    if colors.len() > 3 && (forall|i: int| 0 <= i < colors.len() ==> colors[i] == 0) {
        colors.update(3, 1)
    } else {
        colors
    }
}

/// Makes fully transparent pixels drawable.
pub fn fix_transparent(colors: &mut Vec<u8>)
    ensures
        final(colors)@ == visible(old(colors)@),
{
    if colors.len() <= 3 {
        return ;
    }
    let mut i: usize = 0;
    while i < colors.len()
        invariant
            i <= colors.len(),
            colors@ == old(colors)@,
            forall|j: int| 0 <= j < i ==> colors@[j] == 0,
        decreases colors.len() - i,
    {
        if colors[i] != 0 {
            return ;
        }
        i += 1;
    }
    colors.set(3, 1);
}

/// Keeping a shape keeps the state in order: no shape without a place, never more than the limit,
/// and the shown shape known.
pub proof fn lemma_cached_wf(state: CursorStateView, id: u64, shape: CursorShapeView)
    requires
        state.wf(),
    ensures
        state.cached(id, shape).wf(),
{
    let after = state.cached(id, shape);
    let order = state.order;
    if !state.shapes.contains_key(id) {
        assert(!order.contains(id));
        assert forall|x: u64| after.order.contains(x) <==> #[trigger] after.shapes.contains_key(
            x,
        ) by {
            if after.order.contains(x) {
                let i = choose|i: int| 0 <= i < after.order.len() && after.order[i] == x;
                if x != id {
                    assert(order.contains(x));
                }
            }
            if after.shapes.contains_key(x) {
                if x == id {
                    if order.len() < MAX_HEADLESS_CURSOR_SHAPES {
                        assert(after.order[order.len() as int] == x);
                    } else if state.current == Some(order[0]) {
                        assert(after.order[order.len() - 2] == x);
                    } else {
                        assert(after.order[order.len() - 1] == x);
                    }
                } else {
                    assert(state.shapes.contains_key(x));
                    let i = choose|i: int| 0 <= i < order.len() && order[i] == x;
                    if order.len() < MAX_HEADLESS_CURSOR_SHAPES {
                        assert(after.order[i] == x);
                    } else if state.current == Some(order[0]) {
                        if i == 0 {
                            assert(after.order[order.len() - 1] == x);
                        } else {
                            assert(after.order[i - 2] == x);
                        }
                    } else {
                        assert(after.order[i - 1] == x);
                    }
                }
            }
        }
        assert(order.contains(order[0]) || order.len() == 0);
    }
}

/// The shape that is shown never makes room for another one.
pub proof fn lemma_cached_keeps_shown(state: CursorStateView, id: u64, shape: CursorShapeView)
    requires
        state.wf(),
        state.current is Some,
    ensures
        state.cached(id, shape).shapes.contains_key(state.current.unwrap()),
{
    let shown = state.current.unwrap();
    let i = choose|i: int| 0 <= i < state.order.len() && state.order[i] == shown;
    assert(state.order.contains(shown));
}

/// A shape that came is what the next call takes, with four bytes for each pixel of its area, and a
/// further call takes nothing.
pub proof fn lemma_cached_then_taken(state: CursorStateView, id: u64, shape: CursorShapeView)
    requires
        state.wf(),
    ensures
        state.cached(id, shape).taken() == Some(shape.packed()),
        shape.has_area() ==> state.cached(id, shape).taken().unwrap().len() == 16 + shape.width
            * shape.height * 4,
        (CursorStateView { dirty: false, ..state.cached(id, shape) }).taken() is None,
{
    if !state.shapes.contains_key(id) {
        assert(!state.order.contains(id));
    }
    lemma_packed_reads_back(shape);
}

/// A shape that came before is taken again once the peer refers back to it.
pub proof fn lemma_selected_then_taken(state: CursorStateView, id: u64)
    requires
        state.wf(),
        state.shapes.contains_key(id),
        state.current != Some(id),
    ensures
        state.selected(id).taken() == Some(state.shapes[id].packed()),
{
}

/// A reference to a shape that is not known leaves the shown cursor alone.
pub proof fn lemma_selected_unknown(state: CursorStateView, id: u64)
    requires
        !state.shapes.contains_key(id),
    ensures
        state.selected(id) == state,
{
}

/// The packed bytes give back the width, the height, the hot spot and the pixels. A shape with an
/// area has four bytes for each of its pixels, and they are the ones that came where as many came.
pub proof fn lemma_packed_reads_back(shape: CursorShapeView)
    ensures
        shape.has_area() ==> shape.packed().len() == 16 + shape.width * shape.height * 4,
        !shape.has_area() ==> shape.packed().len() == 16 + shape.colors.len(),
        from_le_bytes(shape.packed().subrange(0, 4)) == shape.width,
        from_le_bytes(shape.packed().subrange(4, 8)) == shape.height,
        from_le_bytes(shape.packed().subrange(8, 12)) == shape.hotx,
        from_le_bytes(shape.packed().subrange(12, 16)) == shape.hoty,
        shape.packed().skip(16) == shape.pixels(),
        shape.colors.len() == shape.width * shape.height * 4 ==> shape.pixels() == shape.colors,
{
    lemma_le_bytes(shape.width);
    lemma_le_bytes(shape.height);
    lemma_le_bytes(shape.hotx);
    lemma_le_bytes(shape.hoty);
    assert(shape.packed().subrange(0, 4) =~= le_bytes(shape.width));
    assert(shape.packed().subrange(4, 8) =~= le_bytes(shape.height));
    assert(shape.packed().subrange(8, 12) =~= le_bytes(shape.hotx));
    assert(shape.packed().subrange(12, 16) =~= le_bytes(shape.hoty));
    assert(shape.packed().skip(16) =~= shape.pixels());
    if shape.has_area() {
        assert(shape.width * shape.height >= 0) by (nonlinear_arith)
            requires
                shape.width >= 0,
                shape.height >= 0,
        ;
        if shape.colors.len() == shape.width * shape.height * 4 {
            assert(shape.pixels() =~= shape.colors);
        }
    }
}

proof fn lemma_le_bytes(n: i32)
    ensures
        from_le_bytes(le_bytes(n)) == n,
{
    let bits = n as u32;
    let b0 = (bits & 0xff) as u8;
    let b1 = ((bits >> 8) & 0xff) as u8;
    let b2 = ((bits >> 16) & 0xff) as u8;
    let b3 = ((bits >> 24) & 0xff) as u8;
    assert((((b0 as u32) | ((b1 as u32) << 8) | ((b2 as u32) << 16) | ((b3 as u32) << 24)) as i32)
        == n) by (bit_vector)
        requires
            bits == n as u32,
            b0 == (bits & 0xff) as u8,
            b1 == ((bits >> 8) & 0xff) as u8,
            b2 == ((bits >> 16) & 0xff) as u8,
            b3 == ((bits >> 24) & 0xff) as u8,
    ;
}

/// Up to 32 shapes are kept: as long as there is room, a new shape is added and every other shape
/// stays as it was.
pub proof fn lemma_cached_with_room(
    state: CursorStateView,
    id: u64,
    shape: CursorShapeView,
    other: u64,
)
    requires
        state.wf(),
        other != id,
        state.shapes.contains_key(id) || state.order.len() < 32,
    ensures
        state.cached(id, shape).shapes.contains_key(id),
        state.cached(id, shape).shapes[id] == shape,
        state.cached(id, shape).shapes.contains_key(other) == state.shapes.contains_key(other),
        state.shapes.contains_key(other) ==> state.cached(id, shape).shapes[other]
            == state.shapes[other],
        state.cached(id, shape).current == Some(id),
        state.cached(id, shape).dirty,
        state.cached(id, shape).order == if state.shapes.contains_key(id) {
            state.order
        } else {
            state.order.push(id)
        },
{
}

/// With 32 shapes a new one takes the place of exactly one: the oldest that is not shown. All others
/// stay as they were.
pub proof fn lemma_cached_without_room(
    state: CursorStateView,
    id: u64,
    shape: CursorShapeView,
    other: u64,
)
    requires
        state.wf(),
        other != id,
        !state.shapes.contains_key(id),
        state.order.len() == 32,
    ensures
        ({
            let oldest = if state.current == Some(state.order[0]) {
                state.order[1]
            } else {
                state.order[0]
            };
            let after = state.cached(id, shape);
            &&& after.shapes.contains_key(id)
            &&& after.shapes[id] == shape
            &&& after.shapes.contains_key(other) <==> state.shapes.contains_key(other) && other
                != oldest
            &&& after.shapes.contains_key(other) ==> after.shapes[other] == state.shapes[other]
            &&& after.current == Some(id)
            &&& after.dirty
            &&& after.order.len() == 32
            &&& oldest == state.order[0] ==> after.order.last() == id && after.order.drop_last()
                == state.order.skip(1)
            &&& oldest == state.order[1] ==> after.order.last() == state.order[0]
                && after.order[30] == id && after.order.take(30) == state.order.skip(2)
        }),
{
    let after = state.cached(id, shape);
    assert(state.order.contains(state.order[0]));
    assert(state.order.contains(state.order[1]));
    assert(state.order[0] != state.order[1]);
    if state.current == Some(state.order[0]) {
        assert(after.order.take(30) =~= state.order.skip(2));
    } else {
        assert(after.order.drop_last() =~= state.order.skip(1));
    }
}

/// Referring back to a shape that is kept shows it; it is news only where another one was shown.
/// Nothing else changes.
pub proof fn lemma_selected_known(state: CursorStateView, id: u64)
    requires
        state.wf(),
        state.shapes.contains_key(id),
    ensures
        state.selected(id).current == Some(id),
        state.selected(id).dirty == (state.dirty || state.current != Some(id)),
        state.selected(id).shapes == state.shapes,
        state.selected(id).order == state.order,
{
}

/// Only what changed is taken: the shape that is shown.
pub proof fn lemma_taken(state: CursorStateView)
    requires
        state.wf(),
    ensures
        state.taken() is Some <==> state.dirty,
        state.dirty ==> state.shapes.contains_key(state.current.unwrap()) && state.taken() == Some(
            state.shapes[state.current.unwrap()].packed(),
        ),
{
}

/// Each packed pixel byte is the one that came, and zero where none came.
pub proof fn lemma_packed_pixel(shape: CursorShapeView, i: int)
    requires
        0 <= i,
        shape.width >= 0,
        shape.height >= 0,
        16 + shape.width * shape.height * 4 <= isize::MAX,
        i < shape.width * shape.height * 4,
    ensures
        i < shape.colors.len() ==> shape.packed()[16 + i] == shape.colors[i],
        i >= shape.colors.len() ==> shape.packed()[16 + i] == 0,
{
    assert(shape.packed()[16 + i] == shape.pixels()[i]);
}

/// Pixels that are all zero get one byte that is not, the alpha of the first pixel; other pixels, and
/// fewer than one pixel, stay as they are.
pub proof fn lemma_visible(colors: Seq<u8>, i: int, k: int)
    requires
        0 <= i < colors.len(),
        0 <= k < colors.len(),
    ensures
        visible(colors).len() == colors.len(),
        i != 3 ==> visible(colors)[i] == colors[i],
        colors[k] != 0 ==> visible(colors) == colors,
        colors.len() <= 3 ==> visible(colors) == colors,
        colors.len() > 3 && (forall|j: int| 0 <= j < colors.len() ==> colors[j] == 0) ==> visible(
            colors,
        )[3] == 1,
{
}

}
