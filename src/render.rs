use vstd::prelude::*;
use vstd::arithmetic::mul::lemma_mul_is_commutative;
use vstd::arithmetic::div_mod::{lemma_fundamental_div_mod, lemma_fundamental_div_mod_converse};
use bytes::BufMut;
use bytes::BytesMut;
use crate::entity::Entity;
use crate::primitives::{be_bytes, Color, V2};
use crate::units::{side_ok, subpixels, HALF_PIXEL, POSITION_LIMIT, SUBPIXELS_PER_PIXEL};

verus! {

#[verifier::external_type_specification]
#[verifier::external_body]
pub struct ExBytesMut(BytesMut);

/// The bytes that a `BytesMut` holds, in order.
pub uninterp spec fn bytes_of(b: BytesMut) -> Seq<u8>;

/// Relies on `BytesMut::with_capacity`: the buffer it returns holds no bytes.
#[verifier::external_body]
fn bytes_with_capacity(capacity: usize) -> (r: BytesMut)
    requires
        capacity <= isize::MAX,
    ensures
        bytes_of(r).len() == 0,
{
    BytesMut::with_capacity(capacity)
}

/// Relies on indexing through `BytesMut`'s `DerefMut` to `[u8]`: one byte is replaced.
#[verifier::external_body]
fn set_byte(b: &mut BytesMut, i: usize, v: u8)
    requires
        i < bytes_of(*old(b)).len(),
    ensures
        bytes_of(*final(b)) == bytes_of(*old(b)).update(i as int, v),
{
    b[i] = v;
}

/// Relies on `BytesMut::clear`: afterwards the buffer holds no bytes.
#[verifier::external_body]
fn clear_bytes(b: &mut BytesMut)
    ensures
        bytes_of(*final(b)) == Seq::<u8>::empty(),
{
    b.clear();
}

/// Relies on `BufMut::put_i32` for `BytesMut`: the value's four big-endian bytes are appended.
#[verifier::external_body]
fn append_i32(b: &mut BytesMut, v: i32)
    requires
        bytes_of(*old(b)).len() + 4 <= isize::MAX,
    ensures
        bytes_of(*final(b)) == bytes_of(*old(b)) + be_bytes(v),
{
    b.put_i32(v);
}

/// The pixels the game draws into: `width` by `height`, four bytes (B, G, R, A)
/// per pixel, row by row.
pub struct OffscreenBuffer {
    pub bits: BytesMut,
    pub width: i32,
    pub height: i32,
}

impl OffscreenBuffer {
    pub open spec fn dims_ok(&self) -> bool {
        side_ok(self.width as int) && side_ok(self.height as int)
    }

    pub open spec fn byte_count(&self) -> int {
        4 * (self.width * self.height)
    }

    /// Every pixel is present.
    pub open spec fn is_full(&self) -> bool {
        bytes_of(self.bits).len() == self.byte_count()
    }

    pub open spec fn pixels(&self) -> Seq<u8> {
        bytes_of(self.bits)
    }

    /// An empty buffer with room for `width` by `height` pixels.
    pub fn new(width: i32, height: i32) -> (r: OffscreenBuffer)
        requires
            side_ok(width as int),
            side_ok(height as int),
        ensures
            r.width == width,
            r.height == height,
            r.pixels().len() == 0,
    {
        proof {
            lemma_area(width as int, height as int);
        }
        let size: usize = 4 * ((width as usize) * (height as usize));
        OffscreenBuffer { bits: bytes_with_capacity(size), width, height }
    }
}

/// Whether pixel number `q` of a buffer `width` pixels wide lies in the
/// rectangle of `w` by `h` pixels whose top-left pixel is (`x0`, `y0`).
pub open spec fn in_rect(q: int, width: int, x0: int, y0: int, w: int, h: int) -> bool {
    x0 <= q % width < x0 + w && y0 <= q / width < y0 + h
}

/// `bits` with every pixel of a rectangle set to `c`.
pub open spec fn paint(bits: Seq<u8>, width: int, x0: int, y0: int, w: int, h: int, c: Color) -> Seq<u8> {
    Seq::new(
        bits.len(),
        |i: int|
            if in_rect(i / 4, width, x0, y0, w, h) {
                c.channel(i % 4)
            } else {
                bits[i]
            },
    )
}

/// The first pixel, along one axis, of a rectangle of `size` pixels at position
/// `p` (in subpixels) drawn into a buffer of `bound` pixels: a rectangle that
/// would pass the far edge is laid against it, one that starts before zero
/// starts at zero, and any other starts at its position rounded to the nearest pixel.
pub open spec fn clamp_origin(p: int, size: int, bound: int) -> int {
    if p + subpixels(size) > subpixels(bound) {
        bound - size
    } else if p < 0 {
        0
    } else {
        (p + HALF_PIXEL) / SUBPIXELS_PER_PIXEL as int
    }
}

/// `bits`, a buffer of `width` by `height` pixels, with a rectangle of `w` by
/// `h` pixels at `p` drawn in colour `c`.
pub open spec fn paint_rect(bits: Seq<u8>, width: int, height: int, p: V2, w: int, h: int, c: Color) -> Seq<u8> {
    paint(bits, width, clamp_origin(p.x as int, w, width), clamp_origin(p.y as int, h, height), w, h, c)
}

pub open spec fn position_ok(p: V2) -> bool {
    -POSITION_LIMIT <= p.x <= POSITION_LIMIT && -POSITION_LIMIT <= p.y <= POSITION_LIMIT
}

fn origin(p: i64, size: i32, bound: i32) -> (r: usize)
    requires
        -POSITION_LIMIT <= p <= POSITION_LIMIT,
        0 <= size <= bound,
        side_ok(bound as int),
    ensures
        r == clamp_origin(p as int, size as int, bound as int),
        r + size <= bound,
{
    if p + (size as i64) * SUBPIXELS_PER_PIXEL > (bound as i64) * SUBPIXELS_PER_PIXEL {
        (bound - size) as usize
    } else if p < 0 {
        0
    } else {
        ((p + HALF_PIXEL) / SUBPIXELS_PER_PIXEL) as usize
    }
}

/// Writes one pixel of colour `c` at byte offset `at`.
fn put_pixel(bits: &mut BytesMut, at: usize, c: &Color)
    requires
        at + 4 <= bytes_of(*old(bits)).len(),
        at + 4 <= usize::MAX,
    ensures
        bytes_of(*final(bits)).len() == bytes_of(*old(bits)).len(),
        forall|i: int|
            0 <= i < bytes_of(*old(bits)).len() ==> #[trigger] bytes_of(*final(bits))[i] == if at <= i
                < at + 4 {
                c.channel(i - at)
            } else {
                bytes_of(*old(bits))[i]
            },
{
    set_byte(bits, at, c.b);
    set_byte(bits, at + 1, c.g);
    set_byte(bits, at + 2, c.r);
    set_byte(bits, at + 3, c.a);
}

proof fn lemma_area(width: int, height: int)
    requires
        side_ok(width),
        side_ok(height),
    ensures
        0 < width * height <= 268_435_456,
{
    assert(0 < width * height <= 268_435_456) by (nonlinear_arith)
        requires
            0 < width <= 16384,
            0 < height <= 16384,
    ;
}

proof fn lemma_row_in_buffer(y: int, width: int, height: int)
    requires
        0 <= y < height,
        0 < width,
    ensures
        0 <= y * width,
        y * width + width <= width * height,
{
    assert(0 <= y * width && y * width + width <= width * height) by (nonlinear_arith)
        requires
            0 <= y < height,
            0 < width,
    ;
}

proof fn lemma_pixel_coords(q: int, width: int, x: int, y: int)
    requires
        0 < width,
        0 <= x < width,
        q == y * width + x,
    ensures
        q % width == x,
        q / width == y,
{
    lemma_fundamental_div_mod_converse(q, width, y, x);
}

/// Draws a `width` by `height` rectangle of colour `color` at `pos` (in
/// subpixels), kept inside the buffer as `clamp_origin` says.
pub fn draw_rectangle(pos: &V2, width: i32, height: i32, color: &Color, buffer: &mut OffscreenBuffer)
    requires
        old(buffer).dims_ok(),
        old(buffer).is_full(),
        position_ok(*pos),
        0 <= width <= old(buffer).width,
        0 <= height <= old(buffer).height,
    ensures
        final(buffer).width == old(buffer).width,
        final(buffer).height == old(buffer).height,
        final(buffer).is_full(),
        final(buffer).pixels() == paint_rect(
            old(buffer).pixels(),
            old(buffer).width as int,
            old(buffer).height as int,
            *pos,
            width as int,
            height as int,
            *color,
        ),
{
    let ghost start = buffer.pixels();
    let ghost bw = buffer.width as int;
    let sx = origin(pos.x, width, buffer.width);
    let sy = origin(pos.y, height, buffer.height);
    let row_len: usize = buffer.width as usize;
    let w: usize = width as usize;
    let h: usize = height as usize;
    let ghost bh = buffer.height as int;
    proof {
        lemma_area(bw, bh);
    }
    let mut yy: usize = 0;
    while yy < h
        invariant
            0 <= yy <= h,
            h as int == height,
            w as int == width,
            row_len as int == bw,
            bw == buffer.width,
            bh == buffer.height,
            bw * bh <= 268_435_456,
            buffer.dims_ok(),
            buffer.is_full(),
            sx + w <= bw,
            sy + h <= buffer.height,
            buffer.pixels() == paint(start, bw, sx as int, sy as int, w as int, yy as int, *color),
        decreases h - yy,
    {
        let ghost before_row = buffer.pixels();
        proof {
            lemma_row_in_buffer((sy + yy) as int, bw, bh);
        }
        let row: usize = (sy + yy) * row_len;
        let mut xx: usize = 0;
        while xx < w
            invariant
                0 <= xx <= w,
                yy < h,
                h as int == height,
                w as int == width,
                row_len as int == bw,
                bw == buffer.width,
                bh == buffer.height,
                bw * bh <= 268_435_456,
                buffer.dims_ok(),
                buffer.is_full(),
                sx + w <= bw,
                sy + h <= buffer.height,
                row == (sy + yy) * bw,
                row + bw <= bw * bh,
                before_row == paint(start, bw, sx as int, sy as int, w as int, yy as int, *color),
                buffer.pixels() == paint(before_row, bw, sx as int, (sy + yy) as int, xx as int, 1, *color),
            decreases w - xx,
        {
            let ghost prev = buffer.pixels();
            let q: usize = row + sx + xx;
            put_pixel(&mut buffer.bits, 4 * q, color);
            proof {
                lemma_pixel_coords(q as int, bw, (sx + xx) as int, (sy + yy) as int);
                assert forall|i: int| 0 <= i < buffer.pixels().len() implies #[trigger] buffer.pixels()[i]
                    == paint(before_row, bw, sx as int, (sy + yy) as int, (xx + 1) as int, 1, *color)[i] by {
                    let p = i / 4;
                    lemma_fundamental_div_mod(p, bw);
                    let target = paint(before_row, bw, sx as int, (sy + yy) as int, (xx + 1) as int, 1, *color);
                    if p == q {
                        assert(i % 4 == i - 4 * q);
                        assert(4 * q <= i < 4 * q + 4);
                        assert(in_rect(p, bw, sx as int, (sy + yy) as int, (xx + 1) as int, 1));
                        assert(buffer.pixels()[i] == color.channel(i - 4 * q));
                        assert(target[i] == color.channel(i % 4));
                    } else {
                        assert(!(4 * q <= i < 4 * q + 4));
                        assert(buffer.pixels()[i] == prev[i]);
                        if p % bw == sx + xx && p / bw == sy + yy {
                            lemma_mul_is_commutative(bw, (sy + yy) as int);
                            assert(p == q);
                        }
                        assert(in_rect(p, bw, sx as int, (sy + yy) as int, (xx + 1) as int, 1) == in_rect(p, bw, sx as int, (sy + yy) as int, xx as int, 1));
                    }
                }
                assert(buffer.pixels() =~= paint(before_row, bw, sx as int, (sy + yy) as int, (xx + 1) as int, 1, *color));
            }
            xx = xx + 1;
        }
        assert(buffer.pixels() =~= paint(start, bw, sx as int, sy as int, w as int, (yy + 1) as int, *color));
        yy = yy + 1;
    }
}


/// A rectangle drawn in one frame, to be repainted with the background in the next.
#[derive(Clone, Copy, Debug, PartialEq, Eq)]
pub struct RectForClear {
    pub p: V2,
    pub width: i32,
    pub height: i32,
}

impl RectForClear {
    pub open spec fn of(entity: Entity) -> RectForClear {
        RectForClear { p: entity.p, width: entity.width, height: entity.height }
    }

    /// The rectangle is one that `draw_rectangle` accepts for a buffer of
    /// `width` by `height` pixels.
    pub open spec fn fits(self, width: int, height: int) -> bool {
        position_ok(self.p) && 0 <= self.width <= width && 0 <= self.height <= height
    }

    pub fn new_from_entity(entity: &Entity) -> (r: RectForClear)
        ensures
            r == RectForClear::of(*entity),
    {
        RectForClear { p: entity.p, width: entity.width, height: entity.height }
    }
}

pub open spec fn rects_of(es: Seq<Entity>) -> Seq<RectForClear> {
    es.map_values(|e: Entity| RectForClear::of(e))
}

/// `len` bytes of pixels all of colour `c`.
pub open spec fn solid(len: int, c: Color) -> Seq<u8> {
    Seq::new(len as nat, |i: int| c.channel(i % 4))
}

/// A buffer of `width` by `height` pixels all of the background colour.
pub open spec fn background(width: int, height: int) -> Seq<u8> {
    solid(4 * (width * height), Color::dark_blue())
}

/// Whether byte `i` belongs to a pixel that drawing `r` covers.
pub open spec fn covers(width: int, height: int, r: RectForClear, i: int) -> bool {
    in_rect(
        i / 4,
        width,
        clamp_origin(r.p.x as int, r.width as int, width),
        clamp_origin(r.p.y as int, r.height as int, height),
        r.width as int,
        r.height as int,
    )
}

/// `bits` with each rectangle of `rs`, in order, repainted with the background.
pub open spec fn clear_rects(bits: Seq<u8>, width: int, height: int, rs: Seq<RectForClear>) -> Seq<u8>
    decreases rs.len(),
{
    if rs.len() == 0 {
        bits
    } else {
        let r = rs.last();
        paint_rect(
            clear_rects(bits, width, height, rs.drop_last()),
            width,
            height,
            r.p,
            r.width as int,
            r.height as int,
            Color::dark_blue(),
        )
    }
}

/// `bits` with each entity of `es`, in order, drawn in its colour.
pub open spec fn draw_entities(bits: Seq<u8>, width: int, height: int, es: Seq<Entity>) -> Seq<u8>
    decreases es.len(),
{
    if es.len() == 0 {
        bits
    } else {
        let e = es.last();
        paint_rect(
            draw_entities(bits, width, height, es.drop_last()),
            width,
            height,
            e.p,
            e.width as int,
            e.height as int,
            e.color,
        )
    }
}

/// What a full redraw of the scene `es` shows: the background, then each entity.
pub open spec fn frame(width: int, height: int, es: Seq<Entity>) -> Seq<u8> {
    draw_entities(background(width, height), width, height, es)
}

/// Fills the whole buffer with the background colour.
pub fn clear_buffer(buffer: &mut OffscreenBuffer)
    requires
        old(buffer).dims_ok(),
    ensures
        final(buffer).width == old(buffer).width,
        final(buffer).height == old(buffer).height,
        final(buffer).is_full(),
        final(buffer).pixels() == background(old(buffer).width as int, old(buffer).height as int),
{
    proof {
        lemma_area(buffer.width as int, buffer.height as int);
    }
    clear_bytes(&mut buffer.bits);
    let packed = Color::dark_blue().get_i32();
    let total: usize = (buffer.width as usize) * (buffer.height as usize);
    let mut n: usize = 0;
    while n < total
        invariant
            0 <= n <= total,
            total == buffer.width * buffer.height,
            total <= 268_435_456,
            buffer.width == old(buffer).width,
            buffer.height == old(buffer).height,
            be_bytes(packed) == Color::dark_blue().pixel_bytes(),
            buffer.pixels() == solid(4 * n, Color::dark_blue()),
        decreases total - n,
    {
        let ghost prev = buffer.pixels();
        append_i32(&mut buffer.bits, packed);
        proof {
            let c = Color::dark_blue();
            assert forall|i: int| 0 <= i < 4 * n + 4 implies #[trigger] buffer.pixels()[i] == solid(4 * n + 4, c)[i] by {
                if i >= 4 * n {
                    assert(buffer.pixels()[i] == be_bytes(packed)[i - 4 * n]);
                    assert(i % 4 == i - 4 * n);
                }
            }
            assert(buffer.pixels() =~= solid(4 * (n + 1), c));
        }
        n = n + 1;
    }
}

/// Draws `entity` at its position in its colour.
pub fn draw_entity(entity: &Entity, buffer: &mut OffscreenBuffer)
    requires
        old(buffer).dims_ok(),
        old(buffer).is_full(),
        RectForClear::of(*entity).fits(old(buffer).width as int, old(buffer).height as int),
    ensures
        final(buffer).width == old(buffer).width,
        final(buffer).height == old(buffer).height,
        final(buffer).is_full(),
        final(buffer).pixels() == paint_rect(
            old(buffer).pixels(),
            old(buffer).width as int,
            old(buffer).height as int,
            entity.p,
            entity.width as int,
            entity.height as int,
            entity.color,
        ),
{
    draw_rectangle(&entity.p, entity.width, entity.height, &entity.color, buffer);
}

/// Repaints each rectangle of `rects`, in order, with the background colour.
pub fn clear_dirty_rects(buffer: &mut OffscreenBuffer, rects: &Vec<RectForClear>)
    requires
        old(buffer).dims_ok(),
        old(buffer).is_full(),
        forall|k: int| 0 <= k < rects.len() ==> (#[trigger] rects[k]).fits(old(buffer).width as int, old(buffer).height as int),
    ensures
        final(buffer).width == old(buffer).width,
        final(buffer).height == old(buffer).height,
        final(buffer).is_full(),
        final(buffer).pixels() == clear_rects(
            old(buffer).pixels(),
            old(buffer).width as int,
            old(buffer).height as int,
            rects@,
        ),
{
    let ghost start = buffer.pixels();
    let ghost w = buffer.width as int;
    let ghost h = buffer.height as int;
    let bg = Color::dark_blue();
    let mut k: usize = 0;
    assert(rects@.subrange(0, 0) =~= Seq::<RectForClear>::empty());
    while k < rects.len()
        invariant
            0 <= k <= rects.len(),
            w == buffer.width,
            h == buffer.height,
            w == old(buffer).width,
            h == old(buffer).height,
            buffer.dims_ok(),
            buffer.is_full(),
            bg == Color::dark_blue(),
            forall|k: int| 0 <= k < rects.len() ==> (#[trigger] rects[k]).fits(w, h),
            buffer.pixels() == clear_rects(start, w, h, rects@.subrange(0, k as int)),
        decreases rects.len() - k,
    {
        let r = &rects[k];
        draw_rectangle(&r.p, r.width, r.height, &bg, buffer);
        assert(rects@.subrange(0, k + 1).drop_last() =~= rects@.subrange(0, k as int));
        k = k + 1;
    }
    assert(rects@.subrange(0, rects.len() as int) =~= rects@);
}

proof fn lemma_clear_rects_at(bits: Seq<u8>, width: int, height: int, rs: Seq<RectForClear>, i: int)
    requires
        0 <= i < bits.len(),
    ensures
        clear_rects(bits, width, height, rs).len() == bits.len(),
        clear_rects(bits, width, height, rs)[i] == if exists|j: int|
            0 <= j < rs.len() && covers(width, height, #[trigger] rs[j], i) {
            Color::dark_blue().channel(i % 4)
        } else {
            bits[i]
        },
    decreases rs.len(),
{
    if rs.len() > 0 {
        let init = rs.drop_last();
        lemma_clear_rects_at(bits, width, height, init, i);
        let last = rs.last();
        if covers(width, height, last, i) {
            assert(covers(width, height, rs[rs.len() - 1], i));
        } else if exists|j: int| 0 <= j < rs.len() && covers(width, height, #[trigger] rs[j], i) {
            let j = choose|j: int| 0 <= j < rs.len() && covers(width, height, #[trigger] rs[j], i);
            assert(init[j] == rs[j]);
        } else {
            assert forall|j: int| 0 <= j < init.len() implies !covers(width, height, #[trigger] init[j], i) by {
                assert(init[j] == rs[j]);
            }
        }
    }
}

proof fn lemma_draw_entities_outside(bits: Seq<u8>, width: int, height: int, es: Seq<Entity>, i: int)
    requires
        0 <= i < bits.len(),
    ensures
        draw_entities(bits, width, height, es).len() == bits.len(),
        (forall|j: int| 0 <= j < es.len() ==> !covers(width, height, RectForClear::of(#[trigger] es[j]), i))
            ==> draw_entities(bits, width, height, es)[i] == bits[i],
    decreases es.len(),
{
    if es.len() > 0 {
        let init = es.drop_last();
        lemma_draw_entities_outside(bits, width, height, init, i);
        if forall|j: int| 0 <= j < es.len() ==> !covers(width, height, RectForClear::of(#[trigger] es[j]), i) {
            assert forall|j: int| 0 <= j < init.len() implies !covers(width, height, RectForClear::of(#[trigger] init[j]), i) by {
                assert(init[j] == es[j]);
            }
            assert(!covers(width, height, RectForClear::of(es[es.len() - 1]), i));
        }
    }
}

proof fn lemma_draw_entities_len(bits: Seq<u8>, width: int, height: int, es: Seq<Entity>)
    ensures
        draw_entities(bits, width, height, es).len() == bits.len(),
    decreases es.len(),
{
    if es.len() > 0 {
        lemma_draw_entities_len(bits, width, height, es.drop_last());
    }
}

/// Repainting the background over the rectangles of the scene that the last
/// frame drew, and then drawing the next scene, leaves the same pixels as
/// clearing the whole buffer and drawing the next scene on it. In particular,
/// for a scene where nothing moved, the cheap redraw and the full redraw agree.
pub proof fn lemma_dirty_redraw_matches_full_redraw(
    width: int,
    height: int,
    drawn: Seq<Entity>,
    next: Seq<Entity>,
)
    ensures
        draw_entities(clear_rects(frame(width, height, drawn), width, height, rects_of(drawn)), width, height, next)
            == frame(width, height, next),
{
    let shown = frame(width, height, drawn);
    let bg = background(width, height);
    let rs = rects_of(drawn);
    lemma_draw_entities_len(bg, width, height, drawn);
    let cleared = clear_rects(shown, width, height, rs);
    assert forall|i: int| 0 <= i < bg.len() implies #[trigger] cleared[i] == bg[i] by {
        lemma_clear_rects_at(shown, width, height, rs, i);
        lemma_draw_entities_outside(bg, width, height, drawn, i);
        if !(exists|j: int| 0 <= j < rs.len() && covers(width, height, #[trigger] rs[j], i)) {
            assert forall|j: int| 0 <= j < drawn.len() implies !covers(width, height, RectForClear::of(#[trigger] drawn[j]), i) by {
                assert(rs[j] == RectForClear::of(drawn[j]));
            }
        }
    }
    if bg.len() > 0 {
        lemma_clear_rects_at(shown, width, height, rs, 0);
    } else {
        lemma_clear_rects_len(shown, width, height, rs);
    }
    assert(cleared =~= bg);
}

/// Repainting the background over a buffer that shows only the background changes nothing.
pub proof fn lemma_clear_background(width: int, height: int, rs: Seq<RectForClear>)
    ensures
        clear_rects(background(width, height), width, height, rs) == background(width, height),
{
    let bg = background(width, height);
    lemma_clear_rects_len(bg, width, height, rs);
    assert forall|i: int| 0 <= i < bg.len() implies #[trigger] clear_rects(bg, width, height, rs)[i] == bg[i] by {
        lemma_clear_rects_at(bg, width, height, rs, i);
    }
    assert(clear_rects(bg, width, height, rs) =~= bg);
}

/// Painting a rectangle as large as the buffer from its corner gives one solid colour.
pub proof fn lemma_paint_everything(bits: Seq<u8>, width: int, height: int, c: Color)
    requires
        side_ok(width),
        side_ok(height),
        bits.len() == 4 * (width * height),
    ensures
        paint_rect(bits, width, height, V2 { x: 0, y: 0 }, width, height, c) == solid(bits.len() as int, c),
{
    let len = bits.len() as int;
    let painted = paint_rect(bits, width, height, V2 { x: 0, y: 0 }, width, height, c);
    assert(clamp_origin(0, width, width) == 0);
    assert(clamp_origin(0, height, height) == 0);
    assert forall|i: int| 0 <= i < len implies #[trigger] painted[i] == solid(len, c)[i] by {
        let q = i / 4;
        lemma_fundamental_div_mod(q, width);
        assert(0 <= q < width * height);
        let d = q / width;
        let m = q % width;
        assert(0 <= m < width);
        assert(0 <= d < height) by (nonlinear_arith)
            requires
                q == width * d + m,
                0 <= m < width,
                0 <= q < width * height,
                0 < width,
        ;
    }
    assert(painted =~= solid(len, c));
}

proof fn lemma_clear_rects_len(bits: Seq<u8>, width: int, height: int, rs: Seq<RectForClear>)
    ensures
        clear_rects(bits, width, height, rs).len() == bits.len(),
    decreases rs.len(),
{
    if rs.len() > 0 {
        lemma_clear_rects_len(bits, width, height, rs.drop_last());
    }
}

} // verus!
