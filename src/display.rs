use crate::color::{
    chromatic_bit, fill_byte, lemma_with_bits_idempotent, primary_bit, set_bits, with_bits, TriColor,
};
use crate::graphics::{
    bit_mask, byte_index, find_position, is_outside, outside_display, rotated, row_bytes,
    DisplayRotation,
};
use vstd::prelude::*;
use vstd::slice::slice_subrange;

verus! {

/// Panel width in pixels.
pub const WIDTH: u32 = 176;

/// Panel height in pixels.
pub const HEIGHT: u32 = 264;

/// Bytes in one plane: `WIDTH * HEIGHT / 8`.
pub const PLANE_LEN: usize = 5808;

/// Bytes in the whole buffer: both planes.
pub const BUFFER_LEN: usize = 11616;

/// Color of every pixel of a fresh buffer.
pub const DEFAULT_BACKGROUND_COLOR: TriColor = TriColor::White;

/// A logical pixel write: coordinate and color.
#[derive(Clone, Copy, Debug, PartialEq, Eq, Structural)]
pub struct Pixel {
    pub x: i32,
    pub y: i32,
    pub color: TriColor,
}

/// What a display holds: the bytes of both planes and the rotation.
pub struct DisplayModel {
    pub bytes: Seq<u8>,
    pub rotation: DisplayRotation,
}

/// A buffer of `BUFFER_LEN` bytes whose black/white plane is filled with
/// `primary` and whose chromatic plane is filled with `chromatic`.
pub open spec fn filled_planes(primary: u8, chromatic: u8) -> Seq<u8> {
    Seq::new(BUFFER_LEN as nat, |i: int| if i < PLANE_LEN { primary } else { chromatic })
}

/// A display freshly filled with `background`, unrotated.
pub open spec fn fresh_model(background: TriColor) -> DisplayModel {
    DisplayModel {
        bytes: filled_planes(fill_byte(primary_bit(background)), fill_byte(chromatic_bit(background))),
        rotation: DisplayRotation::Rotate0,
    }
}

impl DisplayModel {
    /// The black/white plane.
    pub open spec fn primary_plane(self) -> Seq<u8> {
        self.bytes.subrange(0, PLANE_LEN as int)
    }

    /// The chromatic plane.
    pub open spec fn chromatic_plane(self) -> Seq<u8> {
        self.bytes.subrange(PLANE_LEN as int, BUFFER_LEN as int)
    }

    /// The same display under rotation `r`.
    pub open spec fn with_rotation(self, r: DisplayRotation) -> DisplayModel {
        DisplayModel { rotation: r, ..self }
    }

    /// The display after the logical pixel `(x, y)` is drawn in color `c`:
    /// nothing changes off the panel; otherwise the pixel's bit takes the
    /// color's bit in each plane.
    pub open spec fn draw(self, x: int, y: int, c: TriColor) -> DisplayModel {
        if is_outside(x, y, WIDTH as int, HEIGHT as int, self.rotation) {
            self
        } else {
            let p = rotated(x, y, WIDTH as int, HEIGHT as int, self.rotation);
            let i = byte_index(p.0, p.1, WIDTH as int);
            let j = i + PLANE_LEN;
            let m = bit_mask(p.0);
            DisplayModel {
                bytes: self.bytes.update(i, with_bits(self.bytes[i], m, primary_bit(c))).update(
                    j,
                    with_bits(self.bytes[j], m, chromatic_bit(c)),
                ),
                ..self
            }
        }
    }

    /// The display after the pixels of `ps` are drawn in order.
    pub open spec fn draw_all(self, ps: Seq<Pixel>) -> DisplayModel
        decreases ps.len(),
    {
        if ps.len() == 0 {
            self
        } else {
            let p = ps.last();
            self.draw_all(ps.drop_last()).draw(p.x as int, p.y as int, p.color)
        }
    }
}

/// Frame buffer of the 2.7 inch three-color panel: the black/white plane
/// followed by the chromatic plane, and the current rotation.
pub struct Display2in7b {
    buffer: [u8; 11616],
    rotation: DisplayRotation,
}

impl View for Display2in7b {
    type V = DisplayModel;

    closed spec fn view(&self) -> DisplayModel {
        DisplayModel { bytes: self.buffer@, rotation: self.rotation }
    }
}

impl Display2in7b {
    /// A display with every pixel in `background`, unrotated.
    pub fn new(background: TriColor) -> (r: Display2in7b)
        ensures
            r@ == fresh_model(background),
            r@.bytes.len() == BUFFER_LEN,
            forall|i: int| 0 <= i < PLANE_LEN ==> r@.bytes[i] == fill_byte(primary_bit(background)),
            forall|i: int|
                PLANE_LEN <= i < BUFFER_LEN ==> r@.bytes[i] == fill_byte(chromatic_bit(background)),
            r@.rotation == DisplayRotation::Rotate0,
    {
        let primary = background.get_byte_value();
        let chromatic = background.get_chromatic_byte_value();
        let mut buffer = [primary; 11616];
        let mut i: usize = PLANE_LEN;
        while i < BUFFER_LEN
            invariant
                PLANE_LEN <= i <= BUFFER_LEN,
                buffer@.len() == BUFFER_LEN,
                forall|k: int| 0 <= k < PLANE_LEN ==> buffer@[k] == primary,
                forall|k: int| PLANE_LEN <= k < i ==> buffer@[k] == chromatic,
            decreases BUFFER_LEN - i,
        {
            buffer[i] = chromatic;
            i += 1;
        }
        let r = Display2in7b { buffer, rotation: DisplayRotation::Rotate0 };
        assert(r@.bytes =~= filled_planes(primary, chromatic));
        r
    }

    /// Draws logical pixel `(x, y)` in `color` under the current rotation;
    /// a pixel off the panel is dropped.
    pub fn draw_pixel(&mut self, x: i32, y: i32, color: TriColor)
        ensures
            final(self)@ == old(self)@.draw(x as int, y as int, color),
    {
        if outside_display(x, y, WIDTH, HEIGHT, self.rotation) {
            return;
        }
        let (idx, bit) = find_position(x as u32, y as u32, WIDTH, HEIGHT, self.rotation);
        let i = idx as usize;
        let j = i + PLANE_LEN;
        self.buffer[i] = set_bits(self.buffer[i], bit, color.bw_bit());
        self.buffer[j] = set_bits(self.buffer[j], bit, color.chromatic_bit());
        assert(self@.bytes =~= old(self)@.draw(x as int, y as int, color).bytes);
    }

    /// Draws the pixels of `pixels` in order; the last write to a bit wins.
    pub fn draw_iter(&mut self, pixels: &[Pixel])
        ensures
            final(self)@ == old(self)@.draw_all(pixels@),
    {
        let mut i: usize = 0;
        while i < pixels.len()
            invariant
                i <= pixels@.len(),
                self@ == old(self)@.draw_all(pixels@.subrange(0, i as int)),
            decreases pixels@.len() - i,
        {
            let p = pixels[i];
            assert(pixels@.subrange(0, i + 1).drop_last() =~= pixels@.subrange(0, i as int));
            self.draw_pixel(p.x, p.y, p.color);
            i += 1;
        }
        assert(pixels@.subrange(0, i as int) =~= pixels@);
    }

    /// Drawable size `(width, height)`: the unrotated panel, whatever the rotation.
    pub fn size(&self) -> (r: (u32, u32))
        ensures
            r == (WIDTH, HEIGHT),
    {
        (WIDTH, HEIGHT)
    }

    /// Both planes, black/white first.
    pub fn buffer(&self) -> (r: &[u8])
        ensures
            r@ == self@.bytes,
            r@.len() == BUFFER_LEN,
    {
        self.buffer.as_slice()
    }

    /// Both planes, for writing; the rotation stays.
    pub fn get_mut_buffer(&mut self) -> (r: &mut [u8])
        ensures
            r@ == old(self)@.bytes,
            r@.len() == BUFFER_LEN,
            final(self)@.bytes == final(r)@,
            final(self)@.rotation == old(self)@.rotation,
    {
        &mut self.buffer
    }

    /// Sets the rotation; the bytes stay.
    pub fn set_rotation(&mut self, rotation: DisplayRotation)
        ensures
            final(self)@ == old(self)@.with_rotation(rotation),
    {
        self.rotation = rotation;
    }

    /// The current rotation.
    pub fn rotation(&self) -> (r: DisplayRotation)
        ensures
            r == self@.rotation,
    {
        self.rotation
    }

    /// Offset of the chromatic plane in the buffer: the black/white plane's length.
    pub fn chromatic_offset(&self) -> (r: usize)
        ensures
            r == PLANE_LEN,
            r == WIDTH * HEIGHT / 8,
    {
        PLANE_LEN
    }

    /// The black/white plane.
    pub fn bw_buffer(&self) -> (r: &[u8])
        ensures
            r@ == self@.primary_plane(),
            r@.len() == PLANE_LEN,
    {
        let off = self.chromatic_offset();
        slice_subrange(self.buffer.as_slice(), 0, off)
    }

    /// The chromatic plane.
    pub fn chromatic_buffer(&self) -> (r: &[u8])
        ensures
            r@ == self@.chromatic_plane(),
            r@.len() == PLANE_LEN,
    {
        let off = self.chromatic_offset();
        slice_subrange(self.buffer.as_slice(), off, BUFFER_LEN)
    }
}

impl Default for Display2in7b {
    /// A display filled with the default background color, unrotated.
    fn default() -> (r: Display2in7b)
        ensures
            r@ == fresh_model(DEFAULT_BACKGROUND_COLOR),
    {
        Display2in7b::new(DEFAULT_BACKGROUND_COLOR)
    }
}

/// The logical pixel that lands on the first physical pixel (column 0 of
/// row 0) under `r`.
pub open spec fn first_pixel_of(r: DisplayRotation) -> (int, int) {
    match r {
        DisplayRotation::Rotate0 => (0, 0),
        DisplayRotation::Rotate90 => (0, WIDTH - 1),
        DisplayRotation::Rotate180 => (WIDTH - 1, HEIGHT - 1),
        DisplayRotation::Rotate270 => (HEIGHT - 1, 0),
    }
}

/// Every display's buffer holds both planes: `2 * WIDTH * HEIGHT / 8` bytes.
pub proof fn lemma_buffer_len(d: &Display2in7b)
    ensures
        d@.bytes.len() == BUFFER_LEN,
        d@.bytes.len() == 2 * WIDTH * HEIGHT / 8,
{
}

/// Drawing keeps the buffer's length.
pub proof fn lemma_draw_keeps_len(m: DisplayModel, x: int, y: int, c: TriColor)
    requires
        m.bytes.len() == BUFFER_LEN,
    ensures
        m.draw(x, y, c).bytes.len() == BUFFER_LEN,
{
    if !is_outside(x, y, WIDTH as int, HEIGHT as int, m.rotation) {
        lemma_position_in_plane(x, y, m.rotation);
    }
}

/// The chromatic plane starts at byte `WIDTH * HEIGHT / 8`, right after the
/// black/white plane, and both planes have that many bytes.
pub proof fn lemma_plane_partition(m: DisplayModel)
    requires
        m.bytes.len() == BUFFER_LEN,
    ensures
        m.bytes == m.primary_plane() + m.chromatic_plane(),
        m.primary_plane().len() == WIDTH * HEIGHT / 8,
        m.chromatic_plane().len() == WIDTH * HEIGHT / 8,
        forall|i: int| 0 <= i < PLANE_LEN ==> m.chromatic_plane()[i] == m.bytes[PLANE_LEN + i],
{
    assert(m.bytes =~= m.primary_plane() + m.chromatic_plane());
}

/// Setting a rotation and reading it back gives that rotation; the bytes stay.
pub proof fn lemma_rotation_round_trip(m: DisplayModel, r: DisplayRotation)
    ensures
        m.with_rotation(r).rotation == r,
        m.with_rotation(r).bytes == m.bytes,
{
}

/// A pixel that falls off the panel under the current rotation changes nothing.
pub proof fn lemma_outside_dropped(m: DisplayModel, x: int, y: int, c: TriColor)
    requires
        is_outside(x, y, WIDTH as int, HEIGHT as int, m.rotation),
    ensures
        m.draw(x, y, c) == m,
{
}

/// A pixel on the panel lands in a byte of the black/white plane, at a bit
/// of one column.
pub proof fn lemma_position_in_plane(x: int, y: int, r: DisplayRotation)
    requires
        !is_outside(x, y, WIDTH as int, HEIGHT as int, r),
    ensures
        ({
            let p = rotated(x, y, WIDTH as int, HEIGHT as int, r);
            &&& 0 <= p.0 < WIDTH
            &&& 0 <= p.1 < HEIGHT
            &&& 0 <= byte_index(p.0, p.1, WIDTH as int) < PLANE_LEN
        }),
{
    let p = rotated(x, y, WIDTH as int, HEIGHT as int, r);
    assert(row_bytes(WIDTH as int) == 22);
    assert(0 <= p.0 < WIDTH && 0 <= p.1 < HEIGHT);
    assert(0 <= p.1 * 22 <= 263 * 22) by (nonlinear_arith)
        requires
            0 <= p.1 < 264,
    ;
}

/// Drawing the same pixel twice leaves the display as drawing it once.
pub proof fn lemma_draw_idempotent(m: DisplayModel, x: int, y: int, c: TriColor)
    requires
        m.bytes.len() == BUFFER_LEN,
    ensures
        m.draw(x, y, c).draw(x, y, c) == m.draw(x, y, c),
{
    if !is_outside(x, y, WIDTH as int, HEIGHT as int, m.rotation) {
        lemma_position_in_plane(x, y, m.rotation);
        let p = rotated(x, y, WIDTH as int, HEIGHT as int, m.rotation);
        let i = byte_index(p.0, p.1, WIDTH as int);
        let j = i + PLANE_LEN;
        let mask = bit_mask(p.0);
        let once = m.draw(x, y, c);
        lemma_with_bits_idempotent(m.bytes[i], mask, primary_bit(c));
        lemma_with_bits_idempotent(m.bytes[j], mask, chromatic_bit(c));
        assert(once.bytes[i] == with_bits(m.bytes[i], mask, primary_bit(c)));
        assert(once.bytes[j] == with_bits(m.bytes[j], mask, chromatic_bit(c)));
        assert(once.draw(x, y, c).bytes =~= once.bytes);
    }
}

/// On a fresh white display, drawing one black pixel at the logical point
/// that maps to the first physical pixel clears the top bit of byte 0 and
/// changes no other byte, under each rotation.
pub proof fn lemma_first_pixel(r: DisplayRotation)
    ensures
        ({
            let before = fresh_model(TriColor::White).with_rotation(r);
            let o = first_pixel_of(r);
            let after = before.draw(o.0, o.1, TriColor::Black);
            &&& after.bytes.len() == BUFFER_LEN
            &&& before.bytes[0] == 0xff
            &&& after.bytes[0] == 0x7f
            &&& forall|i: int| 1 <= i < BUFFER_LEN ==> after.bytes[i] == before.bytes[i]
        }),
{
    let before = fresh_model(TriColor::White).with_rotation(r);
    let o = first_pixel_of(r);
    let p = rotated(o.0, o.1, WIDTH as int, HEIGHT as int, r);
    assert(p == (0int, 0int));
    lemma_position_in_plane(o.0, o.1, r);
    assert(row_bytes(WIDTH as int) == 22);
    assert(byte_index(0, 0, WIDTH as int) == 0);
    assert(0x80u8 >> 0u8 == 0x80u8) by (bit_vector);
    assert(0xffu8 & !0x80u8 == 0x7fu8) by (bit_vector);
    assert(0xffu8 | 0x80u8 == 0xffu8) by (bit_vector);
    assert(before.bytes[PLANE_LEN as int] == 0xff);
}

} // verus!
