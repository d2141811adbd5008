use vstd::prelude::*;

verus! {

/// Orientation of the picture on the panel.
#[derive(Clone, Copy, Debug, PartialEq, Eq, Structural)]
pub enum DisplayRotation {
    /// No rotation.
    Rotate0,
    /// Rotated by 90 degrees clockwise.
    Rotate90,
    /// Rotated by 180 degrees.
    Rotate180,
    /// Rotated by 270 degrees clockwise.
    Rotate270,
}

impl Default for DisplayRotation {
    fn default() -> (r: DisplayRotation)
        ensures
            r == DisplayRotation::Rotate0,
    {
        DisplayRotation::Rotate0
    }
}

/// Whether logical `(x, y)` falls off a `width` x `height` panel under `rot`:
/// a quarter turn swaps which axis the width bounds.
pub open spec fn is_outside(x: int, y: int, width: int, height: int, rot: DisplayRotation) -> bool {
    x < 0 || y < 0 || match rot {
        DisplayRotation::Rotate0 | DisplayRotation::Rotate180 => x >= width || y >= height,
        DisplayRotation::Rotate90 | DisplayRotation::Rotate270 => x >= height || y >= width,
    }
}

/// Physical coordinate, in the unrotated panel, of logical `(x, y)` under `rot`.
pub open spec fn rotated(x: int, y: int, width: int, height: int, rot: DisplayRotation) -> (int, int) {
    match rot {
        DisplayRotation::Rotate0 => (x, y),
        DisplayRotation::Rotate90 => (width - 1 - y, x),
        DisplayRotation::Rotate180 => (width - 1 - x, height - 1 - y),
        DisplayRotation::Rotate270 => (y, height - 1 - x),
    }
}

/// Bytes in one pixel row of a plane `width` pixels wide.
pub open spec fn row_bytes(width: int) -> int {
    (width + 7) / 8
}

/// Index, within a plane, of the byte that holds physical pixel `(px, py)`.
pub open spec fn byte_index(px: int, py: int, width: int) -> int {
    py * row_bytes(width) + px / 8
}

/// Mask of physical column `px` within its byte, most significant bit first.
pub open spec fn bit_mask(px: int) -> u8 {
    0x80u8 >> ((px % 8) as u8)
}

/// Whether logical `(x, y)` falls off a `width` x `height` panel under `rotation`.
pub fn outside_display(x: i32, y: i32, width: u32, height: u32, rotation: DisplayRotation) -> (r:
    bool)
    ensures
        r == is_outside(x as int, y as int, width as int, height as int, rotation),
{
    if x < 0 || y < 0 {
        return true;
    }
    let ux = x as u32;
    let uy = y as u32;
    match rotation {
        DisplayRotation::Rotate0 | DisplayRotation::Rotate180 => ux >= width || uy >= height,
        DisplayRotation::Rotate90 | DisplayRotation::Rotate270 => uy >= width || ux >= height,
    }
}

/// Physical coordinate of logical `(x, y)` under `rotation`; it lies on the unrotated panel.
pub fn find_rotation(x: u32, y: u32, width: u32, height: u32, rotation: DisplayRotation) -> (r: (
    u32,
    u32,
))
    requires
        !is_outside(x as int, y as int, width as int, height as int, rotation),
    ensures
        (r.0 as int, r.1 as int) == rotated(
            x as int,
            y as int,
            width as int,
            height as int,
            rotation,
        ),
        r.0 < width,
        r.1 < height,
{
    match rotation {
        DisplayRotation::Rotate0 => (x, y),
        DisplayRotation::Rotate90 => (width - 1 - y, x),
        DisplayRotation::Rotate180 => (width - 1 - x, height - 1 - y),
        DisplayRotation::Rotate270 => (y, height - 1 - x),
    }
}

/// Byte index within a plane and bit mask of logical `(x, y)` under `rotation`.
pub fn find_position(x: u32, y: u32, width: u32, height: u32, rotation: DisplayRotation) -> (r: (
    u32,
    u8,
))
    requires
        !is_outside(x as int, y as int, width as int, height as int, rotation),
        row_bytes(width as int) * height <= u32::MAX,
    ensures
        ({
            let p = rotated(x as int, y as int, width as int, height as int, rotation);
            &&& r.0 == byte_index(p.0, p.1, width as int)
            &&& r.1 == bit_mask(p.0)
            &&& r.0 < row_bytes(width as int) * height
        }),
{
    let (nx, ny) = find_rotation(x, y, width, height, rotation);
    let rb = width / 8 + if width % 8 == 0 { 0 } else { 1 };
    assert(rb == row_bytes(width as int));
    assert(ny * rb + nx / 8 < rb * height) by (nonlinear_arith)
        requires
            ny < height,
            nx < width,
            rb == (width + 7) / 8,
    ;
    let idx = nx / 8 + rb * ny;
    (idx, 0x80u8 >> ((nx % 8) as u8))
}

} // verus!
