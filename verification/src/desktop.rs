//! The tray icon, drawn in code so that no icon file has to ship with the
//! program.
//!
//! The mark is a blue folder with a white linked arrow, laid out on a grid of
//! 32 units that is scaled to the requested size.  All geometry is integer
//! arithmetic on those units.
use vstd::prelude::*;

verus! {

/// The address the desktop menu opens for Google Drive.
pub const GOOGLE_DRIVE_URL: &'static str = "https://drive.google.com/drive/quota";

/// The address of the web interface until the server reports its own.
pub const DEFAULT_WEB_URL: &'static str = "http://127.0.0.1:8765";

/// Whether pixel `(x, y)` of a `size`-pixel icon lies in the rectangle given
/// in grid units (left and top inclusive, right and bottom exclusive).
pub open spec fn in_rect(size: int, x: int, y: int, left: int, top: int, right: int, bottom: int) -> bool {
    32 * x >= left * size && 32 * x < right * size && 32 * y >= top * size && 32 * y < bottom * size
}

/// The stroke width of the arrow: one grid unit, at least one pixel.
pub open spec fn stroke(size: int) -> int {
    if size / 32 >= 1 {
        size / 32
    } else {
        1
    }
}

/// Step `step` of the arrow's shaft: column and top row.
pub open spec fn shaft_column(size: int, step: int) -> int {
    (9 + step) * size / 32
}

pub open spec fn shaft_row(size: int, step: int) -> int {
    (420 - 13 * step) * size / 640
}

/// Whether the shaft of the arrow covers pixel `(x, y)`.
pub open spec fn on_shaft(size: int, x: int, y: int) -> bool {
    exists|step: int|
        0 <= step < 12 && x == #[trigger] shaft_column(size, step) && shaft_row(size, step) <= y < shaft_row(size, step)
            + stroke(size)
}

/// Whether the head of the arrow covers pixel `(x, y)`.
pub open spec fn on_head(size: int, x: int, y: int) -> bool {
    exists|step: int|
        0 <= step < 6 && x == #[trigger] ((18 + step) * size / 32) && (y == (13 + step) * size / 32 || y == (18
            - step) * size / 32)
}

/// The colour of pixel `(x, y)`: the white arrow over the lighter inner
/// folder over the folder body and its tab, on a transparent ground.
pub open spec fn icon_color(size: int, x: int, y: int) -> Seq<u8> {
    if on_shaft(size, x, y) || on_head(size, x, y) {
        seq![255u8, 255u8, 255u8, 255u8]
    } else if in_rect(size, x, y, 5, 11, 27, 24) {
        seq![25u8, 135u8, 250u8, 255u8]
    } else if in_rect(size, x, y, 3, 8, 29, 26) || in_rect(size, x, y, 5, 5, 15, 11) {
        seq![13u8, 110u8, 253u8, 255u8]
    } else {
        seq![0u8, 0u8, 0u8, 0u8]
    }
}

/// Byte `i` of the RGBA image, rows from the top, pixels from the left.
pub open spec fn icon_byte(size: int, i: int) -> u8 {
    let pixel = i / 4;
    icon_color(size, pixel % size, pixel / size)[i % 4]
}

fn shaft_covers(size: u64, x: u64, y: u64) -> (result: bool)
    requires
        0 < size < 32768,
        x < size,
        y < size,
    ensures
        result == on_shaft(size as int, x as int, y as int),
{
    let width: u64 = if size / 32 >= 1 { size / 32 } else { 1 };
    let mut step: u64 = 0;
    while step < 12
        invariant
            0 < size < 32768,
            step <= 12,
            width as int == stroke(size as int),
            forall|s: int|
                0 <= s < step ==> !(x == #[trigger] shaft_column(size as int, s) && shaft_row(size as int, s) <= y
                    < shaft_row(size as int, s) + stroke(size as int)),
        decreases 12 - step,
    {
        assert((9 + step) * size <= 21 * 32768) by (nonlinear_arith)
            requires
                step < 12,
                size < 32768,
        ;
        assert((420 - 13 * step) * size <= 420 * 32768) by (nonlinear_arith)
            requires
                step < 12,
                size < 32768,
        ;
        let column = (9 + step) * size / 32;
        let row = (420 - 13 * step) * size / 640;
        assert(column == shaft_column(size as int, step as int));
        assert(row == shaft_row(size as int, step as int));
        if x == column && row <= y && y < row + width {
            return true;
        }
        step = step + 1;
    }
    false
}

fn head_covers(size: u64, x: u64, y: u64) -> (result: bool)
    requires
        0 < size < 32768,
        x < size,
        y < size,
    ensures
        result == on_head(size as int, x as int, y as int),
{
    let mut step: u64 = 0;
    while step < 6
        invariant
            0 < size < 32768,
            step <= 6,
            forall|s: int|
                0 <= s < step ==> !(x == #[trigger] ((18 + s) * size / 32) && (y == (13 + s) * size / 32 || y == (18
                    - s) * size / 32)),
        decreases 6 - step,
    {
        assert((18 + step) * size <= 24 * 32768) by (nonlinear_arith)
            requires
                step < 6,
                size < 32768,
        ;
        assert((13 + step) * size <= 24 * 32768 && (18 - step) * size <= 24 * 32768) by (nonlinear_arith)
            requires
                step < 6,
                size < 32768,
        ;
        let column = (18 + step) * size / 32;
        let upper = (13 + step) * size / 32;
        let lower = (18 - step) * size / 32;
        if x == column && (y == upper || y == lower) {
            return true;
        }
        step = step + 1;
    }
    false
}

fn inside(size: u64, x: u64, y: u64, left: u64, top: u64, right: u64, bottom: u64) -> (result: bool)
    requires
        size < 32768,
        x < size,
        y < size,
        left <= 32,
        top <= 32,
        right <= 32,
        bottom <= 32,
    ensures
        result == in_rect(size as int, x as int, y as int, left as int, top as int, right as int, bottom as int),
{
    assert(left * size <= 32 * 32768) by (nonlinear_arith)
        requires
            left <= 32,
            size < 32768,
    ;
    assert(right * size <= 32 * 32768) by (nonlinear_arith)
        requires
            right <= 32,
            size < 32768,
    ;
    assert(top * size <= 32 * 32768) by (nonlinear_arith)
        requires
            top <= 32,
            size < 32768,
    ;
    assert(bottom * size <= 32 * 32768) by (nonlinear_arith)
        requires
            bottom <= 32,
            size < 32768,
    ;
    32 * x >= left * size && 32 * x < right * size && 32 * y >= top * size && 32 * y < bottom * size
}

fn pixel_color(size: u64, x: u64, y: u64) -> (result: [u8; 4])
    requires
        0 < size < 32768,
        x < size,
        y < size,
    ensures
        result@ == icon_color(size as int, x as int, y as int),
{
    let color: [u8; 4] = if shaft_covers(size, x, y) || head_covers(size, x, y) {
        [255, 255, 255, 255]
    } else if inside(size, x, y, 5, 11, 27, 24) {
        [25, 135, 250, 255]
    } else if inside(size, x, y, 3, 8, 29, 26) || inside(size, x, y, 5, 5, 15, 11) {
        [13, 110, 253, 255]
    } else {
        [0, 0, 0, 0]
    };
    assert(color@ =~= icon_color(size as int, x as int, y as int));
    color
}

/// The RGBA pixels of the square tray icon of side `size`.
pub fn boreal_icon_rgba(size: u32) -> (pixels: Vec<u8>)
    requires
        size < 32768,
    ensures
        pixels@.len() == size * size * 4,
        forall|i: int| 0 <= i < pixels@.len() ==> #[trigger] pixels@[i] == icon_byte(size as int, i),
{
    let side = size as u64;
    assert(side * side <= 32768 * 32768) by (nonlinear_arith)
        requires
            side < 32768,
    ;
    let count: u64 = side * side;
    let mut pixels: Vec<u8> = Vec::new();
    let mut p: u64 = 0;
    while p < count
        invariant
            side == size,
            side < 32768,
            count == side * side,
            p <= count,
            pixels@.len() == 4 * p,
            forall|i: int| 0 <= i < pixels@.len() ==> #[trigger] pixels@[i] == icon_byte(side as int, i),
        decreases count - p,
    {
        assert(side > 0) by (nonlinear_arith)
            requires
                p < count,
                count == side * side,
        ;
        assert(p / side < side) by (nonlinear_arith)
            requires
                p < side * side,
                side > 0,
        ;
        let x = p % side;
        let y = p / side;
        let color = pixel_color(side, x, y);
        let ghost before = pixels@;
        pixels.push(color[0]);
        pixels.push(color[1]);
        pixels.push(color[2]);
        pixels.push(color[3]);
        assert forall|i: int| 0 <= i < pixels@.len() implies #[trigger] pixels@[i] == icon_byte(side as int, i) by {
            if i >= 4 * p {
                assert(i / 4 == p);
                assert(i % 4 == i - 4 * p);
            } else {
                assert(pixels@[i] == before[i]);
            }
        }
        p = p + 1;
    }
    assert(count * 4 == size * size * 4);
    pixels
}

} // verus!
