use vstd::prelude::*;
use crate::buffers::RgbImage;
use crate::raster::{RasterView, lemma_from_fn_ext, lemma_from_fn_sample, lemma_from_own_samples};

verus! {

/// Print resolution of the saved sheet, in dots per inch.
pub const DPI: u16 = 300;
/// A 3 x 4 cm photo at 300 DPI.
pub const PHOTO_WIDTH: u32 = 354;
pub const PHOTO_HEIGHT: u32 = 472;
/// A 15 x 10 cm sheet at 300 DPI.
pub const SHEET_WIDTH: u32 = 1772;
pub const SHEET_HEIGHT: u32 = 1181;

/// Each print size is the pixel count nearest to its length in centimetres at
/// the print resolution (an inch is 2.54 cm): photos of 3 x 4 cm on a sheet of
/// 15 x 10 cm. Three photos fit across the sheet and two down it.
pub proof fn lemma_print_sizes()
    ensures
        -127 <= PHOTO_WIDTH * 254 - 3 * 100 * DPI <= 127,
        -127 <= PHOTO_HEIGHT * 254 - 4 * 100 * DPI <= 127,
        -127 <= SHEET_WIDTH * 254 - 15 * 100 * DPI <= 127,
        -127 <= SHEET_HEIGHT * 254 - 10 * 100 * DPI <= 127,
        3 * PHOTO_WIDTH <= SHEET_WIDTH,
        2 * PHOTO_HEIGHT <= SHEET_HEIGHT,
{
}

/// The white space left of, between and right of the three columns (all equal).
pub open spec fn horizontal_gap(sheet_width: int, photo_width: int) -> int {
    (sheet_width - 3 * photo_width) / 4
}

/// The white space above, between and below the two rows (all equal).
pub open spec fn vertical_gap(sheet_height: int, photo_height: int) -> int {
    (sheet_height - 2 * photo_height) / 3
}

/// Left edge of column `column` (0, 1 or 2).
pub open spec fn slot_x(sheet_width: int, photo_width: int, column: int) -> int {
    horizontal_gap(sheet_width, photo_width) + column * (photo_width + horizontal_gap(sheet_width, photo_width))
}

/// Top edge of row `row` (0 or 1).
pub open spec fn slot_y(sheet_height: int, photo_height: int, row: int) -> int {
    vertical_gap(sheet_height, photo_height) + row * (photo_height + vertical_gap(sheet_height, photo_height))
}

/// The column whose copies cover sheet column `x`, or -1 in the white space.
pub open spec fn column_at(sheet_width: int, photo_width: int, x: int) -> int {
    if slot_x(sheet_width, photo_width, 0) <= x < slot_x(sheet_width, photo_width, 0) + photo_width {
        0
    } else if slot_x(sheet_width, photo_width, 1) <= x < slot_x(sheet_width, photo_width, 1) + photo_width {
        1
    } else if slot_x(sheet_width, photo_width, 2) <= x < slot_x(sheet_width, photo_width, 2) + photo_width {
        2
    } else {
        -1
    }
}

/// The row whose copies cover sheet row `y`, or -1 in the white space.
pub open spec fn row_at(sheet_height: int, photo_height: int, y: int) -> int {
    if slot_y(sheet_height, photo_height, 0) <= y < slot_y(sheet_height, photo_height, 0) + photo_height {
        0
    } else if slot_y(sheet_height, photo_height, 1) <= y < slot_y(sheet_height, photo_height, 1) + photo_height {
        1
    } else {
        -1
    }
}

/// The sheet after the first `placed` copies (in row-major order) went on a white sheet.
pub open spec fn sheet_pixels(
    portrait: RasterView,
    sheet_width: int,
    sheet_height: int,
    placed: int,
) -> spec_fn(int, int, int) -> u8 {
    |x: int, y: int, k: int|
        {
            let column = column_at(sheet_width, portrait.width as int, x);
            let row = row_at(sheet_height, portrait.height as int, y);
            if column >= 0 && row >= 0 && row * 3 + column < placed {
                portrait.sample(
                    x - slot_x(sheet_width, portrait.width as int, column),
                    y - slot_y(sheet_height, portrait.height as int, row),
                    k,
                )
            } else {
                255u8
            }
        }
}

/// The finished print sheet: six copies of the portrait on white.
pub open spec fn sheet_view(portrait: RasterView, sheet_width: nat, sheet_height: nat) -> RasterView {
    RasterView::from_fn(sheet_width, sheet_height, 3, sheet_pixels(portrait, sheet_width as int, sheet_height as int, 6))
}

/// The three columns lie inside the sheet, left to right, without overlap; a
/// sheet column belongs to column `c` exactly when it lies in that column's span.
pub proof fn lemma_columns(sheet_width: int, photo_width: int, c: int, x: int)
    requires
        0 <= photo_width,
        3 * photo_width <= sheet_width,
        0 <= c < 3,
    ensures
        0 <= slot_x(sheet_width, photo_width, c),
        slot_x(sheet_width, photo_width, c) + photo_width <= sheet_width,
        (slot_x(sheet_width, photo_width, c) <= x < slot_x(sheet_width, photo_width, c) + photo_width)
            <==> column_at(sheet_width, photo_width, x) == c,
        column_at(sheet_width, photo_width, x) < 3,
{
    let g = horizontal_gap(sheet_width, photo_width);
    assert(0 <= g && 3 * photo_width + 4 * g <= sheet_width);
    assert(slot_x(sheet_width, photo_width, 0) == g);
    assert(slot_x(sheet_width, photo_width, 1) == 2 * g + photo_width);
    assert(slot_x(sheet_width, photo_width, 2) == 3 * g + 2 * photo_width);
}

/// The two rows lie inside the sheet, one above the other, without overlap.
pub proof fn lemma_rows(sheet_height: int, photo_height: int, r: int, y: int)
    requires
        0 <= photo_height,
        2 * photo_height <= sheet_height,
        0 <= r < 2,
    ensures
        0 <= slot_y(sheet_height, photo_height, r),
        slot_y(sheet_height, photo_height, r) + photo_height <= sheet_height,
        (slot_y(sheet_height, photo_height, r) <= y < slot_y(sheet_height, photo_height, r) + photo_height)
            <==> row_at(sheet_height, photo_height, y) == r,
        row_at(sheet_height, photo_height, y) < 2,
{
    let g = vertical_gap(sheet_height, photo_height);
    assert(0 <= g && 2 * photo_height + 3 * g <= sheet_height);
    assert(slot_y(sheet_height, photo_height, 0) == g);
    assert(slot_y(sheet_height, photo_height, 1) == 2 * g + photo_height);
}

/// The print sheet holds six whole copies of the portrait, each inside the
/// sheet at its slot, and is white everywhere else.
pub proof fn lemma_sheet_has_six_copies(portrait: RasterView, sheet_width: nat, sheet_height: nat)
    requires
        portrait.channels == 3,
        3 * portrait.width <= sheet_width,
        2 * portrait.height <= sheet_height,
    ensures
        forall|column: int|
            0 <= column < 3 ==> 0 <= #[trigger] slot_x(sheet_width as int, portrait.width as int, column)
                && slot_x(sheet_width as int, portrait.width as int, column) + portrait.width <= sheet_width,
        forall|row: int|
            0 <= row < 2 ==> 0 <= #[trigger] slot_y(sheet_height as int, portrait.height as int, row)
                && slot_y(sheet_height as int, portrait.height as int, row) + portrait.height <= sheet_height,
        forall|row: int, column: int, px: int, py: int, k: int|
            #![trigger slot_x(sheet_width as int, portrait.width as int, column), slot_y(sheet_height as int, portrait.height as int, row), portrait.sample(px, py, k)]
            0 <= row < 2 && 0 <= column < 3 && portrait.contains(px, py) && 0 <= k < 3 ==> sheet_view(
                portrait,
                sheet_width,
                sheet_height,
            ).sample(
                slot_x(sheet_width as int, portrait.width as int, column) + px,
                slot_y(sheet_height as int, portrait.height as int, row) + py,
                k,
            ) == portrait.sample(px, py, k),
        forall|x: int, y: int, k: int|
            0 <= x < sheet_width && 0 <= y < sheet_height && 0 <= k < 3 && (column_at(
                sheet_width as int,
                portrait.width as int,
                x,
            ) < 0 || row_at(sheet_height as int, portrait.height as int, y) < 0) ==> #[trigger] sheet_view(
                portrait,
                sheet_width,
                sheet_height,
            ).sample(x, y, k) == 255,
{
    let f = sheet_pixels(portrait, sheet_width as int, sheet_height as int, 6);
    assert forall|column: int|
        0 <= column < 3 implies 0 <= #[trigger] slot_x(sheet_width as int, portrait.width as int, column)
            && slot_x(sheet_width as int, portrait.width as int, column) + portrait.width <= sheet_width by {
        lemma_columns(sheet_width as int, portrait.width as int, column, 0);
    }
    assert forall|row: int|
        0 <= row < 2 implies 0 <= #[trigger] slot_y(sheet_height as int, portrait.height as int, row)
            && slot_y(sheet_height as int, portrait.height as int, row) + portrait.height <= sheet_height by {
        lemma_rows(sheet_height as int, portrait.height as int, row, 0);
    }
    assert forall|row: int, column: int, px: int, py: int, k: int|
        #![trigger slot_x(sheet_width as int, portrait.width as int, column), slot_y(sheet_height as int, portrait.height as int, row), portrait.sample(px, py, k)]
        0 <= row < 2 && 0 <= column < 3 && portrait.contains(px, py) && 0 <= k < 3 implies sheet_view(
            portrait,
            sheet_width,
            sheet_height,
        ).sample(
            slot_x(sheet_width as int, portrait.width as int, column) + px,
            slot_y(sheet_height as int, portrait.height as int, row) + py,
            k,
        ) == portrait.sample(px, py, k) by {
        let x = slot_x(sheet_width as int, portrait.width as int, column) + px;
        let y = slot_y(sheet_height as int, portrait.height as int, row) + py;
        lemma_columns(sheet_width as int, portrait.width as int, column, x);
        lemma_rows(sheet_height as int, portrait.height as int, row, y);
        lemma_from_fn_sample(sheet_width, sheet_height, 3, f, x, y, k);
    }
    assert forall|x: int, y: int, k: int|
        0 <= x < sheet_width && 0 <= y < sheet_height && 0 <= k < 3 && (column_at(sheet_width as int, portrait.width as int, x) < 0
            || row_at(sheet_height as int, portrait.height as int, y) < 0) implies #[trigger] sheet_view(
        portrait,
        sheet_width,
        sheet_height,
    ).sample(x, y, k) == 255 by {
        lemma_from_fn_sample(sheet_width, sheet_height, 3, f, x, y, k);
    }
}

/// Lays six copies of the portrait, three across and two down, on a white sheet,
/// with equal white gaps between the copies and around them.
pub fn compose_sheet(portrait: &RgbImage, sheet_width: u32, sheet_height: u32) -> (sheet: RgbImage)
    requires
        3 * portrait@.width <= sheet_width,
        2 * portrait@.height <= sheet_height,
        sheet_width * sheet_height * 3 <= usize::MAX,
    ensures
        sheet@ == sheet_view(portrait@, sheet_width as nat, sheet_height as nat),
        sheet@.width == sheet_width,
        sheet@.height == sheet_height,
        sheet@.channels == 3,
        sheet@.wf(),
{
    let (photo_width, photo_height) = portrait.dimensions();
    let ghost p = portrait@;
    let ghost sw = sheet_width as int;
    let ghost sh = sheet_height as int;
    let mut sheet = RgbImage::from_pixel(sheet_width, sheet_height, [255, 255, 255]);
    proof {
        lemma_from_own_samples(sheet@);
        let own = |x: int, y: int, k: int| sheet@.sample(x, y, k);
        assert forall|x: int, y: int, k: int| 0 <= x < sw && 0 <= y < sh && 0 <= k < 3 implies #[trigger] own(x, y, k)
            == sheet_pixels(p, sw, sh, 0)(x, y, k) by {
            assert(sheet@.contains(x, y));
        }
        lemma_from_fn_ext(sheet_width as nat, sheet_height as nat, 3, own, sheet_pixels(p, sw, sh, 0));
    }
    let horizontal: u32 = (sheet_width - 3 * photo_width) / 4;
    let vertical: u32 = (sheet_height - 2 * photo_height) / 3;
    let mut row: u32 = 0;
    while row < 2
        invariant
            p == portrait@,
            sw == sheet_width,
            sh == sheet_height,
            photo_width == p.width,
            photo_height == p.height,
            3 * p.width <= sheet_width,
            2 * p.height <= sheet_height,
            horizontal == horizontal_gap(sw, p.width as int),
            vertical == vertical_gap(sh, p.height as int),
            row <= 2,
            sheet@ == RasterView::from_fn(sheet_width as nat, sheet_height as nat, 3, sheet_pixels(p, sw, sh, row * 3)),
        decreases 2 - row,
    {
        let mut column: u32 = 0;
        while column < 3
            invariant
                p == portrait@,
                sw == sheet_width,
                sh == sheet_height,
                photo_width == p.width,
                photo_height == p.height,
                3 * p.width <= sheet_width,
                2 * p.height <= sheet_height,
                horizontal == horizontal_gap(sw, p.width as int),
                vertical == vertical_gap(sh, p.height as int),
                row < 2,
                column <= 3,
                sheet@ == RasterView::from_fn(
                    sheet_width as nat,
                    sheet_height as nat,
                    3,
                    sheet_pixels(p, sw, sh, row * 3 + column),
                ),
            decreases 3 - column,
        {
            proof {
                lemma_columns(sw, p.width as int, column as int, 0);
                lemma_rows(sh, p.height as int, row as int, 0);
            }
            let x: u32 = horizontal + column * (photo_width + horizontal);
            let y: u32 = vertical + row * (photo_height + vertical);
            let ghost before = sheet@;
            sheet.replace(portrait, x as i64, y as i64);
            proof {
                let n = row * 3 + column;
                let f = sheet_pixels(p, sw, sh, n);
                let g = sheet_pixels(p, sw, sh, n + 1);
                let h = |bx: int, by: int, k: int|
                    if p.contains(bx - x, by - y) {
                        p.sample(bx - x, by - y, k)
                    } else {
                        before.sample(bx, by, k)
                    };
                assert(sheet@ == RasterView::from_fn(sheet_width as nat, sheet_height as nat, 3, h));
                assert forall|bx: int, by: int, k: int| 0 <= bx < sw && 0 <= by < sh && 0 <= k < 3 implies #[trigger] h(bx, by, k)
                    == g(bx, by, k) by {
                    lemma_from_fn_sample(sheet_width as nat, sheet_height as nat, 3, f, bx, by, k);
                    lemma_columns(sw, p.width as int, column as int, bx);
                    lemma_rows(sh, p.height as int, row as int, by);
                }
                lemma_from_fn_ext(sheet_width as nat, sheet_height as nat, 3, h, g);
            }
            column = column + 1;
        }
        row = row + 1;
    }
    sheet
}

} // verus!
