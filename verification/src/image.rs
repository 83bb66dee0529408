//! Spectrogram images: one column for each spectrum, one row for each
//! frequency bin, every pixel colored by the level of its bin.
//!
//! Levels come scaled: the integer part of `level / top *
//! COLORGRAD_LOOKUP_SIZE`, where `top` is the level drawn with the last
//! color. The images are egui's, so that they can be handed to it as they
//! are.
use crate::colors::Color;
use crate::colors::ColorLookupTable;
use vstd::prelude::*;

verus! {

/// The largest number of pixels of an image: as many as fit in memory at
/// four bytes each.
pub const MAX_PIXELS: usize = isize::MAX as usize / 4;

/// egui's image of colors in memory. Verus sees nothing inside it; what it
/// holds is told by `image_size` and `image_pixels`.
#[verifier::external_type_specification]
#[verifier::external_body]
pub struct ExColorImage(egui::ColorImage);

/// The width and the height of an image, in pixels.
pub uninterp spec fn image_size(image: egui::ColorImage) -> (usize, usize);

/// The pixels of an image, row by row from the top, each row from the left.
pub uninterp spec fn image_pixels(image: egui::ColorImage) -> Seq<Color>;

/// `ColorImage::new` of egui, with `Color32::TRANSPARENT` as the color: an
/// image of the given size in which every pixel is transparent. It makes a
/// vector of `width * height` pixels of four bytes each, which std refuses
/// with a panic beyond `isize::MAX` bytes.
#[verifier::external_body]
fn blank_image(width: usize, height: usize) -> (image: egui::ColorImage)
    requires
        width * height <= MAX_PIXELS,
    ensures
        image_size(image) == (width, height),
        image_pixels(image) == Seq::new((width * height) as nat, |i: int| Color::clear()),
{
    egui::ColorImage::new([width, height], egui::Color32::TRANSPARENT)
}

/// Assignment through `IndexMut<(usize, usize)>` of egui's `ColorImage`:
/// replaces the pixel in column `x` of row `y`, which is the pixel at
/// `y * width + x`, and nothing else. The color is handed over channel by
/// channel, as it is.
#[verifier::external_body]
fn set_pixel(image: &mut egui::ColorImage, x: usize, y: usize, color: Color)
    requires
        x < image_size(*old(image)).0,
        y < image_size(*old(image)).1,
        y * image_size(*old(image)).0 + x < image_pixels(*old(image)).len(),
    ensures
        image_size(*final(image)) == image_size(*old(image)),
        image_pixels(*final(image)) == image_pixels(*old(image)).update(
            y * image_size(*old(image)).0 + x,
            color,
        ),
{
    image[(x, y)] = egui::Color32::from_rgba_premultiplied(color.r, color.g, color.b, color.a);
}

/// Whether columns of levels can be drawn `height` pixels high: none is
/// longer than that, and the pixels are not too many.
pub open spec fn renderable(columns: Seq<Vec<i64>>, height: usize) -> bool {
    &&& columns.len() * height <= MAX_PIXELS
    &&& forall|x: int| 0 <= x < columns.len() ==> (#[trigger] columns[x])@.len() <= height
}

/// The color of the pixel in column `x` of row `y`: that of the level in
/// row `y` of the column, and transparent below the column's end.
pub open spec fn pixel_of(columns: Seq<Vec<i64>>, table: ColorLookupTable, x: int, y: int) -> Color {
    if y < columns[x]@.len() {
        table.color_of(columns[x]@[y] as int)
    } else {
        Color::clear()
    }
}

/// Whether `image` is the drawing of `columns` with `table`, `height`
/// pixels high.
pub open spec fn rendering(
    image: egui::ColorImage,
    columns: Seq<Vec<i64>>,
    height: usize,
    table: ColorLookupTable,
) -> bool {
    &&& image_size(image) == (columns.len() as usize, height)
    &&& image_pixels(image).len() == columns.len() * height
    &&& forall|x: int, y: int|
        0 <= x < columns.len() && 0 <= y < height ==> #[trigger] image_pixels(image)[y
            * columns.len() + x] == pixel_of(columns, table, x, y)
}

/// The place of a pixel is within the pixels.
proof fn lemma_pixel_index(width: int, height: int, x: int, y: int)
    requires
        0 <= x < width,
        0 <= y < height,
    ensures
        0 <= y * width + x < width * height,
        (y * width + x) / width == y,
        (y * width + x) % width == x,
{
    assert(0 <= y * width + x < width * height) by (nonlinear_arith)
        requires
            0 <= x < width,
            0 <= y < height,
    ;
    vstd::arithmetic::div_mod::lemma_fundamental_div_mod_converse(y * width + x, width, y, x);
}

/// Two pixels at one place are one pixel.
proof fn lemma_pixel_place(width: int, x1: int, y1: int, x2: int, y2: int)
    requires
        0 <= x1 < width,
        0 <= x2 < width,
        0 <= y1,
        0 <= y2,
        y1 * width + x1 == y2 * width + x2,
    ensures
        x1 == x2,
        y1 == y2,
{
    vstd::arithmetic::div_mod::lemma_fundamental_div_mod_converse(y1 * width + x1, width, y1, x1);
    vstd::arithmetic::div_mod::lemma_fundamental_div_mod_converse(y2 * width + x2, width, y2, x2);
}

/// Draws `columns` with `table` as an image `height` pixels high and as
/// wide as there are columns. Levels outside the table's range get its first
/// or last color; what lies below the end of a short column stays
/// transparent. `None` where a column is longer than `height` or there are
/// more than `MAX_PIXELS` pixels.
pub fn render_columns(columns: &Vec<Vec<i64>>, height: usize, table: &ColorLookupTable) -> (image:
    Option<egui::ColorImage>)
    ensures
        image is Some <==> renderable(columns@, height),
        image matches Some(drawn) ==> rendering(drawn, columns@, height, *table),
{
    let width = columns.len();
    match width.checked_mul(height) {
        Some(pixels) => {
            if pixels > MAX_PIXELS {
                return None;
            }
        },
        None => {
            return None;
        },
    }
    let mut x: usize = 0;
    while x < width
        invariant
            width == columns@.len(),
            x <= width,
            forall|k: int| 0 <= k < x ==> (#[trigger] columns@[k])@.len() <= height,
        decreases width - x,
    {
        if columns[x].len() > height {
            return None;
        }
        x += 1;
    }
    let mut image = blank_image(width, height);
    proof {
        assert forall|c: int, r: int| 0 <= c < width && 0 <= r < height implies (
        #[trigger] image_pixels(image)[r * width + c]) == Color::clear() by {
            lemma_pixel_index(width as int, height as int, c, r);
        }
    }
    let mut x: usize = 0;
    while x < width
        invariant
            width == columns@.len(),
            width * height <= MAX_PIXELS,
            x <= width,
            renderable(columns@, height),
            image_size(image) == (width, height),
            image_pixels(image).len() == width * height,
            forall|c: int, r: int|
                0 <= c < width && 0 <= r < height ==> #[trigger] image_pixels(image)[r * width + c]
                    == if c < x {
                    pixel_of(columns@, *table, c, r)
                } else {
                    Color::clear()
                },
        decreases width - x,
    {
        let column = &columns[x];
        let mut y: usize = 0;
        while y < column.len()
            invariant
                width == columns@.len(),
                width * height <= MAX_PIXELS,
                x < width,
                y <= column@.len() <= height,
                *column == columns@[x as int],
                image_size(image) == (width, height),
                image_pixels(image).len() == width * height,
                forall|c: int, r: int|
                    0 <= c < width && 0 <= r < height ==> #[trigger] image_pixels(image)[r * width
                        + c] == if c < x || (c == x && r < y) {
                        pixel_of(columns@, *table, c, r)
                    } else {
                        Color::clear()
                    },
            decreases column@.len() - y,
        {
            let color = table.color_at(column[y]);
            let ghost before = image_pixels(image);
            proof {
                lemma_pixel_index(width as int, height as int, x as int, y as int);
            }
            set_pixel(&mut image, x, y, color);
            proof {
                assert forall|c: int, r: int| 0 <= c < width && 0 <= r < height implies (
                #[trigger] image_pixels(image)[r * width + c]) == if c < x || (c == x && r < y
                    + 1) {
                    pixel_of(columns@, *table, c, r)
                } else {
                    Color::clear()
                } by {
                    lemma_pixel_index(width as int, height as int, c, r);
                    if r * width + c == y * width + x {
                        lemma_pixel_place(width as int, c, r, x as int, y as int);
                    } else {
                        assert(image_pixels(image)[r * width + c] == before[r * width + c]);
                    }
                }
            }
            y += 1;
        }
        x += 1;
    }
    Some(image)
}

/// Draws a run of spectra as an image as high as the first of them is long.
/// `None` for an empty run, and where `render_columns` gives none.
pub fn create_image(columns: &Vec<Vec<i64>>, table: &ColorLookupTable) -> (image: Option<
    egui::ColorImage,
>)
    ensures
        image is Some <==> columns@.len() > 0 && renderable(
            columns@,
            columns@[0]@.len() as usize,
        ),
        image matches Some(drawn) ==> rendering(
            drawn,
            columns@,
            columns@[0]@.len() as usize,
            *table,
        ),
{
    if columns.len() == 0 {
        None
    } else {
        render_columns(columns, columns[0].len(), table)
    }
}

/// Drawing the same columns with the same table again gives the same image,
/// pixel for pixel.
pub proof fn law_rendering_is_repeatable(
    first: egui::ColorImage,
    second: egui::ColorImage,
    columns: Seq<Vec<i64>>,
    height: usize,
    table: ColorLookupTable,
)
    requires
        rendering(first, columns, height, table),
        rendering(second, columns, height, table),
    ensures
        image_size(first) == image_size(second),
        image_pixels(first) == image_pixels(second),
{
    let width = columns.len() as int;
    assert forall|i: int| 0 <= i < image_pixels(first).len() implies image_pixels(first)[i]
        == image_pixels(second)[i] by {
        assert(width > 0) by (nonlinear_arith)
            requires
                0 <= i < width * height,
                width >= 0,
        ;
        let x = i % width;
        let y = i / width;
        vstd::arithmetic::div_mod::lemma_fundamental_div_mod(i, width);
        assert(0 <= x < width) by {
            vstd::arithmetic::div_mod::lemma_mod_bound(i, width);
        }
        assert(0 <= y < height) by (nonlinear_arith)
            requires
                i == width * y + x,
                0 <= x < width,
                0 <= i < width * height,
        ;
        assert(y * width + x == i) by (nonlinear_arith)
            requires
                i == width * y + x,
        ;
        assert(image_pixels(first)[y * width + x] == pixel_of(columns, table, x, y));
        assert(image_pixels(second)[y * width + x] == pixel_of(columns, table, x, y));
    }
    assert(image_pixels(first) =~= image_pixels(second));
}

} // verus!
