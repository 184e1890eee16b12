//! What holds of every rendering.

use crate::bitmap::ImageView;
use crate::bits::bit_at;
use crate::geometry::{cell_count, lemma_cell_count_bounds};
use crate::glyphs::{blocks_glyphs, braille_glyphs, GlyphSetView, TemplateView, BRAILLE_BASE};
use crate::mask::{
    cell_at, cell_mask, lemma_blank_cell, lemma_dot_decides_bit, lemma_full_cell,
    lemma_mask_bound, lemma_single_dot_cell,
};
use crate::render::{cells_high, cells_wide, glyph_at, render_grid, render_text};
use crate::text::{lemma_split_join, line_break, lines_of, split_at_breaks, unbroken};
use vstd::arithmetic::div_mod::{lemma_fundamental_div_mod, lemma_fundamental_div_mod_converse};
use vstd::prelude::*;

verus! {

/// No glyph of the alphabet is a line break.
pub open spec fn glyphs_unbroken(g: GlyphSetView) -> bool {
    forall|i: int| 0 <= i < g.alphabet.len() ==> #[trigger] g.alphabet[i] != line_break()
}

/// Neither built-in alphabet holds a line break.
pub proof fn lemma_presets_unbroken()
    ensures
        glyphs_unbroken(blocks_glyphs()),
        glyphs_unbroken(braille_glyphs()),
{
    let blocks = blocks_glyphs().alphabet;
    assert forall|i: int| 0 <= i < blocks.len() implies #[trigger] blocks[i] != line_break() by {
        assert(blocks.len() == 16);
        assert(blocks[i] == ' ' || blocks[i] as u32 >= 0x2580);
    }
    let braille = braille_glyphs().alphabet;
    assert forall|i: int| 0 <= i < braille.len() implies #[trigger] braille[i] != line_break() by {
        assert(braille[i] as u32 == BRAILLE_BASE + i);
    }
}

/// The grid has one row for every cell that it takes to cover the height
/// of the image, and every row has one glyph for every cell that it takes
/// to cover the width.
pub proof fn lemma_grid_shape(img: ImageView, g: GlyphSetView)
    ensures
        render_grid(img, g).len() == cell_count(img.height as int, g.template.cell_height as int)
            as nat,
        forall|cy: int|
            0 <= cy < render_grid(img, g).len() ==> (#[trigger] render_grid(img, g)[cy]).len()
                == cell_count(img.width as int, g.template.cell_width as int) as nat,
        forall|cx: int, cy: int|
            0 <= cy < cells_high(img, g.template) && 0 <= cx < cells_wide(img, g.template)
                ==> #[trigger] render_grid(img, g)[cy][cx] == glyph_at(img, g, cx, cy),
{
}

/// The lines of the rendered text are the rows of the grid: with glyphs
/// that are no line breaks, the text has as many lines as it takes cells to
/// cover the height of the image, and every line has as many characters as
/// it takes cells to cover the width. An image with rows of no dots is left
/// out: its text is empty whatever its height.
pub proof fn lemma_text_lines(img: ImageView, g: GlyphSetView)
    requires
        g.wf(),
        glyphs_unbroken(g),
        img.width > 0 || img.height == 0,
    ensures
        lines_of(render_text(img, g)) == render_grid(img, g),
        lines_of(render_text(img, g)).len() == cell_count(
            img.height as int,
            g.template.cell_height as int,
        ),
        forall|cy: int|
            0 <= cy < lines_of(render_text(img, g)).len() ==> (#[trigger] lines_of(
                render_text(img, g),
            )[cy]).len() == cell_count(img.width as int, g.template.cell_width as int),
{
    let grid = render_grid(img, g);
    let text = render_text(img, g);
    lemma_cell_count_bounds(img.width as int, g.template.cell_width as int);
    lemma_cell_count_bounds(img.height as int, g.template.cell_height as int);
    if img.height == 0 {
        assert(lines_of(text) =~= grid);
    } else {
        assert forall|cy: int| 0 <= cy < grid.len() implies unbroken(#[trigger] grid[cy]) by {
            let row = grid[cy];
            assert forall|cx: int| 0 <= cx < row.len() implies row[cx] != line_break() by {
                lemma_mask_bound(cell_at(img, g.template, cx, cy));
                assert(row[cx] == g.alphabet[cell_mask(img, g.template, cx, cy) as int]);
            }
        }
        lemma_split_join(grid);
        if text.len() == 0 {
            assert(split_at_breaks(text)[0].len() == 0);
            assert(grid[0].len() > 0);
        }
    }
}

/// An image without a dot that is on renders to a grid in which every glyph
/// is the first glyph of the alphabet.
pub proof fn lemma_blank_image(img: ImageView, g: GlyphSetView)
    requires
        g.wf(),
        forall|x: int, y: int| !img.dot(x, y),
    ensures
        forall|cx: int, cy: int|
            0 <= cy < cells_high(img, g.template) && 0 <= cx < cells_wide(img, g.template)
                ==> #[trigger] render_grid(img, g)[cy][cx] == g.alphabet[0],
{
    assert forall|cx: int, cy: int|
        0 <= cy < cells_high(img, g.template) && 0 <= cx < cells_wide(
            img,
            g.template,
        ) implies #[trigger] render_grid(img, g)[cy][cx] == g.alphabet[0] by {
        let cell = cell_at(img, g.template, cx, cy);
        assert(cell.is_blank());
        lemma_blank_cell(cell);
    }
}

/// Every dot of the image is on.
pub open spec fn all_on(img: ImageView) -> bool {
    forall|x: int, y: int| 0 <= x < img.width && 0 <= y < img.height ==> img.dot(x, y)
}

/// An image in which every dot is on, and whose width and height are
/// multiples of the cell's, renders to a grid in which every glyph is the
/// last glyph of the alphabet. Without the multiples the cells at the right
/// and lower edge have dots outside the image, which are off.
pub proof fn lemma_full_image(img: ImageView, g: GlyphSetView)
    requires
        g.wf(),
        all_on(img),
        img.width % g.template.cell_width == 0,
        img.height % g.template.cell_height == 0,
    ensures
        forall|cx: int, cy: int|
            0 <= cy < cells_high(img, g.template) && 0 <= cx < cells_wide(img, g.template)
                ==> #[trigger] render_grid(img, g)[cy][cx] == g.last_glyph(),
{
    assert forall|cx: int, cy: int|
        0 <= cy < cells_high(img, g.template) && 0 <= cx < cells_wide(
            img,
            g.template,
        ) implies #[trigger] render_grid(img, g)[cy][cx] == g.last_glyph() by {
        lemma_full_image_cell(img, g, cx, cy);
    }
}

/// In an image in which every dot is on, every cell that lies within the
/// image has the greatest bitmask.
proof fn lemma_full_image_cell(img: ImageView, g: GlyphSetView, cx: int, cy: int)
    requires
        g.wf(),
        all_on(img),
        img.width % g.template.cell_width == 0,
        img.height % g.template.cell_height == 0,
        0 <= cx < cells_wide(img, g.template),
        0 <= cy < cells_high(img, g.template),
    ensures
        cell_mask(img, g.template, cx, cy) == g.alphabet.len() - 1,
{
    let t = g.template;
    let w = t.cell_width as int;
    let h = t.cell_height as int;
    let cell = cell_at(img, t, cx, cy);
    lemma_cell_count_bounds(img.width as int, w);
    lemma_cell_count_bounds(img.height as int, h);
    assert forall|dx: int, dy: int| 0 <= dx < w && 0 <= dy < h implies #[trigger] cell.dot(
        dx,
        dy,
    ) by {
        assert(0 <= cx * w && cx * w + dx < cells_wide(img, t) * w) by (nonlinear_arith)
            requires
                0 <= cx < cells_wide(img, t),
                0 <= dx < w,
        ;
        assert(0 <= cy * h && cy * h + dy < cells_high(img, t) * h) by (nonlinear_arith)
            requires
                0 <= cy < cells_high(img, t),
                0 <= dy < h,
        ;
        assert(img.dot(cx * w + dx, cy * h + dy));
    }
    assert(cell.is_full());
    lemma_full_cell(cell);
}

/// Every dot of the image decides one bit of the bitmask of its cell, and
/// no other: the dot `(x, y)` lies in the cell `(x / w, y / h)` for cells of
/// `w` by `h` dots, and the bit that its place in the cell owns is set
/// exactly when the dot is on.
pub proof fn lemma_dot_contributes(img: ImageView, g: GlyphSetView, x: int, y: int)
    requires
        g.wf(),
        0 <= x < img.width,
        0 <= y < img.height,
    ensures
        0 <= x / (g.template.cell_width as int) < cells_wide(img, g.template),
        0 <= y / (g.template.cell_height as int) < cells_high(img, g.template),
        bit_at(
            cell_mask(
                img,
                g.template,
                x / (g.template.cell_width as int),
                y / (g.template.cell_height as int),
            ),
            g.template.bit_of(
                x % (g.template.cell_width as int),
                y % (g.template.cell_height as int),
            ) as u64,
        ) <==> img.dot(x, y),
{
    let t = g.template;
    let w = t.cell_width as int;
    let h = t.cell_height as int;
    lemma_place_in_grid(x, img.width as int, w);
    lemma_place_in_grid(y, img.height as int, h);
    lemma_dot_decides_bit(cell_at(img, t, x / w, y / h), x % w, y % h);
}

/// The dot at `x` of `n` dots lies in the cell `x / m` of the cells of `m`
/// dots that cover them, at the place `x % m` of that cell.
proof fn lemma_place_in_grid(x: int, n: int, m: int)
    requires
        0 <= x < n,
        0 < m,
    ensures
        0 <= x / m < cell_count(n, m),
        0 <= x % m < m,
        (x / m) * m + x % m == x,
{
    lemma_fundamental_div_mod(x, m);
    lemma_cell_count_bounds(n, m);
    let q = x / m;
    let c = cell_count(n, m);
    assert(0 <= q < c && q * m == m * q) by (nonlinear_arith)
        requires
            x == m * q + x % m,
            0 <= x % m < m,
            0 <= x < n,
            n <= c * m,
            0 < m,
    ;
}

/// A place `cx * m + dx` with `dx` below `m` lies in cell `cx`.
proof fn lemma_place_of_cell(cx: int, dx: int, m: int)
    requires
        0 <= dx < m,
    ensures
        (cx * m + dx) / m == cx,
        (cx * m + dx) % m == dx,
{
    assert(cx * m == m * cx) by (nonlinear_arith);
    lemma_fundamental_div_mod_converse(cx * m + dx, m, cx, dx);
}

/// The bitmask in which exactly the bit owned by the dot `(px, py)` of the
/// image is set.
pub open spec fn single_bit(t: TemplateView, px: int, py: int) -> u64 {
    1u64 << (t.bit_of(px % (t.cell_width as int), py % (t.cell_height as int)) as u64)
}

/// An image in which exactly the dot `(px, py)` is on renders like the
/// image without any dot on, but for the cell that holds the dot: its glyph
/// is the one for the bitmask in which exactly the bit of that dot is set.
pub proof fn lemma_single_dot_image(img: ImageView, g: GlyphSetView, px: int, py: int)
    requires
        g.wf(),
        0 <= px < img.width,
        0 <= py < img.height,
        forall|x: int, y: int| img.dot(x, y) <==> x == px && y == py,
    ensures
        0 <= px / (g.template.cell_width as int) < cells_wide(img, g.template),
        0 <= py / (g.template.cell_height as int) < cells_high(img, g.template),
        single_bit(g.template, px, py) < g.alphabet.len(),
        forall|cx: int, cy: int|
            0 <= cy < cells_high(img, g.template) && 0 <= cx < cells_wide(img, g.template)
                ==> #[trigger] render_grid(img, g)[cy][cx] == if cx == px / (
            g.template.cell_width as int) && cy == py / (g.template.cell_height as int) {
                g.alphabet[single_bit(g.template, px, py) as int]
            } else {
                g.alphabet[0]
            },
{
    let t = g.template;
    let w = t.cell_width as int;
    let h = t.cell_height as int;
    lemma_place_in_grid(px, img.width as int, w);
    lemma_place_in_grid(py, img.height as int, h);
    lemma_single_dot_cell_in_image(img, g, px, py, px / w, py / h);
    lemma_mask_bound(cell_at(img, t, px / w, py / h));
    assert forall|cx: int, cy: int|
        0 <= cy < cells_high(img, t) && 0 <= cx < cells_wide(
            img,
            t,
        ) implies #[trigger] render_grid(img, g)[cy][cx] == if cx == px / w && cy == py / h {
        g.alphabet[single_bit(t, px, py) as int]
    } else {
        g.alphabet[0]
    } by {
        lemma_single_dot_cell_in_image(img, g, px, py, cx, cy);
    }
}

/// In an image in which exactly the dot `(px, py)` is on, the cell that
/// holds the dot has the bitmask of its bit, and every other cell has the
/// bitmask zero.
proof fn lemma_single_dot_cell_in_image(
    img: ImageView,
    g: GlyphSetView,
    px: int,
    py: int,
    cx: int,
    cy: int,
)
    requires
        g.wf(),
        0 <= px < img.width,
        0 <= py < img.height,
        forall|x: int, y: int| img.dot(x, y) <==> x == px && y == py,
    ensures
        cell_mask(img, g.template, cx, cy) == if cx == px / (g.template.cell_width as int) && cy
            == py / (g.template.cell_height as int) {
            single_bit(g.template, px, py)
        } else {
            0
        },
{
    let t = g.template;
    let w = t.cell_width as int;
    let h = t.cell_height as int;
    let cell = cell_at(img, t, cx, cy);
    lemma_place_in_grid(px, img.width as int, w);
    lemma_place_in_grid(py, img.height as int, h);
    if cx == px / w && cy == py / h {
        assert forall|ex: int, ey: int| 0 <= ex < w && 0 <= ey < h implies (#[trigger] cell.dot(
            ex,
            ey,
        ) <==> ex == px % w && ey == py % h) by {
            assert(cell.dot(ex, ey) == img.dot(cx * w + ex, cy * h + ey));
        }
        assert(cell.has_only(px % w, py % h));
        lemma_single_dot_cell(cell, px % w, py % h);
    } else {
        assert forall|ex: int, ey: int| 0 <= ex < w && 0 <= ey < h implies !#[trigger] cell.dot(
            ex,
            ey,
        ) by {
            lemma_place_of_cell(cx, ex, w);
            lemma_place_of_cell(cy, ey, h);
        }
        assert(cell.is_blank());
        lemma_blank_cell(cell);
    }
}

/// A dot of a cell that lies outside the image counts as off: the bit that
/// it owns is clear in the cell's bitmask.
pub proof fn lemma_outside_dot_is_off(
    img: ImageView,
    t: TemplateView,
    cx: int,
    cy: int,
    dx: int,
    dy: int,
)
    requires
        t.wf(),
        t.area() <= 64,
        0 <= dx < t.cell_width,
        0 <= dy < t.cell_height,
        cx * t.cell_width + dx >= img.width || cy * t.cell_height + dy >= img.height,
    ensures
        !bit_at(cell_mask(img, t, cx, cy), t.bit_of(dx, dy) as u64),
{
    lemma_dot_decides_bit(cell_at(img, t, cx, cy), dx, dy);
}

/// The rendered text is a function of what the image and the glyph set
/// hold: two renderings of equal images with equal glyph sets are equal.
pub proof fn lemma_render_deterministic(
    first_img: ImageView,
    first_g: GlyphSetView,
    first: Seq<char>,
    second_img: ImageView,
    second_g: GlyphSetView,
    second: Seq<char>,
)
    requires
        first == render_text(first_img, first_g),
        second == render_text(second_img, second_g),
        first_img == second_img,
        first_g == second_g,
    ensures
        first == second,
{
}

} // verus!
