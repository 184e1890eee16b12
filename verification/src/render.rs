//! The renderer: from an image and a glyph set to the text of the grid.

use crate::bitmap::{BinaryImage, ImageView};
use crate::geometry::{ceil_multiple, cell_count, lemma_cell_count_bounds};
use crate::glyphs::{
    blocks_glyphs, braille_glyphs, CellTemplate, ConfigurationMismatch, GlyphSet, GlyphSetView,
    TemplateView,
};
use crate::mask::{cell_index, cell_mask};
use crate::text::{end_lines, join_lines, lemma_end_lines, line_break};
use vstd::arithmetic::power2::pow2;
use vstd::prelude::*;

verus! {

/// Number of cells in a row of the grid: as many as it takes to cover the
/// width of the image.
pub open spec fn cells_wide(img: ImageView, t: TemplateView) -> nat {
    cell_count(img.width as int, t.cell_width as int) as nat
}

/// Number of rows of the grid: as many as it takes to cover the height of
/// the image.
pub open spec fn cells_high(img: ImageView, t: TemplateView) -> nat {
    cell_count(img.height as int, t.cell_height as int) as nat
}

/// The glyph of the cell in column `cx` and row `cy` of the grid: the one
/// that the alphabet holds at the cell's bitmask.
pub open spec fn glyph_at(img: ImageView, g: GlyphSetView, cx: int, cy: int) -> char {
    g.alphabet[cell_mask(img, g.template, cx, cy) as int]
}

/// Row `cy` of the grid: the glyphs of its cells from left to right.
pub open spec fn render_row(img: ImageView, g: GlyphSetView, cy: int) -> Seq<char> {
    Seq::new(cells_wide(img, g.template), |cx: int| glyph_at(img, g, cx, cy))
}

/// The grid: its rows from top to bottom.
pub open spec fn render_grid(img: ImageView, g: GlyphSetView) -> Seq<Seq<char>> {
    Seq::new(cells_high(img, g.template), |cy: int| render_row(img, g, cy))
}

/// The text of the grid: its rows joined by line breaks, with no line break
/// at the end. An image without dots has the empty text.
pub open spec fn render_text(img: ImageView, g: GlyphSetView) -> Seq<char> {
    if img.width == 0 || img.height == 0 {
        Seq::empty()
    } else {
        join_lines(render_grid(img, g))
    }
}

/// Renders the image with the glyph set: one glyph for every cell, the
/// cells of a row from left to right, the rows from top to bottom and
/// separated by line breaks.
pub fn generate(img: &BinaryImage, glyphs: &GlyphSet) -> (res: String)
    ensures
        res@ == render_text(img@, glyphs@),
{
    let template = glyphs.template();
    let img_w = img.width() as u64;
    let img_h = img.height() as u64;
    let template_w = template.cell_width() as u64;
    let template_h = template.cell_height() as u64;

    let chars_w = ceil_multiple(img_w, template_w) / template_w;
    let chars_h = ceil_multiple(img_h, template_h) / template_h;

    let ghost grid = render_grid(img@, glyphs@);
    proof {
        lemma_cell_count_bounds(img_w as int, template_w as int);
        lemma_cell_count_bounds(img_h as int, template_h as int);
        assert(chars_w <= img_w && chars_h <= img_h) by (nonlinear_arith)
            requires
                (chars_w - 1) * template_w < img_w,
                (chars_h - 1) * template_h < img_h,
                template_w >= 1,
                template_h >= 1,
        ;
    }

    let mut res = String::new();
    if chars_w == 0 || chars_h == 0 {
        return res;
    }
    assert(grid.take(0) =~= Seq::empty());

    for y in 0..chars_h
        invariant
            grid == render_grid(img@, glyphs@),
            grid.len() == chars_h,
            chars_w == cells_wide(img@, glyphs@.template),
            chars_w <= u32::MAX,
            chars_h <= u32::MAX,
            res@ == end_lines(grid.take(y as int)),
    {
        let ghost above = res@;
        let ghost row = render_row(img@, glyphs@, y as int);
        assert(res@ =~= above + row.take(0));

        for x in 0..chars_w
            invariant
                row == render_row(img@, glyphs@, y as int),
                row.len() == chars_w,
                chars_w <= u32::MAX,
                y < chars_h <= u32::MAX,
                res@ == above + row.take(x as int),
        {
            let char_index = cell_index(img, glyphs, x as u32, y as u32);

            res.push(glyphs.glyph(char_index));
            assert(res@ =~= above + row.take(x + 1));
        }
        assert(row.take(chars_w as int) =~= row);

        res.push('\n');
        assert(grid.take(y + 1).drop_last() =~= grid.take(y as int));
        assert(grid.take(y + 1).last() == row);
    }
    assert(grid.take(chars_h as int) =~= grid);
    proof {
        lemma_end_lines(grid);
    }

    res.pop();
    assert(join_lines(grid).push(line_break()).drop_last() =~= join_lines(grid));

    res
}

/// Renders the image with the template and the alphabet, unless the
/// alphabet does not have one glyph for every bitmask of the template.
pub fn render(image: &BinaryImage, template: CellTemplate, alphabet: Vec<char>) -> (res: Result<
    String,
    ConfigurationMismatch,
>)
    ensures
        res is Ok <==> alphabet@.len() == pow2(template@.area()),
        res matches Ok(text) ==> text@ == render_text(
            image@,
            GlyphSetView { template: template@, alphabet: alphabet@ },
        ),
        res matches Err(mismatch) ==> mismatch.template_bits == template@.area()
            && mismatch.alphabet_len == alphabet@.len(),
{
    match GlyphSet::new(template, alphabet) {
        Ok(glyphs) => Ok(generate(image, &glyphs)),
        Err(mismatch) => Err(mismatch),
    }
}

/// Renders the image with the block glyph set.
pub fn generate_blocks(image: &BinaryImage) -> (res: String)
    ensures
        res@ == render_text(image@, blocks_glyphs()),
{
    generate(image, &GlyphSet::blocks())
}

/// Renders the image with the braille glyph set.
pub fn generate_braille(image: &BinaryImage) -> (res: String)
    ensures
        res@ == render_text(image@, braille_glyphs()),
{
    generate(image, &GlyphSet::braille())
}

} // verus!
