//! The bitmask of one cell: every dot of the cell that is on sets the bit
//! that the template gives it.

use crate::bitmap::{BinaryImage, ImageView};
use crate::bits::{
    bit_at, lemma_bit_of_low_mask, lemma_bit_of_or, lemma_bit_of_single, lemma_bit_of_zero,
    lemma_equal_by_bits, lemma_one_shl, low_mask,
};
use crate::geometry::lemma_row_major;
use crate::glyphs::{lemma_bit_has_owner, GlyphSet, TemplateView};
use vstd::arithmetic::power2::{lemma_pow2_pos, pow2};
use vstd::prelude::*;

verus! {

/// One cell of the grid that a template lays over an image: the cell in
/// column `cx` and row `cy` of the grid.
pub struct Cell {
    pub img: ImageView,
    pub t: TemplateView,
    pub cx: int,
    pub cy: int,
}

impl Cell {
    /// Whether the dot in column `dx` and row `dy` of the cell is on. A dot
    /// of the cell that lies outside the image is off.
    pub open spec fn dot(self, dx: int, dy: int) -> bool {
        self.img.dot(self.cx * self.t.cell_width + dx, self.cy * self.t.cell_height + dy)
    }

    /// What the dot in column `dx` and row `dy` adds to the bitmask: its own
    /// bit if the dot is on, nothing if it is off.
    pub open spec fn dot_bit(self, dx: int, dy: int) -> u64 {
        if self.dot(dx, dy) {
            1u64 << (self.t.bit_of(dx, dy) as u64)
        } else {
            0
        }
    }

    /// `seed` with the bits of the first `rows` dots of column `dx` added.
    pub open spec fn column_mask(self, seed: u64, dx: int, rows: nat) -> u64
        decreases rows,
    {
        if rows == 0 {
            seed
        } else {
            self.column_mask(seed, dx, (rows - 1) as nat) | self.dot_bit(dx, rows - 1)
        }
    }

    /// The bits of all dots in the first `cols` columns of the cell.
    pub open spec fn mask_upto(self, cols: nat) -> u64
        decreases cols,
    {
        if cols == 0 {
            0
        } else {
            self.column_mask(self.mask_upto((cols - 1) as nat), cols - 1, self.t.cell_height)
        }
    }

    /// The bitmask of the cell: the bits of all its dots, combined with
    /// bitwise or.
    pub open spec fn mask(self) -> u64 {
        self.mask_upto(self.t.cell_width)
    }

    /// The dot in column `dx` and row `dy` is on and owns bit `p`.
    pub open spec fn dot_sets_bit(self, dx: int, dy: int, p: u64) -> bool {
        self.dot(dx, dy) && self.t.bit_of(dx, dy) == p
    }

    /// Some dot of the cell is on and owns bit `p`.
    pub open spec fn sets_bit(self, p: u64) -> bool {
        exists|dx: int, dy: int|
            0 <= dx < self.t.cell_width && 0 <= dy < self.t.cell_height
                && #[trigger] self.dot_sets_bit(dx, dy, p)
    }

    /// No dot of the cell is on.
    pub open spec fn is_blank(self) -> bool {
        forall|dx: int, dy: int|
            0 <= dx < self.t.cell_width && 0 <= dy < self.t.cell_height ==> !#[trigger] self.dot(
                dx,
                dy,
            )
    }

    /// Every dot of the cell is on, so the cell lies within the image.
    pub open spec fn is_full(self) -> bool {
        forall|dx: int, dy: int|
            0 <= dx < self.t.cell_width && 0 <= dy < self.t.cell_height ==> #[trigger] self.dot(
                dx,
                dy,
            )
    }

    /// The dot in column `dx` and row `dy` is on, and it is the only dot of
    /// the cell that is.
    pub open spec fn has_only(self, dx: int, dy: int) -> bool {
        forall|ex: int, ey: int|
            0 <= ex < self.t.cell_width && 0 <= ey < self.t.cell_height ==> (#[trigger] self.dot(
                ex,
                ey,
            ) <==> ex == dx && ey == dy)
    }
}

/// The cell in column `cx` and row `cy` of the grid that `t` lays over `img`.
pub open spec fn cell_at(img: ImageView, t: TemplateView, cx: int, cy: int) -> Cell {
    Cell { img, t, cx, cy }
}

/// The bitmask of the cell in column `cx` and row `cy` of the grid.
pub open spec fn cell_mask(img: ImageView, t: TemplateView, cx: int, cy: int) -> u64 {
    cell_at(img, t, cx, cy).mask()
}

/// Every dot of a cell owns a bit below the number of dots.
pub proof fn lemma_bit_in_range(t: TemplateView, dx: int, dy: int)
    requires
        t.wf(),
        0 <= dx < t.cell_width,
        0 <= dy < t.cell_height,
    ensures
        t.bit_of(dx, dy) < t.area(),
{
    lemma_row_major(dx, dy, t.cell_width as int, t.cell_height as int);
}

/// Two dots of a cell that own the same bit are the same dot.
pub proof fn lemma_bit_owner_unique(t: TemplateView, dx: int, dy: int, ex: int, ey: int)
    requires
        t.wf(),
        0 <= dx < t.cell_width,
        0 <= dy < t.cell_height,
        0 <= ex < t.cell_width,
        0 <= ey < t.cell_height,
        t.bit_of(dx, dy) == t.bit_of(ex, ey),
    ensures
        dx == ex,
        dy == ey,
{
    let w = t.cell_width as int;
    lemma_row_major(dx, dy, w, t.cell_height as int);
    lemma_row_major(ex, ey, w, t.cell_height as int);
    let j = dy * w + dx;
    let k = ey * w + ex;
    if j < k {
        assert(t.bit_positions[j] != t.bit_positions[k]);
    }
    if k < j {
        assert(t.bit_positions[k] != t.bit_positions[j]);
    }
    assert(dy == ey && dx == ex) by (nonlinear_arith)
        requires
            dy * w + dx == ey * w + ex,
            0 <= dx < w,
            0 <= ex < w,
    ;
}

proof fn lemma_dot_bit_bits(c: Cell, dx: int, dy: int, p: u64)
    requires
        c.t.wf(),
        c.t.area() <= 64,
        0 <= dx < c.t.cell_width,
        0 <= dy < c.t.cell_height,
        p < 64,
    ensures
        bit_at(c.dot_bit(dx, dy), p) <==> c.dot_sets_bit(dx, dy, p),
{
    lemma_bit_in_range(c.t, dx, dy);
    if c.dot(dx, dy) {
        lemma_bit_of_single(c.t.bit_of(dx, dy) as u64, p);
    } else {
        lemma_bit_of_zero(p);
    }
}

proof fn lemma_column_bits(c: Cell, seed: u64, dx: int, rows: nat, p: u64)
    requires
        c.t.wf(),
        c.t.area() <= 64,
        0 <= dx < c.t.cell_width,
        rows <= c.t.cell_height,
        p < 64,
    ensures
        bit_at(c.column_mask(seed, dx, rows), p) <==> (bit_at(seed, p) || exists|dy: int|
            0 <= dy < rows && #[trigger] c.dot_sets_bit(dx, dy, p)),
    decreases rows,
{
    if rows > 0 {
        let before = c.column_mask(seed, dx, (rows - 1) as nat);
        let added = c.dot_bit(dx, rows - 1);
        lemma_column_bits(c, seed, dx, (rows - 1) as nat, p);
        lemma_dot_bit_bits(c, dx, rows - 1, p);
        lemma_bit_of_or(before, added, p);
        if bit_at(added, p) {
            assert(c.dot_sets_bit(dx, rows - 1, p));
        }
    }
}

proof fn lemma_mask_bits_upto(c: Cell, cols: nat, p: u64)
    requires
        c.t.wf(),
        c.t.area() <= 64,
        cols <= c.t.cell_width,
        p < 64,
    ensures
        bit_at(c.mask_upto(cols), p) <==> exists|dx: int, dy: int|
            0 <= dx < cols && 0 <= dy < c.t.cell_height && #[trigger] c.dot_sets_bit(dx, dy, p),
    decreases cols,
{
    if cols == 0 {
        lemma_bit_of_zero(p);
    } else {
        let before = c.mask_upto((cols - 1) as nat);
        lemma_mask_bits_upto(c, (cols - 1) as nat, p);
        lemma_column_bits(c, before, cols - 1, c.t.cell_height, p);
        if bit_at(c.mask_upto(cols), p) {
            if bit_at(before, p) {
                let (dx, dy) = choose|dx: int, dy: int|
                    0 <= dx < cols - 1 && 0 <= dy < c.t.cell_height && #[trigger] c.dot_sets_bit(
                        dx,
                        dy,
                        p,
                    );
                assert(0 <= dx < cols && c.dot_sets_bit(dx, dy, p));
            } else {
                let dy = choose|dy: int|
                    0 <= dy < c.t.cell_height && #[trigger] c.dot_sets_bit(cols - 1, dy, p);
                assert(c.dot_sets_bit(cols - 1, dy, p));
            }
        }
    }
}

/// A bit of a cell's bitmask is set exactly when some dot of the cell is on
/// and owns that bit.
pub proof fn lemma_mask_bits(c: Cell, p: u64)
    requires
        c.t.wf(),
        c.t.area() <= 64,
        p < 64,
    ensures
        bit_at(c.mask(), p) <==> c.sets_bit(p),
{
    lemma_mask_bits_upto(c, c.t.cell_width, p);
}

/// Every dot of a cell decides one bit of the cell's bitmask: the bit that
/// the dot owns is set if the dot is on, and clear if the dot is off or lies
/// outside the image.
pub proof fn lemma_dot_decides_bit(c: Cell, dx: int, dy: int)
    requires
        c.t.wf(),
        c.t.area() <= 64,
        0 <= dx < c.t.cell_width,
        0 <= dy < c.t.cell_height,
    ensures
        bit_at(c.mask(), c.t.bit_of(dx, dy) as u64) <==> c.dot(dx, dy),
{
    let p = c.t.bit_of(dx, dy) as u64;
    lemma_bit_in_range(c.t, dx, dy);
    lemma_mask_bits(c, p);
    if c.dot(dx, dy) {
        assert(c.dot_sets_bit(dx, dy, p));
    }
    if c.sets_bit(p) {
        let (ex, ey) = choose|ex: int, ey: int|
            0 <= ex < c.t.cell_width && 0 <= ey < c.t.cell_height && #[trigger] c.dot_sets_bit(
                ex,
                ey,
                p,
            );
        lemma_bit_owner_unique(c.t, dx, dy, ex, ey);
    }
}

proof fn lemma_column_bound(c: Cell, seed: u64, dx: int, rows: nat)
    requires
        c.t.wf(),
        c.t.area() < 64,
        0 <= dx < c.t.cell_width,
        rows <= c.t.cell_height,
        seed < pow2(c.t.area()),
    ensures
        c.column_mask(seed, dx, rows) < pow2(c.t.area()),
    decreases rows,
{
    if rows > 0 {
        let before = c.column_mask(seed, dx, (rows - 1) as nat);
        let n = c.t.area() as u64;
        let q = c.t.bit_of(dx, rows - 1) as u64;
        lemma_column_bound(c, seed, dx, (rows - 1) as nat);
        lemma_bit_in_range(c.t, dx, rows - 1);
        lemma_one_shl(n);
        assert((before | (1u64 << q)) < (1u64 << n) && (before | 0) == before) by (bit_vector)
            requires
                before < (1u64 << n),
                q < n,
                n < 64,
        ;
    }
}

proof fn lemma_mask_bound_upto(c: Cell, cols: nat)
    requires
        c.t.wf(),
        c.t.area() < 64,
        cols <= c.t.cell_width,
    ensures
        c.mask_upto(cols) < pow2(c.t.area()),
    decreases cols,
{
    if cols == 0 {
        lemma_pow2_pos(c.t.area());
    } else {
        lemma_mask_bound_upto(c, (cols - 1) as nat);
        lemma_column_bound(c, c.mask_upto((cols - 1) as nat), cols - 1, c.t.cell_height);
    }
}

/// A cell's bitmask is below two to the power of the number of dots in a
/// cell, so it is an index into an alphabet that matches the template.
pub proof fn lemma_mask_bound(c: Cell)
    requires
        c.t.wf(),
        c.t.area() < 64,
    ensures
        c.mask() < pow2(c.t.area()),
{
    lemma_mask_bound_upto(c, c.t.cell_width);
}

/// A cell without a dot that is on has the bitmask zero.
pub proof fn lemma_blank_cell(c: Cell)
    requires
        c.t.wf(),
        c.t.area() <= 64,
        c.is_blank(),
    ensures
        c.mask() == 0,
{
    assert forall|p: u64| p < 64 implies bit_at(c.mask(), p) == bit_at(0, p) by {
        lemma_mask_bits(c, p);
        lemma_bit_of_zero(p);
    }
    lemma_equal_by_bits(c.mask(), 0);
}

/// A cell in which every dot is on has the bitmask with every bit set: the
/// greatest index of a matching alphabet.
pub proof fn lemma_full_cell(c: Cell)
    requires
        c.t.wf(),
        c.t.area() < 64,
        c.is_full(),
    ensures
        c.mask() == pow2(c.t.area()) - 1,
{
    let n = c.t.area() as u64;
    assert forall|p: u64| p < 64 implies bit_at(c.mask(), p) == bit_at(low_mask(n), p) by {
        lemma_mask_bits(c, p);
        lemma_bit_of_low_mask(n, p);
        if p < n {
            lemma_bit_has_owner(c.t, p as int);
            let (dx, dy) = choose|dx: int, dy: int|
                0 <= dx < c.t.cell_width && 0 <= dy < c.t.cell_height && #[trigger] c.t.bit_of(
                    dx,
                    dy,
                ) == p as int;
            assert(c.dot(dx, dy));
            assert(c.dot_sets_bit(dx, dy, p));
        } else if c.sets_bit(p) {
            let (dx, dy) = choose|dx: int, dy: int|
                0 <= dx < c.t.cell_width && 0 <= dy < c.t.cell_height
                    && #[trigger] c.dot_sets_bit(dx, dy, p);
            lemma_bit_in_range(c.t, dx, dy);
        }
    }
    lemma_equal_by_bits(c.mask(), low_mask(n));
    lemma_bit_of_low_mask(n, 0);
}

/// A cell in which exactly one dot is on has the bitmask in which exactly
/// the bit of that dot is set.
pub proof fn lemma_single_dot_cell(c: Cell, dx: int, dy: int)
    requires
        c.t.wf(),
        c.t.area() <= 64,
        0 <= dx < c.t.cell_width,
        0 <= dy < c.t.cell_height,
        c.has_only(dx, dy),
    ensures
        c.mask() == 1u64 << (c.t.bit_of(dx, dy) as u64),
{
    let q = c.t.bit_of(dx, dy) as u64;
    lemma_bit_in_range(c.t, dx, dy);
    assert(c.dot(dx, dy));
    assert forall|p: u64| p < 64 implies bit_at(c.mask(), p) == bit_at(1u64 << q, p) by {
        lemma_mask_bits(c, p);
        lemma_bit_of_single(q, p);
        if p == q {
            assert(c.dot_sets_bit(dx, dy, p));
        } else if c.sets_bit(p) {
            let (ex, ey) = choose|ex: int, ey: int|
                0 <= ex < c.t.cell_width && 0 <= ey < c.t.cell_height
                    && #[trigger] c.dot_sets_bit(ex, ey, p);
            assert(c.dot(ex, ey));
        }
    }
    lemma_equal_by_bits(c.mask(), 1u64 << q);
}

/// Computes the bitmask of the cell in column `x` and row `y` of the grid,
/// which is the index of the cell's glyph in the alphabet.
pub fn cell_index(img: &BinaryImage, glyphs: &GlyphSet, x: u32, y: u32) -> (char_index: u64)
    ensures
        char_index == cell_mask(img@, glyphs@.template, x as int, y as int),
        char_index < glyphs@.alphabet.len(),
{
    let template = glyphs.template();
    let template_w = template.cell_width() as u64;
    let template_h = template.cell_height() as u64;
    let img_w = img.width() as u64;
    let img_h = img.height() as u64;
    let ghost cell = cell_at(img@, template@, x as int, y as int);
    proof {
        use_type_invariant(glyphs);
        lemma_mask_bound(cell);
    }
    assert(x * template_w + template_w <= u64::MAX && y * template_h + template_h <= u64::MAX)
        by (nonlinear_arith)
        requires
            x <= u32::MAX,
            y <= u32::MAX,
            template_w <= u32::MAX,
            template_h <= u32::MAX,
    ;

    let mut char_index: u64 = 0;

    for dot_x in 0..template_w
        invariant
            cell == cell_at(img@, template@, x as int, y as int),
            cell.t.wf(),
            cell.t.area() < 64,
            template_w == cell.t.cell_width,
            template_h == cell.t.cell_height,
            img_w == img@.width,
            img_h == img@.height,
            img_w <= u32::MAX,
            img_h <= u32::MAX,
            template_w <= u32::MAX,
            template_h <= u32::MAX,
            x * template_w + template_w <= u64::MAX,
            y * template_h + template_h <= u64::MAX,
            char_index == cell.mask_upto(dot_x as nat),
    {
        for dot_y in 0..template_h
            invariant
                cell == cell_at(img@, template@, x as int, y as int),
                cell.t.wf(),
                cell.t.area() < 64,
                template_w == cell.t.cell_width,
                template_h == cell.t.cell_height,
                img_w == img@.width,
                img_h == img@.height,
                img_w <= u32::MAX,
                img_h <= u32::MAX,
                template_w <= u32::MAX,
                template_h <= u32::MAX,
                dot_x < template_w,
                x * template_w + template_w <= u64::MAX,
                y * template_h + template_h <= u64::MAX,
                char_index == cell.column_mask(
                    cell.mask_upto(dot_x as nat),
                    dot_x as int,
                    dot_y as nat,
                ),
        {
            let pixel_x = x as u64 * template_w + dot_x;
            let pixel_y = y as u64 * template_h + dot_y;

            assert(char_index | 0 == char_index) by (bit_vector);
            if pixel_x < img_w && pixel_y < img_h {
                let pixel = img.pixel(pixel_x as u32, pixel_y as u32);
                let shift = template.bit_position(dot_x as u32, dot_y as u32);
                assert(char_index | (0u64 << (shift as u64)) == char_index) by (bit_vector);

                char_index |= (pixel as u64) << (shift as u64);
            }
        }
    }

    char_index
}

} // verus!
