//! Cell templates, glyph alphabets, and the two built-in pairs of them.

use crate::bits::{lemma_one_shl, lemma_pow2_fits};
use crate::geometry::lemma_row_major;
use vstd::arithmetic::div_mod::lemma_fundamental_div_mod;
use vstd::arithmetic::power2::{lemma2_to64, pow2};
use vstd::prelude::*;
use vstd::seq_lib::seq_to_set_is_finite;
use vstd::set_lib::{lemma_int_range, lemma_subset_equality, set_int_range};

verus! {

/// What a cell template is: the extent of a cell in dots, and for every dot
/// of the cell the bit that it owns in the cell's bitmask. The dot in column
/// `dx` and row `dy` of the cell stands at index `dy * cell_width + dx`.
pub struct TemplateView {
    pub cell_width: nat,
    pub cell_height: nat,
    pub bit_positions: Seq<u8>,
}

impl TemplateView {
    /// Number of dots in a cell, which is the number of bits in a bitmask.
    pub open spec fn area(self) -> nat {
        self.cell_width * self.cell_height
    }

    /// The bit owned by the dot in column `dx` and row `dy` of a cell.
    pub open spec fn bit_of(self, dx: int, dy: int) -> u8 {
        self.bit_positions[dy * self.cell_width + dx]
    }

    /// A cell has at least one dot, every dot owns a bit below the number of
    /// dots, and no two dots own the same bit.
    pub open spec fn wf(self) -> bool {
        &&& 0 < self.cell_width
        &&& 0 < self.cell_height
        &&& self.bit_positions.len() == self.area()
        &&& forall|k: int|
            0 <= k < self.bit_positions.len() ==> (#[trigger] self.bit_positions[k]) < self.area()
        &&& forall|j: int, k: int|
            0 <= j < k < self.bit_positions.len() ==> self.bit_positions[j]
                != self.bit_positions[k]
    }
}

/// In a template every bit below the number of dots is owned by some index:
/// the bit assignment is a permutation.
pub proof fn lemma_bit_has_index(t: TemplateView, p: int)
    requires
        t.wf(),
        0 <= p < t.area(),
    ensures
        exists|k: int| 0 <= k < t.bit_positions.len() && #[trigger] t.bit_positions[k] == p,
{
    let bits = t.bit_positions.map_values(|v: u8| v as int);
    let owned = bits.to_set();
    let all = set_int_range(0, t.area() as int);
    assert(bits.no_duplicates()) by {
        assert forall|i: int, j: int|
            0 <= i < bits.len() && 0 <= j < bits.len() && i != j implies bits[i] != bits[j] by {
            if i < j {
                assert(t.bit_positions[i] != t.bit_positions[j]);
            } else {
                assert(t.bit_positions[j] != t.bit_positions[i]);
            }
        }
    }
    bits.unique_seq_to_set();
    seq_to_set_is_finite(bits);
    lemma_int_range(0, t.area() as int);
    assert(owned.subset_of(all)) by {
        assert forall|v: int| owned.contains(v) implies all.contains(v) by {
            let i = choose|i: int| 0 <= i < bits.len() && bits[i] == v;
            assert(t.bit_positions[i] < t.area());
        }
    }
    lemma_subset_equality(owned, all);
    assert(all.contains(p));
    assert(owned.contains(p));
    let k = choose|k: int| 0 <= k < bits.len() && bits[k] == p;
    assert(t.bit_positions[k] == p);
}

/// In a template every bit below the number of dots is owned by some dot of
/// the cell.
pub proof fn lemma_bit_has_owner(t: TemplateView, p: int)
    requires
        t.wf(),
        0 <= p < t.area(),
    ensures
        exists|dx: int, dy: int|
            0 <= dx < t.cell_width && 0 <= dy < t.cell_height && #[trigger] t.bit_of(dx, dy) == p,
{
    lemma_bit_has_index(t, p);
    let k = choose|k: int| 0 <= k < t.bit_positions.len() && #[trigger] t.bit_positions[k] == p;
    let w = t.cell_width as int;
    let dx = k % w;
    let dy = k / w;
    lemma_fundamental_div_mod(k, w);
    assert(0 <= dy < t.cell_height && dy * w == w * dy) by (nonlinear_arith)
        requires
            k == w * dy + dx,
            0 <= dx < w,
            0 <= k < w * t.cell_height,
    ;
    assert(t.bit_of(dx, dy) == p);
}

/// The geometry of a cell and the assignment of its dots to bits.
#[derive(Debug)]
pub struct CellTemplate {
    cell_width: u32,
    cell_height: u32,
    bit_positions: Vec<u8>,
}

impl View for CellTemplate {
    type V = TemplateView;

    closed spec fn view(&self) -> TemplateView {
        TemplateView {
            cell_width: self.cell_width as nat,
            cell_height: self.cell_height as nat,
            bit_positions: self.bit_positions@,
        }
    }
}

impl Clone for CellTemplate {
    fn clone(&self) -> (copy: Self)
        ensures
            copy@ == self@,
    {
        proof {
            use_type_invariant(self);
        }
        let bit_positions = self.bit_positions.clone();
        assert(bit_positions@ =~= self.bit_positions@);
        CellTemplate { cell_width: self.cell_width, cell_height: self.cell_height, bit_positions }
    }
}

impl CellTemplate {
    #[verifier::type_invariant]
    pub open spec fn well_formed(&self) -> bool {
        self@.wf() && self@.cell_width <= u32::MAX && self@.cell_height <= u32::MAX
    }

    /// The template with the given cell extent and bit assignment, unless
    /// the assignment is not one: a cell without dots, a bit for too few or
    /// too many dots, a bit out of range, or a bit given twice.
    pub fn new(cell_width: u32, cell_height: u32, bit_positions: Vec<u8>) -> (made: Option<
        CellTemplate,
    >)
        ensures
            made is Some <==> (TemplateView {
                cell_width: cell_width as nat,
                cell_height: cell_height as nat,
                bit_positions: bit_positions@,
            }).wf(),
            made matches Some(template) ==> template@ == (TemplateView {
                cell_width: cell_width as nat,
                cell_height: cell_height as nat,
                bit_positions: bit_positions@,
            }),
    {
        let ghost view = TemplateView {
            cell_width: cell_width as nat,
            cell_height: cell_height as nat,
            bit_positions: bit_positions@,
        };
        if cell_width == 0 || cell_height == 0 {
            return None;
        }
        assert(cell_width * cell_height <= u64::MAX) by (nonlinear_arith)
            requires
                cell_width <= u32::MAX,
                cell_height <= u32::MAX,
        ;
        let area: u64 = cell_width as u64 * cell_height as u64;
        let count: usize = bit_positions.len();
        if count as u64 != area {
            return None;
        }
        let mut k: usize = 0;
        while k < count
            invariant
                k <= count,
                count == bit_positions@.len(),
                area == view.area(),
                view.cell_width == cell_width,
                view.cell_height == cell_height,
                view.bit_positions == bit_positions@,
                forall|i: int| 0 <= i < k ==> (#[trigger] bit_positions@[i]) < area,
                forall|i: int, j: int| 0 <= i < j < k ==> bit_positions@[i] != bit_positions@[j],
            decreases count - k,
        {
            let bit = bit_positions[k];
            if bit as u64 >= area {
                assert(view.bit_positions[k as int] >= view.area());
                return None;
            }
            let mut j: usize = 0;
            while j < k
                invariant
                    j <= k < count,
                    count == bit_positions@.len(),
                    view.cell_width == cell_width,
                    view.cell_height == cell_height,
                    view.bit_positions == bit_positions@,
                    bit == bit_positions@[k as int],
                    forall|i: int| 0 <= i < j ==> bit_positions@[i] != bit,
                decreases k - j,
            {
                if bit_positions[j] == bit {
                    assert(view.bit_positions[j as int] == view.bit_positions[k as int]);
                    return None;
                }
                j += 1;
            }
            k += 1;
        }
        Some(CellTemplate { cell_width, cell_height, bit_positions })
    }

    pub fn cell_width(&self) -> (w: u32)
        ensures
            w == self@.cell_width,
            w > 0,
    {
        proof {
            use_type_invariant(self);
        }
        self.cell_width
    }

    pub fn cell_height(&self) -> (h: u32)
        ensures
            h == self@.cell_height,
            h > 0,
    {
        proof {
            use_type_invariant(self);
        }
        self.cell_height
    }

    /// The bit owned by the dot in column `dot_x` and row `dot_y` of a cell.
    pub fn bit_position(&self, dot_x: u32, dot_y: u32) -> (bit: u8)
        requires
            dot_x < self@.cell_width,
            dot_y < self@.cell_height,
        ensures
            bit == self@.bit_of(dot_x as int, dot_y as int),
            bit < self@.area(),
    {
        proof {
            use_type_invariant(self);
            lemma_row_major(
                dot_x as int,
                dot_y as int,
                self.cell_width as int,
                self.cell_height as int,
            );
            assert(dot_y * self.cell_width + dot_x < self.bit_positions.len());
        }
        self.bit_positions[dot_y as usize * self.cell_width as usize + dot_x as usize]
    }
}

/// What a glyph set is: a template and the alphabet that is read with it.
pub struct GlyphSetView {
    pub template: TemplateView,
    pub alphabet: Seq<char>,
}

impl GlyphSetView {
    /// The alphabet has one glyph for every bitmask of the template, and a
    /// bitmask fits a 64-bit word.
    pub open spec fn wf(self) -> bool {
        &&& self.template.wf()
        &&& self.template.area() < 64
        &&& self.alphabet.len() == pow2(self.template.area())
    }

    /// The glyph for the bitmask in which every bit is set.
    pub open spec fn last_glyph(self) -> char {
        self.alphabet[self.alphabet.len() - 1]
    }
}

/// The alphabet does not have one glyph for every bitmask of the template.
#[derive(Clone, Copy, Debug, PartialEq, Eq)]
pub struct ConfigurationMismatch {
    /// Number of bits in a bitmask of the template.
    pub template_bits: u64,
    /// Number of glyphs in the alphabet.
    pub alphabet_len: usize,
}

/// A template together with its alphabet: glyph `i` of the alphabet is drawn
/// for the cell whose bitmask is `i`.
#[derive(Debug)]
pub struct GlyphSet {
    template: CellTemplate,
    alphabet: Vec<char>,
}

impl View for GlyphSet {
    type V = GlyphSetView;

    closed spec fn view(&self) -> GlyphSetView {
        GlyphSetView { template: self.template@, alphabet: self.alphabet@ }
    }
}

impl Clone for GlyphSet {
    fn clone(&self) -> (copy: Self)
        ensures
            copy@ == self@,
    {
        proof {
            use_type_invariant(self);
        }
        let template = self.template.clone();
        let alphabet = self.alphabet.clone();
        assert(alphabet@ =~= self.alphabet@);
        GlyphSet { template, alphabet }
    }
}

impl GlyphSet {
    #[verifier::type_invariant]
    pub open spec fn well_formed(&self) -> bool {
        self@.wf() && self@.template.cell_width <= u32::MAX && self@.template.cell_height
            <= u32::MAX
    }

    /// Pairs a template with an alphabet. They match when the alphabet has
    /// exactly two to the power of the template's dot count glyphs.
    pub fn new(template: CellTemplate, alphabet: Vec<char>) -> (made: Result<
        GlyphSet,
        ConfigurationMismatch,
    >)
        ensures
            made is Ok <==> alphabet@.len() == pow2(template@.area()),
            made matches Ok(glyphs) ==> glyphs@.wf() && glyphs@ == (GlyphSetView {
                template: template@,
                alphabet: alphabet@,
            }),
            made matches Err(mismatch) ==> mismatch.template_bits == template@.area()
                && mismatch.alphabet_len == alphabet@.len(),
    {
        proof {
            use_type_invariant(&template);
        }
        assert(template.cell_width * template.cell_height <= u64::MAX) by (nonlinear_arith)
            requires
                template.cell_width <= u32::MAX,
                template.cell_height <= u32::MAX,
        ;
        let template_bits: u64 = template.cell_width as u64 * template.cell_height as u64;
        let alphabet_len: usize = alphabet.len();
        if template_bits >= 64 {
            proof {
                if alphabet@.len() == pow2(template@.area()) {
                    lemma_pow2_fits(template@.area());
                }
            }
            return Err(ConfigurationMismatch { template_bits, alphabet_len });
        }
        proof {
            lemma_one_shl(template_bits);
        }
        if alphabet_len as u64 != 1u64 << template_bits {
            return Err(ConfigurationMismatch { template_bits, alphabet_len });
        }
        Ok(GlyphSet { template, alphabet })
    }

    pub fn template(&self) -> (template: &CellTemplate)
        ensures
            template@ == self@.template,
    {
        &self.template
    }

    pub fn alphabet(&self) -> (alphabet: &Vec<char>)
        ensures
            alphabet@ == self@.alphabet,
    {
        &self.alphabet
    }

    /// The glyph that is drawn for the bitmask `index`.
    pub fn glyph(&self, index: u64) -> (glyph: char)
        requires
            index < self@.alphabet.len(),
        ensures
            glyph == self@.alphabet[index as int],
    {
        assert(index < self.alphabet.len());
        self.alphabet[index as usize]
    }
}

/// The block template: a cell is two dots wide and two dots high. The upper
/// left dot owns bit 0, the upper right dot bit 1, the lower left dot bit 2
/// and the lower right dot bit 3.
pub open spec fn blocks_template() -> TemplateView {
    TemplateView { cell_width: 2, cell_height: 2, bit_positions: seq![0u8, 1u8, 2u8, 3u8] }
}

/// The block alphabet: the sixteen quadrant characters, from the space for
/// the empty cell to the full block.
pub open spec fn blocks_alphabet() -> Seq<char> {
    seq![
        ' ',
        '\u{2598}',
        '\u{259D}',
        '\u{2580}',
        '\u{2596}',
        '\u{258C}',
        '\u{259E}',
        '\u{259B}',
        '\u{2597}',
        '\u{259A}',
        '\u{2590}',
        '\u{259C}',
        '\u{2584}',
        '\u{2599}',
        '\u{259F}',
        '\u{2588}',
    ]
}

/// The block glyph set.
pub open spec fn blocks_glyphs() -> GlyphSetView {
    GlyphSetView { template: blocks_template(), alphabet: blocks_alphabet() }
}

/// The braille template: a cell is two dots wide and four dots high, and
/// its dots own the bits that the braille patterns of Unicode give to the
/// eight dots of a braille cell. From top to bottom the left column owns
/// the bits 0, 1, 2 and 6, the right column the bits 3, 4, 5 and 7.
pub open spec fn braille_template() -> TemplateView {
    TemplateView {
        cell_width: 2,
        cell_height: 4,
        bit_positions: seq![0u8, 3u8, 1u8, 4u8, 2u8, 5u8, 6u8, 7u8],
    }
}

/// Code point of the braille pattern without a raised dot.
pub const BRAILLE_BASE: u32 = 0x2800;

/// The braille alphabet: the 256 braille patterns, the pattern for the
/// bitmask `i` being the character `BRAILLE_BASE + i`.
pub open spec fn braille_alphabet() -> Seq<char> {
    Seq::new(256, |i: int| (BRAILLE_BASE + i) as char)
}

/// The braille glyph set.
pub open spec fn braille_glyphs() -> GlyphSetView {
    GlyphSetView { template: braille_template(), alphabet: braille_alphabet() }
}

/// Both built-in glyph sets are well formed.
pub proof fn lemma_presets_wf()
    ensures
        blocks_glyphs().wf(),
        braille_glyphs().wf(),
{
    lemma2_to64();
    let blocks = blocks_template();
    assert(blocks.area() == 4) by (nonlinear_arith)
        requires
            blocks.cell_width == 2,
            blocks.cell_height == 2,
    ;
    let braille = braille_template();
    assert(braille.area() == 8) by (nonlinear_arith)
        requires
            braille.cell_width == 2,
            braille.cell_height == 4,
    ;
}

impl GlyphSet {
    /// The block glyph set.
    pub fn blocks() -> (glyphs: GlyphSet)
        ensures
            glyphs@ == blocks_glyphs(),
    {
        proof {
            lemma_presets_wf();
        }
        let template = CellTemplate {
            cell_width: 2,
            cell_height: 2,
            bit_positions: vec![0, 1, 2, 3],
        };
        assert(template@.bit_positions =~= blocks_template().bit_positions);
        let alphabet = vec![
            ' ',
            '\u{2598}',
            '\u{259D}',
            '\u{2580}',
            '\u{2596}',
            '\u{258C}',
            '\u{259E}',
            '\u{259B}',
            '\u{2597}',
            '\u{259A}',
            '\u{2590}',
            '\u{259C}',
            '\u{2584}',
            '\u{2599}',
            '\u{259F}',
            '\u{2588}',
        ];
        assert(alphabet@ =~= blocks_alphabet());
        GlyphSet { template, alphabet }
    }

    /// The braille glyph set.
    pub fn braille() -> (glyphs: GlyphSet)
        ensures
            glyphs@ == braille_glyphs(),
    {
        proof {
            lemma_presets_wf();
        }
        let template = CellTemplate {
            cell_width: 2,
            cell_height: 4,
            bit_positions: vec![0, 3, 1, 4, 2, 5, 6, 7],
        };
        assert(template@.bit_positions =~= braille_template().bit_positions);
        let alphabet = vec![
            '\u{2800}', '\u{2801}', '\u{2802}', '\u{2803}', '\u{2804}', '\u{2805}', '\u{2806}', '\u{2807}', '\u{2808}', '\u{2809}', '\u{280A}', '\u{280B}', '\u{280C}', '\u{280D}', '\u{280E}', '\u{280F}',
            '\u{2810}', '\u{2811}', '\u{2812}', '\u{2813}', '\u{2814}', '\u{2815}', '\u{2816}', '\u{2817}', '\u{2818}', '\u{2819}', '\u{281A}', '\u{281B}', '\u{281C}', '\u{281D}', '\u{281E}', '\u{281F}',
            '\u{2820}', '\u{2821}', '\u{2822}', '\u{2823}', '\u{2824}', '\u{2825}', '\u{2826}', '\u{2827}', '\u{2828}', '\u{2829}', '\u{282A}', '\u{282B}', '\u{282C}', '\u{282D}', '\u{282E}', '\u{282F}',
            '\u{2830}', '\u{2831}', '\u{2832}', '\u{2833}', '\u{2834}', '\u{2835}', '\u{2836}', '\u{2837}', '\u{2838}', '\u{2839}', '\u{283A}', '\u{283B}', '\u{283C}', '\u{283D}', '\u{283E}', '\u{283F}',
            '\u{2840}', '\u{2841}', '\u{2842}', '\u{2843}', '\u{2844}', '\u{2845}', '\u{2846}', '\u{2847}', '\u{2848}', '\u{2849}', '\u{284A}', '\u{284B}', '\u{284C}', '\u{284D}', '\u{284E}', '\u{284F}',
            '\u{2850}', '\u{2851}', '\u{2852}', '\u{2853}', '\u{2854}', '\u{2855}', '\u{2856}', '\u{2857}', '\u{2858}', '\u{2859}', '\u{285A}', '\u{285B}', '\u{285C}', '\u{285D}', '\u{285E}', '\u{285F}',
            '\u{2860}', '\u{2861}', '\u{2862}', '\u{2863}', '\u{2864}', '\u{2865}', '\u{2866}', '\u{2867}', '\u{2868}', '\u{2869}', '\u{286A}', '\u{286B}', '\u{286C}', '\u{286D}', '\u{286E}', '\u{286F}',
            '\u{2870}', '\u{2871}', '\u{2872}', '\u{2873}', '\u{2874}', '\u{2875}', '\u{2876}', '\u{2877}', '\u{2878}', '\u{2879}', '\u{287A}', '\u{287B}', '\u{287C}', '\u{287D}', '\u{287E}', '\u{287F}',
            '\u{2880}', '\u{2881}', '\u{2882}', '\u{2883}', '\u{2884}', '\u{2885}', '\u{2886}', '\u{2887}', '\u{2888}', '\u{2889}', '\u{288A}', '\u{288B}', '\u{288C}', '\u{288D}', '\u{288E}', '\u{288F}',
            '\u{2890}', '\u{2891}', '\u{2892}', '\u{2893}', '\u{2894}', '\u{2895}', '\u{2896}', '\u{2897}', '\u{2898}', '\u{2899}', '\u{289A}', '\u{289B}', '\u{289C}', '\u{289D}', '\u{289E}', '\u{289F}',
            '\u{28A0}', '\u{28A1}', '\u{28A2}', '\u{28A3}', '\u{28A4}', '\u{28A5}', '\u{28A6}', '\u{28A7}', '\u{28A8}', '\u{28A9}', '\u{28AA}', '\u{28AB}', '\u{28AC}', '\u{28AD}', '\u{28AE}', '\u{28AF}',
            '\u{28B0}', '\u{28B1}', '\u{28B2}', '\u{28B3}', '\u{28B4}', '\u{28B5}', '\u{28B6}', '\u{28B7}', '\u{28B8}', '\u{28B9}', '\u{28BA}', '\u{28BB}', '\u{28BC}', '\u{28BD}', '\u{28BE}', '\u{28BF}',
            '\u{28C0}', '\u{28C1}', '\u{28C2}', '\u{28C3}', '\u{28C4}', '\u{28C5}', '\u{28C6}', '\u{28C7}', '\u{28C8}', '\u{28C9}', '\u{28CA}', '\u{28CB}', '\u{28CC}', '\u{28CD}', '\u{28CE}', '\u{28CF}',
            '\u{28D0}', '\u{28D1}', '\u{28D2}', '\u{28D3}', '\u{28D4}', '\u{28D5}', '\u{28D6}', '\u{28D7}', '\u{28D8}', '\u{28D9}', '\u{28DA}', '\u{28DB}', '\u{28DC}', '\u{28DD}', '\u{28DE}', '\u{28DF}',
            '\u{28E0}', '\u{28E1}', '\u{28E2}', '\u{28E3}', '\u{28E4}', '\u{28E5}', '\u{28E6}', '\u{28E7}', '\u{28E8}', '\u{28E9}', '\u{28EA}', '\u{28EB}', '\u{28EC}', '\u{28ED}', '\u{28EE}', '\u{28EF}',
            '\u{28F0}', '\u{28F1}', '\u{28F2}', '\u{28F3}', '\u{28F4}', '\u{28F5}', '\u{28F6}', '\u{28F7}', '\u{28F8}', '\u{28F9}', '\u{28FA}', '\u{28FB}', '\u{28FC}', '\u{28FD}', '\u{28FE}', '\u{28FF}',
        ];
        assert(alphabet@ =~= braille_alphabet());
        GlyphSet { template, alphabet }
    }
}

} // verus!
