//! The two-level bitmap that the renderer reads.

use crate::geometry::lemma_row_major;
use vstd::prelude::*;

verus! {

/// What a two-level image is: its extent and its dots, row by row from the
/// top left corner.
pub struct ImageView {
    pub width: nat,
    pub height: nat,
    pub pixels: Seq<bool>,
}

impl ImageView {
    /// There is exactly one dot for every position.
    pub open spec fn wf(self) -> bool {
        self.pixels.len() == self.width * self.height
    }

    /// Whether the dot at `(x, y)` is on. Every position outside the image is off.
    pub open spec fn dot(self, x: int, y: int) -> bool {
        0 <= x < self.width && 0 <= y < self.height && self.pixels[y * self.width + x]
    }
}

/// A luma sample counts as on from half intensity upwards.
pub open spec fn luma_is_on(luma: u8) -> bool {
    luma >= 128
}

/// The dots that a row-major buffer of luma samples stands for.
pub open spec fn threshold(luma: Seq<u8>) -> Seq<bool> {
    Seq::new(luma.len(), |i: int| luma_is_on(luma[i]))
}

/// A two-level bitmap. It owns its dots; rendering only reads them.
#[derive(Debug)]
pub struct BinaryImage {
    width: u32,
    height: u32,
    pixels: Vec<bool>,
}

impl View for BinaryImage {
    type V = ImageView;

    closed spec fn view(&self) -> ImageView {
        ImageView {
            width: self.width as nat,
            height: self.height as nat,
            pixels: self.pixels@,
        }
    }
}

impl Clone for BinaryImage {
    fn clone(&self) -> (copy: Self)
        ensures
            copy@ == self@,
    {
        proof {
            use_type_invariant(self);
        }
        let pixels = self.pixels.clone();
        assert(pixels@ =~= self.pixels@);
        BinaryImage { width: self.width, height: self.height, pixels }
    }
}

impl BinaryImage {
    #[verifier::type_invariant]
    pub open spec fn well_formed(&self) -> bool {
        self@.wf() && self@.width <= u32::MAX && self@.height <= u32::MAX
    }

    /// An image of the given extent over `pixels`, if there is one dot for
    /// every position.
    pub fn new(width: u32, height: u32, pixels: Vec<bool>) -> (made: Option<BinaryImage>)
        ensures
            made is Some <==> pixels@.len() == width * height,
            made matches Some(image) ==> image@ == (ImageView {
                width: width as nat,
                height: height as nat,
                pixels: pixels@,
            }),
    {
        assert(width * height <= u64::MAX) by (nonlinear_arith)
            requires
                width <= u32::MAX,
                height <= u32::MAX,
        ;
        let expected: u64 = width as u64 * height as u64;
        if pixels.len() as u64 == expected {
            Some(BinaryImage { width, height, pixels })
        } else {
            None
        }
    }

    /// An image of the given extent whose dots are the luma samples of
    /// `luma` at half intensity or above.
    pub fn from_luma(width: u32, height: u32, luma: &[u8]) -> (made: Option<BinaryImage>)
        ensures
            made is Some <==> luma@.len() == width * height,
            made matches Some(image) ==> image@ == (ImageView {
                width: width as nat,
                height: height as nat,
                pixels: threshold(luma@),
            }),
    {
        let mut pixels: Vec<bool> = Vec::new();
        let mut i: usize = 0;
        while i < luma.len()
            invariant
                i <= luma.len(),
                pixels@ == threshold(luma@.take(i as int)),
            decreases luma.len() - i,
        {
            pixels.push(luma[i] >= 128);
            i += 1;
            assert(pixels@ =~= threshold(luma@.take(i as int)));
        }
        assert(luma@.take(i as int) =~= luma@);
        BinaryImage::new(width, height, pixels)
    }

    pub fn width(&self) -> (w: u32)
        ensures
            w == self@.width,
    {
        self.width
    }

    pub fn height(&self) -> (h: u32)
        ensures
            h == self@.height,
    {
        self.height
    }

    /// The dot at `(x, y)`: 1 if it is on, 0 if it is off.
    pub fn pixel(&self, x: u32, y: u32) -> (value: u8)
        requires
            x < self@.width,
            y < self@.height,
        ensures
            value == if self@.dot(x as int, y as int) { 1u8 } else { 0u8 },
    {
        proof {
            use_type_invariant(self);
            lemma_row_major(x as int, y as int, self.width as int, self.height as int);
            assert(y * self.width + x < self.pixels.len());
        }
        let at: usize = y as usize * self.width as usize + x as usize;
        if self.pixels[at] {
            1
        } else {
            0
        }
    }
}

} // verus!
