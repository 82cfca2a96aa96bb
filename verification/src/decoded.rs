//! Decoded picture and macroblock storage.

use crate::types::{Picture, SourceFormat};
use vstd::prelude::*;

verus! {

/// A decoded picture: its header, the source format in force, and the
/// three planar sample buffers.
pub struct DecodedPicture {
    /// The header the picture was decoded with.
    pub(crate) picture_header: Picture,

    /// The source format in force for this picture.
    pub(crate) format: SourceFormat,

    /// The luma samples, in row-major order.
    pub(crate) luma: Vec<u8>,

    /// The blue-difference chroma samples, in row-major order.
    pub(crate) chroma_b: Vec<u8>,

    /// The red-difference chroma samples, in row-major order.
    pub(crate) chroma_r: Vec<u8>,

    /// The number of luma samples per row.
    pub(crate) luma_width: usize,

    /// The number of chroma samples per row.
    pub(crate) chroma_width: usize,
}

impl DecodedPicture {
    /// The luma plane width this picture was allocated with.
    pub closed spec fn spec_luma_width(self) -> nat {
        self.luma_width as nat
    }

    /// The chroma plane width this picture was allocated with.
    pub closed spec fn spec_chroma_width(self) -> nat {
        self.chroma_width as nat
    }

    /// The luma plane contents.
    pub closed spec fn spec_luma(self) -> Seq<u8> {
        self.luma@
    }

    /// The blue-difference plane contents.
    pub closed spec fn spec_chroma_b(self) -> Seq<u8> {
        self.chroma_b@
    }

    /// The red-difference plane contents.
    pub closed spec fn spec_chroma_r(self) -> Seq<u8> {
        self.chroma_r@
    }

    /// The header this picture was decoded with.
    pub closed spec fn spec_header(self) -> Picture {
        self.picture_header
    }

    /// The source format in force.
    pub closed spec fn spec_format(self) -> SourceFormat {
        self.format
    }

    /// The planes have the advertised widths, in whole rows, and the
    /// chroma planes share their shape; all sizes stay comfortably inside
    /// the machine.
    pub open spec fn wf(self) -> bool {
        &&& self.spec_luma_width() >= 1
        &&& self.spec_chroma_width() >= 1
        &&& self.spec_luma().len() % self.spec_luma_width() == 0
        &&& self.spec_chroma_b().len() % self.spec_chroma_width() == 0
        &&& self.spec_chroma_r().len() == self.spec_chroma_b().len()
        &&& self.spec_luma().len() <= 0x10000000
        &&& self.spec_chroma_b().len() <= 0x10000000
        &&& self.spec_luma_width() <= 0x10000000
        &&& self.spec_chroma_width() <= 0x10000000
    }

    /// Construct a decoded picture for the given header and format, with
    /// zeroed plane buffers sized for `dimensions` (already rounded up to
    /// whole macroblocks by the caller).
    pub fn new(picture_header: Picture, format: SourceFormat, dimensions: (usize, usize)) -> (r:
        Self)
        requires
            1 <= dimensions.0 <= 0x4000,
            1 <= dimensions.1 <= 0x4000,
        ensures
            r.wf(),
            r.spec_header() == picture_header,
            r.spec_format() == format,
            r.spec_luma_width() == dimensions.0 as nat,
            r.spec_chroma_width() == (dimensions.0 + 1) as nat / 2,
            r.spec_luma().len() == dimensions.0 * dimensions.1,
            r.spec_chroma_b().len() == ((dimensions.0 + 1) as int / 2) * ((dimensions.1 + 1) as int
                / 2),
            forall|i: int| 0 <= i < r.spec_luma().len() ==> r.spec_luma()[i] == 0,
            forall|i: int| 0 <= i < r.spec_chroma_b().len() ==> r.spec_chroma_b()[i] == 0,
            forall|i: int| 0 <= i < r.spec_chroma_r().len() ==> r.spec_chroma_r()[i] == 0,
    {
        let (w, h) = dimensions;
        proof {
            assert(w * h <= 0x4000 * 0x4000) by (nonlinear_arith)
                requires
                    1 <= w <= 0x4000 && 1 <= h <= 0x4000,
            ;
        }
        let luma_samples = w * h;
        let chroma_w = (w + 1) / 2;
        let chroma_h = (h + 1) / 2;
        proof {
            assert(chroma_w >= 1 && chroma_h >= 1);
            assert(chroma_w <= w && chroma_h <= h);
            assert(chroma_w as int * chroma_h as int <= w * h) by (nonlinear_arith)
                requires
                    1 <= chroma_w <= w && 1 <= chroma_h <= h,
            ;
            assert((w * h) as int % w as int == 0) by {
                vstd::arithmetic::div_mod::lemma_mod_multiples_basic(h as int, w as int);
            }
            assert((chroma_w * chroma_h) as int % chroma_w as int == 0) by {
                vstd::arithmetic::div_mod::lemma_mod_multiples_basic(
                    chroma_h as int,
                    chroma_w as int,
                );
            }
        }
        let chroma_samples = chroma_w * chroma_h;
        let luma = zero_vec(luma_samples);
        let chroma_b = zero_vec(chroma_samples);
        let chroma_r = zero_vec(chroma_samples);
        DecodedPicture {
            picture_header,
            format,
            luma,
            chroma_b,
            chroma_r,
            luma_width: w,
            chroma_width: chroma_w,
        }
    }

    /// The header this picture was decoded with.
    pub fn as_header(&self) -> (r: &Picture)
        ensures
            *r == self.spec_header(),
    {
        &self.picture_header
    }

    /// The source format in force.
    pub fn format(&self) -> (r: SourceFormat)
        ensures
            r == self.spec_format(),
    {
        self.format
    }

    /// The luma samples in row-major order, `luma_samples_per_row` to a
    /// row.
    pub fn as_luma(&self) -> (r: &Vec<u8>)
        ensures
            r@ == self.spec_luma(),
    {
        &self.luma
    }

    /// How many luma samples each row holds.
    pub fn luma_samples_per_row(&self) -> (r: usize)
        ensures
            r as nat == self.spec_luma_width(),
    {
        self.luma_width
    }

    /// How many chroma samples each row holds.
    pub fn chroma_samples_per_row(&self) -> (r: usize)
        ensures
            r as nat == self.spec_chroma_width(),
    {
        self.chroma_width
    }

    /// The blue-difference chroma samples in row-major order.
    pub fn as_chroma_b(&self) -> (r: &Vec<u8>)
        ensures
            r@ == self.spec_chroma_b(),
    {
        &self.chroma_b
    }

    /// The red-difference chroma samples in row-major order.
    pub fn as_chroma_r(&self) -> (r: &Vec<u8>)
        ensures
            r@ == self.spec_chroma_r(),
    {
        &self.chroma_r
    }

    /// The public plane views name exactly the backing buffers; the
    /// sibling reconstruction stages reason through this link.
    pub(crate) proof fn lemma_plane_views(&self)
        ensures
            self.spec_luma() == self.luma@,
            self.spec_chroma_b() == self.chroma_b@,
            self.spec_chroma_r() == self.chroma_r@,
            self.spec_luma_width() == self.luma_width as nat,
            self.spec_chroma_width() == self.chroma_width as nat,
            self.spec_header() == self.picture_header,
            self.spec_format() == self.format,
    {
    }

    /// All three sample planes of the picture at once.
    pub fn as_yuv(&self) -> (r: (&Vec<u8>, &Vec<u8>, &Vec<u8>))
        ensures
            r.0@ == self.spec_luma(),
            r.1@ == self.spec_chroma_b(),
            r.2@ == self.spec_chroma_r(),
    {
        (&self.luma, &self.chroma_b, &self.chroma_r)
    }
}

/// A vector of `n` zero bytes.
fn zero_vec(n: usize) -> (r: Vec<u8>)
    ensures
        r@.len() == n,
        forall|i: int| 0 <= i < n ==> r@[i] == 0,
{
    let mut v: Vec<u8> = Vec::new();
    let mut i: usize = 0;
    while i < n
        invariant
            i <= n,
            v@.len() == i,
            forall|j: int| 0 <= j < i ==> v@[j] == 0,
        decreases n - i,
    {
        v.push(0);
        i += 1;
    }
    v
}

/// A decoded macroblock: its four luma blocks and two chroma blocks, each
/// an 8x8 tile in row-major order.
pub struct DecodedMacroblock {
    luma: [[u8; 64]; 4],
    chroma_b: [u8; 64],
    chroma_r: [u8; 64],
}

impl DecodedMacroblock {
    /// The four luma tiles.
    pub closed spec fn spec_luma(self) -> Seq<[u8; 64]> {
        self.luma@
    }

    /// The blue-difference tile.
    pub closed spec fn spec_chroma_b(self) -> [u8; 64] {
        self.chroma_b
    }

    /// The red-difference tile.
    pub closed spec fn spec_chroma_r(self) -> [u8; 64] {
        self.chroma_r
    }

    /// An all-zero macroblock.
    pub fn new() -> (r: Self)
        ensures
            forall|b: int, i: int| 0 <= b < 4 && 0 <= i < 64 ==> r.spec_luma()[b]@[i] == 0,
            forall|i: int|
                0 <= i < 64 ==> r.spec_chroma_b()@[i] == 0 && r.spec_chroma_r()@[i] == 0,
    {
        DecodedMacroblock { luma: [[0; 64]; 4], chroma_b: [0; 64], chroma_r: [0; 64] }
    }

    /// Borrow the luma tile at `index`.
    pub fn as_luma(&self, index: usize) -> (r: &[u8; 64])
        requires
            index < 4,
        ensures
            *r == self.spec_luma()[index as int],
    {
        &self.luma[index]
    }

    /// Borrow the blue-difference tile.
    pub fn as_chroma_b(&self) -> (r: &[u8; 64])
        ensures
            *r == self.spec_chroma_b(),
    {
        &self.chroma_b
    }

    /// Borrow the red-difference tile.
    pub fn as_chroma_r(&self) -> (r: &[u8; 64])
        ensures
            *r == self.spec_chroma_r(),
    {
        &self.chroma_r
    }
}

impl Default for DecodedMacroblock {
    /// The all-zero macroblock.
    fn default() -> (r: Self)
        ensures
            forall|b: int, i: int| 0 <= b < 4 && 0 <= i < 64 ==> r.spec_luma()[b]@[i] == 0,
            forall|i: int|
                0 <= i < 64 ==> r.spec_chroma_b()@[i] == 0 && r.spec_chroma_r()@[i] == 0,
    {
        DecodedMacroblock::new()
    }
}

/// One plane cell after an 8x8 tile is scattered at `pos`: the tile value
/// inside the written rectangle, the previous value outside it.
pub open spec fn scattered_cell(
    before: Seq<u8>,
    samples_per_row: int,
    pos: (int, int),
    tile: [u8; 64],
    i: int,
) -> u8
    recommends
        samples_per_row >= 1,
{
    let xi = i % samples_per_row;
    let yi = i / samples_per_row;
    if pos.0 <= xi < pos.0 + 8 && pos.1 <= yi < pos.1 + 8 {
        tile@[(xi - pos.0) + 8 * (yi - pos.1)]
    } else {
        before[i]
    }
}

/// A whole plane after an 8x8 tile is scattered at `pos`: every cell per
/// `scattered_cell`.
pub open spec fn scattered_plane(
    before: Seq<u8>,
    samples_per_row: int,
    pos: (int, int),
    tile: [u8; 64],
) -> Seq<u8>
    recommends
        samples_per_row >= 1,
{
    Seq::new(before.len(), |i: int| scattered_cell(before, samples_per_row, pos, tile, i))
}

/// Scatter an individual 8x8 tile into a plane at `pos`, clipping writes
/// that fall off the right or bottom of the plane.
pub fn scatter_block(
    pixel_data: &mut Vec<u8>,
    samples_per_row: usize,
    pos: (u16, u16),
    block_data: &[u8; 64],
)
    requires
        samples_per_row >= 1,
        samples_per_row <= 0x10000000,
        old(pixel_data)@.len() <= 0x10000000,
        old(pixel_data)@.len() % samples_per_row as nat == 0,
    ensures
        final(pixel_data)@.len() == old(pixel_data)@.len(),
        forall|i: int|
            0 <= i < old(pixel_data)@.len() ==> final(pixel_data)@[i] == scattered_cell(
                old(pixel_data)@,
                samples_per_row as int,
                (pos.0 as int, pos.1 as int),
                *block_data,
                i,
            ),
        final(pixel_data)@ == scattered_plane(
            old(pixel_data)@,
            samples_per_row as int,
            (pos.0 as int, pos.1 as int),
            *block_data,
        ),
{
    let ghost before = old(pixel_data)@;
    let ghost spr = samples_per_row as int;
    let ghost gpos = (pos.0 as int, pos.1 as int);
    let mut i: usize = 0;
    while i < pixel_data.len()
        invariant
            samples_per_row >= 1,
            spr == samples_per_row as int,
            gpos == (pos.0 as int, pos.1 as int),
            before == old(pixel_data)@,
            pixel_data@.len() == before.len(),
            i <= pixel_data@.len(),
            forall|j: int|
                0 <= j < i ==> #[trigger] pixel_data@[j] == scattered_cell(
                    before,
                    spr,
                    gpos,
                    *block_data,
                    j,
                ),
            forall|j: int| i <= j < pixel_data@.len() ==> #[trigger] pixel_data@[j] == before[j],
        decreases pixel_data@.len() - i,
    {
        let xi = i % samples_per_row;
        let yi = i / samples_per_row;
        if pos.0 as usize <= xi && xi < pos.0 as usize + 8 && pos.1 as usize <= yi && yi < pos.1
            as usize + 8 {
            let ti = (xi - pos.0 as usize) + 8 * (yi - pos.1 as usize);
            pixel_data.set(i, block_data[ti]);
        }
        i += 1;
    }
    proof {
        assert(pixel_data@ =~= scattered_plane(before, spr, gpos, *block_data));
    }
}

/// Copy a decoded macroblock's tiles back into a picture at macroblock
/// position `pos` (given in luma samples).
pub fn scatter(new_picture: &mut DecodedPicture, new_macroblock: &DecodedMacroblock, pos: (
    u16,
    u16,
))
    requires
        old(new_picture).wf(),
        pos.0 + 8 <= u16::MAX,
        pos.1 + 8 <= u16::MAX,
    ensures
        final(new_picture).wf(),
        final(new_picture).spec_header() == old(new_picture).spec_header(),
        final(new_picture).spec_format() == old(new_picture).spec_format(),
        final(new_picture).spec_luma_width() == old(new_picture).spec_luma_width(),
        final(new_picture).spec_chroma_width() == old(new_picture).spec_chroma_width(),
        // The four luma tiles land at the macroblock position and its
        // three 8-sample offsets, in block order, and the chroma tiles at
        // the halved position; every other pixel keeps its value (the
        // cell spec says so pointwise).
        ({
            let spr = old(new_picture).spec_luma_width() as int;
            let p = (pos.0 as int, pos.1 as int);
            final(new_picture).spec_luma() == scattered_plane(
                scattered_plane(
                    scattered_plane(
                        scattered_plane(
                            old(new_picture).spec_luma(),
                            spr,
                            p,
                            new_macroblock.spec_luma()[0],
                        ),
                        spr,
                        (p.0 + 8, p.1),
                        new_macroblock.spec_luma()[1],
                    ),
                    spr,
                    (p.0, p.1 + 8),
                    new_macroblock.spec_luma()[2],
                ),
                spr,
                (p.0 + 8, p.1 + 8),
                new_macroblock.spec_luma()[3],
            )
        }),
        final(new_picture).spec_chroma_b() == scattered_plane(
            old(new_picture).spec_chroma_b(),
            old(new_picture).spec_chroma_width() as int,
            (pos.0 as int / 2, pos.1 as int / 2),
            new_macroblock.spec_chroma_b(),
        ),
        final(new_picture).spec_chroma_r() == scattered_plane(
            old(new_picture).spec_chroma_r(),
            old(new_picture).spec_chroma_width() as int,
            (pos.0 as int / 2, pos.1 as int / 2),
            new_macroblock.spec_chroma_r(),
        ),
{
    proof {
        new_picture.lemma_plane_views();
    }
    let luma_samples_per_row = new_picture.luma_width;
    scatter_block(&mut new_picture.luma, luma_samples_per_row, pos, new_macroblock.as_luma(0));
    scatter_block(
        &mut new_picture.luma,
        luma_samples_per_row,
        (pos.0 + 8, pos.1),
        new_macroblock.as_luma(1),
    );
    scatter_block(
        &mut new_picture.luma,
        luma_samples_per_row,
        (pos.0, pos.1 + 8),
        new_macroblock.as_luma(2),
    );
    scatter_block(
        &mut new_picture.luma,
        luma_samples_per_row,
        (pos.0 + 8, pos.1 + 8),
        new_macroblock.as_luma(3),
    );
    let chroma_samples_per_row = new_picture.chroma_width;
    scatter_block(
        &mut new_picture.chroma_b,
        chroma_samples_per_row,
        (pos.0 / 2, pos.1 / 2),
        new_macroblock.as_chroma_b(),
    );
    scatter_block(
        &mut new_picture.chroma_r,
        chroma_samples_per_row,
        (pos.0 / 2, pos.1 / 2),
        new_macroblock.as_chroma_r(),
    );
    proof {
        new_picture.lemma_plane_views();
    }
}

} // verus!
