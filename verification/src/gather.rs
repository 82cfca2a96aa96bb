//! Motion-compensated prediction: gathering block data from a reference
//! picture with edge clamping and half-pel bilinear interpolation.

use crate::decoded::DecodedPicture;
use crate::error::Error;
use crate::types::{clamp, MacroblockType, MotionVector};
use vstd::prelude::*;

verus! {

/// The reference sample at `(x, y)`, with out-of-bounds coordinates
/// clipped to the last in-bounds column and row, as H.263 (01/2005) D.1
/// prescribes for motion vectors that cross picture boundaries.
pub open spec fn sample_clamped(plane: Seq<u8>, spr: int, rows: int, x: int, y: int) -> u8
    recommends
        spr >= 1,
        rows >= 1,
        plane.len() == spr * rows,
{
    plane[clamp(x, 0, spr - 1) + clamp(y, 0, rows - 1) * spr]
}

/// One predicted sample: the clamped reference sample at `(u, v)`,
/// averaged with its right, lower, or diagonal neighbours per the
/// interpolation flags. Both-axis interpolation rounds once at the end.
pub open spec fn gathered_sample(
    plane: Seq<u8>,
    spr: int,
    rows: int,
    u: int,
    v: int,
    x_interp: bool,
    y_interp: bool,
) -> int {
    let s00 = sample_clamped(plane, spr, rows, u, v) as int;
    let s10 = sample_clamped(plane, spr, rows, u + 1, v) as int;
    let s01 = sample_clamped(plane, spr, rows, u, v + 1) as int;
    let s11 = sample_clamped(plane, spr, rows, u + 1, v + 1) as int;
    if x_interp && y_interp {
        (s00 + s10 + s01 + s11 + 2) / 4
    } else if x_interp {
        (s00 + s10 + 1) / 2
    } else if y_interp {
        (s00 + s01 + 1) / 2
    } else {
        s00
    }
}

/// Whether the macroblock type takes its content from the reference
/// picture.
pub open spec fn is_inter_type(t: MacroblockType) -> bool {
    t == MacroblockType::Inter || t == MacroblockType::InterQ || t == MacroblockType::Inter4V || t
        == MacroblockType::Inter4Vq
}

/// The sum of four motion vector components rounded to half-pel accuracy
/// per the table of H.263 6.1.1.
pub open spec fn rounded_average(s: int) -> int {
    let whole = 2 * (s / 16);
    let frac = s % 16;
    if frac <= 2 {
        whole
    } else if frac >= 14 {
        whole + 2
    } else {
        whole + 1
    }
}

/// The averaged chroma motion vector of a macroblock's four luma
/// vectors, component-wise.
pub open spec fn averaged_mv(mvs4: [MotionVector; 4]) -> (int, int) {
    (
        rounded_average(
            mvs4@[0].0.value() + mvs4@[1].0.value() + mvs4@[2].0.value() + mvs4@[3].0.value(),
        ),
        rounded_average(
            mvs4@[0].1.value() + mvs4@[1].1.value() + mvs4@[2].1.value() + mvs4@[3].1.value(),
        ),
    )
}

/// One luma cell after motion compensation: cells of inter macroblocks
/// take the reference sample displaced by their own 8x8 block's motion
/// vector (block 0 top-left, 1 top-right, 2 bottom-left, 3 bottom-right),
/// half-pel fractions interpolating with the neighbour samples; all
/// other cells keep their value.
pub open spec fn luma_gathered_cell(
    before: Seq<u8>,
    reference: Seq<u8>,
    mb_per_line: int,
    mb_types: Seq<MacroblockType>,
    mvs: Seq<[MotionVector; 4]>,
    i: int,
) -> u8
    recommends
        mb_per_line >= 1,
{
    let spr = 16 * mb_per_line;
    let rows = before.len() as int / spr;
    let xi = i % spr;
    let yi = i / spr;
    let m = xi / 16 + (yi / 16) * mb_per_line;
    if 0 <= m < mb_types.len() && is_inter_type(mb_types[m]) {
        let j = (xi % 16) / 8 + 2 * ((yi % 16) / 8);
        let mv = mvs[m]@[j];
        gathered_sample(
            reference,
            spr,
            rows,
            xi + mv.0.value() / 2,
            yi + mv.1.value() / 2,
            mv.0.value() % 2 != 0,
            mv.1.value() % 2 != 0,
        ) as u8
    } else {
        before[i]
    }
}

/// One chroma cell after motion compensation: cells of inter macroblocks
/// take the reference sample displaced by the macroblock's averaged
/// chroma motion vector.
pub open spec fn chroma_gathered_cell(
    before: Seq<u8>,
    reference: Seq<u8>,
    mb_per_line: int,
    mb_types: Seq<MacroblockType>,
    mvs: Seq<[MotionVector; 4]>,
    i: int,
) -> u8
    recommends
        mb_per_line >= 1,
{
    let spr = 8 * mb_per_line;
    let rows = before.len() as int / spr;
    let xi = i % spr;
    let yi = i / spr;
    let m = xi / 8 + (yi / 8) * mb_per_line;
    if 0 <= m < mb_types.len() && is_inter_type(mb_types[m]) {
        let mv = averaged_mv(mvs[m]);
        gathered_sample(
            reference,
            spr,
            rows,
            xi + mv.0 / 2,
            yi + mv.1 / 2,
            mv.0 % 2 != 0,
            mv.1 % 2 != 0,
        ) as u8
    } else {
        before[i]
    }
}

/// Read one clamped sample from a reference plane.
fn read_sample(pixel_array: &Vec<u8>, samples_per_row: usize, num_rows: usize, x: i64, y: i64) -> (r:
    u8)
    requires
        samples_per_row >= 1,
        samples_per_row <= 0x10000000,
        num_rows <= 0x10000000,
        num_rows >= 1,
        pixel_array@.len() == samples_per_row as int * num_rows as int,
        pixel_array@.len() <= 0x10000000,
        -0x12000000 <= x <= 0x12000000,
        -0x12000000 <= y <= 0x12000000,
    ensures
        r == sample_clamped(
            pixel_array@,
            samples_per_row as int,
            num_rows as int,
            x as int,
            y as int,
        ),
{
    let cx: usize = if x < 0 {
        0
    } else if x >= samples_per_row as i64 {
        samples_per_row - 1
    } else {
        x as usize
    };
    let cy: usize = if y < 0 {
        0
    } else if y >= num_rows as i64 {
        num_rows - 1
    } else {
        y as usize
    };
    proof {
        assert(cx as int == clamp(x as int, 0, samples_per_row as int - 1));
        assert(cy as int == clamp(y as int, 0, num_rows as int - 1));
        assert((cx as int) + (cy as int) * (samples_per_row as int) < (samples_per_row as int)
            * (num_rows as int)) by (nonlinear_arith)
            requires
                0 <= cx as int && (cx as int) < samples_per_row as int && 0 <= cy as int && (cy
                    as int) < num_rows as int,
        ;
        assert((cy as int) * (samples_per_row as int) >= 0) by (nonlinear_arith)
            requires
                cy as int >= 0 && samples_per_row as int >= 1,
        ;
    }
    pixel_array[cx + cy * samples_per_row]
}

/// One gathered sample with machine integers: up to four clamped
/// reference reads, averaged per the half-pel interpolation flags.
fn gather_sample(
    reference: &Vec<u8>,
    samples_per_row: usize,
    num_rows: usize,
    u: i64,
    v: i64,
    x_interp: bool,
    y_interp: bool,
) -> (r: u8)
    requires
        samples_per_row >= 1,
        samples_per_row <= 0x10000000,
        num_rows >= 1,
        num_rows <= 0x10000000,
        reference@.len() == samples_per_row as int * num_rows as int,
        reference@.len() <= 0x10000000,
        -0x11000000 <= u <= 0x11000000,
        -0x11000000 <= v <= 0x11000000,
    ensures
        r as int == gathered_sample(
            reference@,
            samples_per_row as int,
            num_rows as int,
            u as int,
            v as int,
            x_interp,
            y_interp,
        ),
{
    let s00 = read_sample(reference, samples_per_row, num_rows, u, v);
    if x_interp && y_interp {
        let s10 = read_sample(reference, samples_per_row, num_rows, u + 1, v);
        let s01 = read_sample(reference, samples_per_row, num_rows, u, v + 1);
        let s11 = read_sample(reference, samples_per_row, num_rows, u + 1, v + 1);
        let sum = s00 as u32 + s10 as u32 + s01 as u32 + s11 as u32 + 2;
        (sum / 4) as u8
    } else if x_interp {
        let s10 = read_sample(reference, samples_per_row, num_rows, u + 1, v);
        let sum = s00 as u32 + s10 as u32 + 1;
        (sum / 2) as u8
    } else if y_interp {
        let s01 = read_sample(reference, samples_per_row, num_rows, u, v + 1);
        let sum = s00 as u32 + s01 as u32 + 1;
        (sum / 2) as u8
    } else {
        s00
    }
}

/// Gather one whole plane: every cell owned by an inter macroblock takes
/// its motion-compensated reference sample, the rest stay.
#[verifier::rlimit(100)]
fn gather_plane(
    target: &mut Vec<u8>,
    reference: &Vec<u8>,
    mb_size: usize,
    mb_per_line: usize,
    mb_types: &Vec<MacroblockType>,
    mvs: &Vec<[MotionVector; 4]>,
)
    requires
        mb_per_line >= 1,
        mb_per_line <= 0x1000,
        mb_size == 8 || mb_size == 16,
        mvs@.len() == mb_types@.len(),
        mb_types@.len() <= 0x1000000,
        reference@.len() == old(target)@.len(),
        old(target)@.len() % (mb_size * mb_per_line) as nat == 0,
        old(target)@.len() > 0,
        old(target)@.len() <= 0x10000000,
        forall|k: int, b: int|
            0 <= k < mvs@.len() && 0 <= b < 4 ==> crate::mvd_pred::mv_bounded(
                #[trigger] mvs@[k]@[b],
                8192,
            ),
    ensures
        final(target)@.len() == old(target)@.len(),
        mb_size == 16 ==> forall|i: int|
            0 <= i < old(target)@.len() ==> #[trigger] final(target)@[i] == luma_gathered_cell(
                old(target)@,
                reference@,
                mb_per_line as int,
                mb_types@,
                mvs@,
                i,
            ),
        mb_size == 8 ==> forall|i: int|
            0 <= i < old(target)@.len() ==> #[trigger] final(target)@[i] == chroma_gathered_cell(
                old(target)@,
                reference@,
                mb_per_line as int,
                mb_types@,
                mvs@,
                i,
            ),
{
    let ghost before = target@;
    let spr = mb_size * mb_per_line;
    let num_rows = target.len() / spr;
    proof {
        vstd::arithmetic::div_mod::lemma_fundamental_div_mod(target@.len() as int, spr as int);
        assert(num_rows >= 1) by (nonlinear_arith)
            requires
                target@.len() as int == spr as int * num_rows as int && target@.len() > 0,
        ;
    }
    proof {
        vstd::arithmetic::div_mod::lemma_fundamental_div_mod_converse(
            target@.len() as int,
            spr as int,
            num_rows as int,
            0,
        );
    }
    let mut i: usize = 0;
    while i < target.len()
        invariant
            mb_per_line >= 1,
            mb_per_line <= 0x1000,
            mb_size == 8 || mb_size == 16,
            spr == mb_size * mb_per_line,
            num_rows >= 1,
            num_rows <= 0x10000000,
            before == old(target)@,
            reference@.len() == before.len(),
            reference@.len() == spr as int * num_rows as int,
            num_rows as int == before.len() as int / spr as int,
            reference@.len() <= 0x10000000,
            target@.len() == before.len(),
            mvs@.len() == mb_types@.len(),
            mb_types@.len() <= 0x1000000,
            i <= target@.len(),
            forall|k: int, b: int|
                0 <= k < mvs@.len() && 0 <= b < 4 ==> crate::mvd_pred::mv_bounded(
                    #[trigger] mvs@[k]@[b],
                    8192,
                ),
            forall|j: int|
                0 <= j < i && mb_size == 16 ==> #[trigger] target@[j] == luma_gathered_cell(
                    before,
                    reference@,
                    mb_per_line as int,
                    mb_types@,
                    mvs@,
                    j,
                ),
            forall|j: int|
                0 <= j < i && mb_size == 8 ==> #[trigger] target@[j] == chroma_gathered_cell(
                    before,
                    reference@,
                    mb_per_line as int,
                    mb_types@,
                    mvs@,
                    j,
                ),
            forall|j: int| i <= j < target@.len() ==> #[trigger] target@[j] == before[j],
        decreases target@.len() - i,
    {
        let xi = i % spr;
        let yi = i / spr;
        let bx = xi / mb_size;
        let by = yi / mb_size;
        proof {
            lemma_owner_macroblock(
                i as int,
                target@.len() as int,
                mb_size as int,
                mb_per_line as int,
                mb_types@.len() as int,
            );
        }
        if by <= mb_types.len() / mb_per_line {
            let m = bx + by * mb_per_line;
            if m < mb_types.len() {
                if mb_types[m].is_inter() {
                    let mvs4 = mvs[m];
                    proof {
                        assert(crate::mvd_pred::mv_bounded(mvs@[m as int]@[0], 8192));
                        assert(crate::mvd_pred::mv_bounded(mvs@[m as int]@[1], 8192));
                        assert(crate::mvd_pred::mv_bounded(mvs@[m as int]@[2], 8192));
                        assert(crate::mvd_pred::mv_bounded(mvs@[m as int]@[3], 8192));
                    }
                    let mv: MotionVector = if mb_size == 16 {
                        let j = (xi % 16) / 8 + 2 * ((yi % 16) / 8);
                        mvs4[j]
                    } else {
                        let sum = mvs4[0].plus(mvs4[1]).plus(mvs4[2]).plus(mvs4[3]);
                        let avg = sum.average_sum_of_mvs();
                        proof {
                            lemma_rounded_average_matches(sum.0.value());
                            lemma_rounded_average_matches(sum.1.value());
                        }
                        avg
                    };
                    let ((xd, x_interp), (yd, y_interp)) = mv.into_lerp_parameters();
                    let value = gather_sample(
                        reference,
                        spr,
                        num_rows,
                        xi as i64 + xd as i64,
                        yi as i64 + yd as i64,
                        x_interp,
                        y_interp,
                    );
                    target.set(i, value);
                }
            }
        }
        proof {
            let gi = i as int;
            if mb_size == 16 {
                assert(target@[gi] == luma_gathered_cell(
                    before,
                    reference@,
                    mb_per_line as int,
                    mb_types@,
                    mvs@,
                    gi,
                ));
            } else {
                assert(target@[gi] == chroma_gathered_cell(
                    before,
                    reference@,
                    mb_per_line as int,
                    mb_types@,
                    mvs@,
                    gi,
                ));
            }
        }
        i += 1;
    }
}

/// Rounding the sum of four bounded components per the table matches the
/// spec-level average.
proof fn lemma_rounded_average_matches(s: int)
    requires
        -32767 <= s <= 32767,
    ensures
        rounded_average(s) == crate::types::HalfPel((s as i16)).spec_average_sum(),
        -8190 < rounded_average(s) < 8190,
{
    vstd::arithmetic::div_mod::lemma_fundamental_div_mod(s, 16);
    let q = s / 16;
    assert(-2048 <= q <= 2048) by (nonlinear_arith)
        requires
            s == 16 * q + s % 16 && 0 <= s % 16 < 16 && -32767 <= s <= 32767,
    ;
}

/// The arithmetic that ties a cell to its owning macroblock: the guard by
/// block row matches the owner index being inside the macroblock list,
/// and the coordinates stay within the machine.
proof fn lemma_owner_macroblock(i: int, len: int, mb_size: int, mbl: int, nmbs: int)
    requires
        1 <= mbl <= 0x1000,
        mb_size == 8 || mb_size == 16,
        0 <= i < len,
        len <= 0x10000000,
        0 <= nmbs <= 0x1000000,
    ensures
        ({
            let spr = mb_size * mbl;
            let xi = i % spr;
            let yi = i / spr;
            &&& 0 <= xi < spr
            &&& 0 <= yi
            &&& 0 <= xi / mb_size < mbl
            &&& 0 <= (xi % 16) / 8 <= 1
            &&& 0 <= (yi % 16) / 8 <= 1
            &&& (xi % 16) / 8 + 2 * ((yi % 16) / 8) < 4
            &&& (yi / mb_size <= nmbs / mbl ==> (yi / mb_size) * mbl <= nmbs)
            &&& (yi / mb_size > nmbs / mbl ==> xi / mb_size + (yi / mb_size) * mbl >= nmbs)
        }),
{
    let spr = mb_size * mbl;
    vstd::arithmetic::div_mod::lemma_fundamental_div_mod(i, spr);
    let xi = i % spr;
    let yi = i / spr;
    assert(yi >= 0) by (nonlinear_arith)
        requires
            i == spr * yi + xi && 0 <= xi < spr && i >= 0 && spr >= 8,
    ;
    vstd::arithmetic::div_mod::lemma_fundamental_div_mod(xi, mb_size);
    assert(xi / mb_size < mbl) by (nonlinear_arith)
        requires
            xi == mb_size * (xi / mb_size) + xi % mb_size && 0 <= xi % mb_size < mb_size && xi
                < mb_size * mbl,
    ;
    assert(xi / mb_size >= 0) by (nonlinear_arith)
        requires
            xi == mb_size * (xi / mb_size) + xi % mb_size && 0 <= xi % mb_size < mb_size && xi
                >= 0,
    ;
    vstd::arithmetic::div_mod::lemma_fundamental_div_mod(xi % 16, 8);
    vstd::arithmetic::div_mod::lemma_fundamental_div_mod(yi % 16, 8);
    vstd::arithmetic::div_mod::lemma_fundamental_div_mod(yi, mb_size);
    let by = yi / mb_size;
    assert(by >= 0) by (nonlinear_arith)
        requires
            yi == mb_size * by + yi % mb_size && 0 <= yi % mb_size < mb_size && yi >= 0,
    ;
    vstd::arithmetic::div_mod::lemma_fundamental_div_mod(nmbs, mbl);
    if by <= nmbs / mbl {
        assert(by * mbl <= (nmbs / mbl) * mbl) by (nonlinear_arith)
            requires
                by <= nmbs / mbl && mbl >= 1,
        ;
        assert((nmbs / mbl) * mbl <= nmbs) by (nonlinear_arith)
            requires
                nmbs == mbl * (nmbs / mbl) + nmbs % mbl && nmbs % mbl >= 0,
        ;
    } else {
        assert(by * mbl >= (nmbs / mbl + 1) * mbl) by (nonlinear_arith)
            requires
                by >= nmbs / mbl + 1 && mbl >= 1,
        ;
        assert((nmbs / mbl + 1) * mbl >= nmbs) by (nonlinear_arith)
            requires
                nmbs == mbl * (nmbs / mbl) + nmbs % mbl && nmbs % mbl < mbl,
        ;
    }
}

/// Copy pixels from a previously decoded reference picture into a new
/// picture, macroblock by macroblock.
///
/// `INTER` macroblocks take their luma from the reference picture offset
/// by their decoded motion vectors and their chroma offset by the rounded
/// average vector; `INTRA` macroblocks contribute nothing here, as their
/// content comes wholly from the inverse transform. Decoding any inter
/// macroblock without a reference picture in hand is the error of an
/// I-frame with uncoded blocks, raised before any sample is written.
pub fn gather(
    mb_types: &Vec<MacroblockType>,
    reference_picture: Option<&DecodedPicture>,
    mvs: &Vec<[MotionVector; 4]>,
    mb_per_line: usize,
    new_picture: &mut DecodedPicture,
) -> (r: Result<(), Error>)
    requires
        old(new_picture).wf(),
        mvs@.len() == mb_types@.len(),
        mb_per_line >= 1,
        mb_per_line <= 0x1000,
        old(new_picture).spec_luma_width() == 16 * mb_per_line,
        old(new_picture).spec_chroma_width() == 8 * mb_per_line,
        old(new_picture).spec_luma().len() > 0,
        old(new_picture).spec_chroma_b().len() > 0,
        mb_types@.len() * 256 <= old(new_picture).spec_luma().len(),
        old(new_picture).spec_chroma_b().len() * 4 == old(new_picture).spec_luma().len(),
        (match reference_picture {
            Some(rp) => rp.wf() && rp.spec_luma().len() == old(new_picture).spec_luma().len()
                && rp.spec_luma_width() == old(new_picture).spec_luma_width()
                && rp.spec_chroma_b().len() == old(new_picture).spec_chroma_b().len()
                && rp.spec_chroma_r().len() == old(new_picture).spec_chroma_r().len()
                && rp.spec_chroma_width() == old(new_picture).spec_chroma_width(),
            None => true,
        }),
        forall|k: int, b: int|
            0 <= k < mvs@.len() && 0 <= b < 4 ==> crate::mvd_pred::mv_bounded(
                #[trigger] mvs@[k]@[b],
                8192,
            ),
    ensures
        final(new_picture).wf(),
        final(new_picture).spec_header() == old(new_picture).spec_header(),
        final(new_picture).spec_format() == old(new_picture).spec_format(),
        final(new_picture).spec_luma().len() == old(new_picture).spec_luma().len(),
        final(new_picture).spec_chroma_b().len() == old(new_picture).spec_chroma_b().len(),
        final(new_picture).spec_chroma_r().len() == old(new_picture).spec_chroma_r().len(),
        final(new_picture).spec_luma_width() == old(new_picture).spec_luma_width(),
        final(new_picture).spec_chroma_width() == old(new_picture).spec_chroma_width(),
        r is Err <==> (reference_picture is None && exists|k: int|
            0 <= k < mb_types@.len() && is_inter_type(#[trigger] mb_types@[k])),
        r is Err ==> r == Result::<(), Error>::Err(Error::UncodedIFrameBlocks) && final(new_picture).spec_luma() == old(new_picture).spec_luma() && final(new_picture).spec_chroma_b() == old(new_picture).spec_chroma_b() && final(new_picture).spec_chroma_r() == old(new_picture).spec_chroma_r(),
        reference_picture matches Some(rp) ==> (r is Ok ==> ((forall|i: int|
            0 <= i < old(new_picture).spec_luma().len()
                ==> #[trigger] final(new_picture).spec_luma()[i] == luma_gathered_cell(
                old(new_picture).spec_luma(),
                rp.spec_luma(),
                mb_per_line as int,
                mb_types@,
                mvs@,
                i,
            )) && (forall|i: int|
            0 <= i < old(new_picture).spec_chroma_b().len()
                ==> #[trigger] final(new_picture).spec_chroma_b()[i] == chroma_gathered_cell(
                old(new_picture).spec_chroma_b(),
                rp.spec_chroma_b(),
                mb_per_line as int,
                mb_types@,
                mvs@,
                i,
            )) && (forall|i: int|
            0 <= i < old(new_picture).spec_chroma_r().len()
                ==> #[trigger] final(new_picture).spec_chroma_r()[i] == chroma_gathered_cell(
                old(new_picture).spec_chroma_r(),
                rp.spec_chroma_r(),
                mb_per_line as int,
                mb_types@,
                mvs@,
                i,
            )))),
        (r is Ok && reference_picture is None) ==> (final(new_picture).spec_luma() == old(new_picture).spec_luma() && final(new_picture).spec_chroma_b() == old(new_picture).spec_chroma_b() && final(new_picture).spec_chroma_r() == old(new_picture).spec_chroma_r()),
{
    // First pass: an inter macroblock without a reference picture is an
    // error, found before any sample is written.
    let mut k: usize = 0;
    while k < mb_types.len()
        invariant
            k <= mb_types@.len(),
            forall|j: int| 0 <= j < k ==> !is_inter_type(#[trigger] mb_types@[j]),
        ensures
            k <= mb_types@.len(),
            forall|j: int| 0 <= j < k ==> !is_inter_type(#[trigger] mb_types@[j]),
            k < mb_types@.len() ==> is_inter_type(mb_types@[k as int]),
        decreases mb_types@.len() - k,
    {
        if mb_types[k].is_inter() {
            break ;
        }
        k += 1;
    }
    let any_inter = k < mb_types.len();
    let reference = match reference_picture {
        Some(rp) => {
            if !any_inter {
                // Nothing to gather.
                return Ok(());
            }
            rp
        },
        None => {
            if any_inter {
                return Err(Error::UncodedIFrameBlocks);
            }
            return Ok(());
        },
    };
    proof {
        new_picture.lemma_plane_views();
        reference.lemma_plane_views();
    }
    gather_plane(
        &mut new_picture.luma,
        reference.as_luma(),
        16,
        mb_per_line,
        mb_types,
        mvs,
    );
    proof {
        new_picture.lemma_plane_views();
    }
    gather_plane(
        &mut new_picture.chroma_b,
        reference.as_chroma_b(),
        8,
        mb_per_line,
        mb_types,
        mvs,
    );
    proof {
        new_picture.lemma_plane_views();
    }
    gather_plane(
        &mut new_picture.chroma_r,
        reference.as_chroma_r(),
        8,
        mb_per_line,
        mb_types,
        mvs,
    );
    proof {
        new_picture.lemma_plane_views();
    }
    Ok(())
}

} // verus!
