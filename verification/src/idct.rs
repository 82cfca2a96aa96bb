//! The integer stages of the inverse transform: the DC-only fast path,
//! and the clipped addition of residuals into the prediction planes. The
//! floating-point basis multiplication for blocks with AC coefficients is
//! left to the host, which hands the clipped residuals back for the
//! verified write-back.

use crate::error::Error;
use crate::rle::DecodedDctBlock;
use crate::types::{clamp, sign};
use vstd::prelude::*;

verus! {

/// The reconstruction value a DC-only block broadcasts into its 8x8
/// region before the prediction is added: the coefficient divided by
/// eight with round-half-away-from-zero, clipped to `[-256, 255]`.
pub open spec fn dc_reconstruction(d: int) -> int {
    clamp(
        sign(d) * (((if d >= 0 {
            d
        } else {
            -d
        }) + 4) / 8),
        -256,
        255,
    )
}

/// Compute the DC reconstruction value with machine integers.
pub fn idct_dc_value(dc: i16) -> (r: i16)
    requires
        -2048 <= dc <= 2047,
    ensures
        r as int == dc_reconstruction(dc as int),
        -256 <= r <= 255,
{
    let magnitude: i16 = if dc >= 0 {
        dc
    } else {
        -dc
    };
    let quotient: i16 = (magnitude + 4) / 8;
    let value: i16 = if dc >= 0 {
        quotient
    } else {
        -quotient
    };
    proof {
        let di = dc as int;
        let q = ((if di >= 0 {
            di
        } else {
            -di
        }) + 4) / 8;
        assert(0 <= q <= 256);
        assert(sign(di) * q == (if di > 0 {
            q
        } else if di < 0 {
            -q
        } else {
            q
        })) by (nonlinear_arith)
            requires
                q >= 0 && sign(di) == (if di > 0 {
                    1int
                } else if di < 0 {
                    -1int
                } else {
                    0int
                }) && (di == 0 ==> q == 0),
        ;
    }
    crate::types::clamp_i16(value, -256, 255)
}

/// Whether the coefficient blocks and supplied residual vectors fit the
/// integer write-back: every DC coefficient is in range, and every block
/// with AC content has 64 clipped residual values.
pub open spec fn residuals_valid(levels: Seq<DecodedDctBlock>, residuals: Seq<Seq<i16>>) -> bool {
    forall|b: int|
        0 <= b < levels.len() ==> match #[trigger] levels[b] {
            DecodedDctBlock::Zero => true,
            DecodedDctBlock::Dc(d) => -2048 <= d <= 2047,
            _ => residuals[b].len() == 64 && (forall|k: int|
                0 <= k < 64 ==> -2048 <= #[trigger] residuals[b][k] <= 2047),
        }
}

/// One plane cell after the integer stages of the inverse transform: the
/// cell's owning 8x8 block contributes nothing when empty, its DC
/// reconstruction value when DC-only, and its supplied residual
/// otherwise, each clamped into the sample range on top of the
/// prediction.
pub open spec fn idct_cell(
    before: Seq<u8>,
    levels: Seq<DecodedDctBlock>,
    residuals: Seq<Seq<i16>>,
    blk_per_line: int,
    i: int,
) -> u8
    recommends
        blk_per_line >= 1,
{
    let spr = 8 * blk_per_line;
    let xi = i % spr;
    let yi = i / spr;
    let b = xi / 8 + (yi / 8) * blk_per_line;
    if 0 <= b < levels.len() {
        match levels[b] {
            DecodedDctBlock::Zero => before[i],
            DecodedDctBlock::Dc(d) => clamp(before[i] + dc_reconstruction(d as int), 0, 255) as u8,
            _ => clamp(before[i] + residuals[b][(xi % 8) + 8 * (yi % 8)], 0, 255) as u8,
        }
    } else {
        before[i]
    }
}

/// Apply the integer stages of the inverse transform across a plane: the
/// empty blocks contribute nothing, the DC-only blocks broadcast their
/// reconstruction value, and the blocks with AC coefficients add the
/// residuals supplied for them (one vector of 64 clipped values per
/// block, computed by the host's basis multiplication from exactly these
/// coefficient levels). A missing or out-of-range residual vector for a
/// block that needs one is an internal decoder error, found before any
/// sample is written.
pub fn idct_channel(
    block_levels: &Vec<DecodedDctBlock>,
    residuals: &Vec<Vec<i16>>,
    output: &mut Vec<u8>,
    blk_per_line: usize,
) -> (r: Result<(), Error>)
    requires
        blk_per_line >= 1,
        blk_per_line <= 0x1000,
        residuals@.len() == block_levels@.len(),
        block_levels@.len() <= 0x1000000,
        old(output)@.len() <= 0x10000000,
    ensures
        final(output)@.len() == old(output)@.len(),
        r is Ok <==> residuals_valid(
            block_levels@,
            residuals@.map_values(|v: Vec<i16>| v@),
        ),
        r is Err ==> r == Result::<(), Error>::Err(Error::InternalDecoderError) && final(output)@
            == old(output)@,
        r is Ok ==> forall|i: int|
            0 <= i < old(output)@.len() ==> final(output)@[i] == idct_cell(
                old(output)@,
                block_levels@,
                residuals@.map_values(|v: Vec<i16>| v@),
                blk_per_line as int,
                i,
            ),
{
    let ghost glevels = block_levels@;
    let ghost gres = residuals@.map_values(|v: Vec<i16>| v@);
    // First pass: validate every block's data before touching a sample.
    let mut b: usize = 0;
    while b < block_levels.len()
        invariant
            glevels == block_levels@,
            gres == residuals@.map_values(|v: Vec<i16>| v@),
            residuals@.len() == block_levels@.len(),
            output@.len() == old(output)@.len(),
            output@ == old(output)@,
            b <= block_levels@.len(),
            forall|j: int|
                0 <= j < b ==> match #[trigger] glevels[j] {
                    DecodedDctBlock::Zero => true,
                    DecodedDctBlock::Dc(d) => -2048 <= d <= 2047,
                    _ => gres[j].len() == 64 && (forall|k: int|
                        0 <= k < 64 ==> -2048 <= #[trigger] gres[j][k] <= 2047),
                },
        decreases block_levels@.len() - b,
    {
        match &block_levels[b] {
            DecodedDctBlock::Zero => {},
            DecodedDctBlock::Dc(d) => {
                if !(-2048 <= *d && *d <= 2047) {
                    proof {
                        assert(!residuals_valid(glevels, gres)) by {
                            assert(glevels[b as int] is Dc);
                        }
                    }
                    return Err(Error::InternalDecoderError);
                }
            },
            _ => {
                let residual = &residuals[b];
                if residual.len() != 64 {
                    proof {
                        assert(!residuals_valid(glevels, gres)) by {
                            assert(gres[b as int].len() != 64);
                        }
                    }
                    return Err(Error::InternalDecoderError);
                }
                let mut k: usize = 0;
                while k < 64
                    invariant
                        glevels == block_levels@,
                        gres == residuals@.map_values(|v: Vec<i16>| v@),
                        residuals@.len() == block_levels@.len(),
                        residual@.len() == 64,
                        residual@ == gres[b as int],
                        0 <= b < gres.len(),
                        b < glevels.len(),
                        !(glevels[b as int] is Zero),
                        !(glevels[b as int] is Dc),
                        k <= 64,
                        output@ == old(output)@,
                        forall|j: int| 0 <= j < k ==> -2048 <= #[trigger] residual@[j] <= 2047,
                    decreases 64 - k,
                {
                    let v = residual[k];
                    if v < -2048 || v > 2047 {
                        proof {
                            assert(!(-2048 <= gres[b as int][k as int] <= 2047));
                            if residuals_valid(glevels, gres) {
                                assert(match glevels[b as int] {
                                    DecodedDctBlock::Zero => true,
                                    DecodedDctBlock::Dc(d) => -2048 <= d <= 2047,
                                    _ => gres[b as int].len() == 64 && (forall|kk: int|
                                        0 <= kk < 64 ==> -2048 <= #[trigger] gres[b as int][kk]
                                            <= 2047),
                                });
                                assert(false);
                            }
                        }
                        return Err(Error::InternalDecoderError);
                    }
                    k += 1;
                }
            },
        }
        b += 1;
    }
    // Second pass: reconstruct each sample from its owning block.
    let samples_per_row = blk_per_line * 8;
    let ghost before = output@;
    let mut i: usize = 0;
    while i < output.len()
        invariant
            glevels == block_levels@,
            gres == residuals@.map_values(|v: Vec<i16>| v@),
            residuals@.len() == block_levels@.len(),
            block_levels@.len() <= 0x1000000,
            blk_per_line >= 1,
            blk_per_line <= 0x1000,
            samples_per_row == blk_per_line * 8,
            before == old(output)@,
            output@.len() == before.len(),
            output@.len() <= 0x10000000,
            i <= output@.len(),
            residuals_valid(glevels, gres),
            forall|j: int|
                0 <= j < i ==> #[trigger] output@[j] == idct_cell(
                    before,
                    glevels,
                    gres,
                    blk_per_line as int,
                    j,
                ),
            forall|j: int| i <= j < output@.len() ==> #[trigger] output@[j] == before[j],
        decreases output@.len() - i,
    {
        let xi = i % samples_per_row;
        let yi = i / samples_per_row;
        let bx = xi / 8;
        let by = yi / 8;
        proof {
            lemma_owner_block(
                i as int,
                output@.len() as int,
                blk_per_line as int,
                glevels.len() as int,
            );
        }
        if by <= block_levels.len() / blk_per_line {
            let owner = bx + by * blk_per_line;
            if owner < block_levels.len() {
                match &block_levels[owner] {
                    DecodedDctBlock::Zero => {},
                    DecodedDctBlock::Dc(d) => {
                        let value = idct_dc_value(*d);
                        let summed: i16 = output[i] as i16 + value;
                        let clamped = crate::types::clamp_i16(summed, 0, 255);
                        output.set(i, clamped as u8);
                    },
                    _ => {
                        let residual = &residuals[owner];
                        let ri = (xi % 8) + 8 * (yi % 8);
                        proof {
                            assert(gres[owner as int].len() == 64 && -2048 <= gres[owner as int][ri as int] <= 2047);
                        }
                        let summed: i16 = output[i] as i16 + residual[ri];
                        let clamped = crate::types::clamp_i16(summed, 0, 255);
                        output.set(i, clamped as u8);
                    },
                }
            }
        }
        i += 1;
    }
    Ok(())
}

/// The arithmetic that ties a sample to its owning coefficient block: the
/// in-plane guard by block row is exactly the owner index being inside
/// the block list, and the products stay within the machine.
proof fn lemma_owner_block(i: int, len: int, bpl: int, nblocks: int)
    requires
        1 <= bpl <= 0x1000,
        0 <= i < len,
        len <= 0x10000000,
        0 <= nblocks <= 0x1000000,
    ensures
        ({
            let spr = 8 * bpl;
            let xi = i % spr;
            let yi = i / spr;
            &&& 0 <= xi < spr
            &&& 0 <= yi
            &&& 0 <= xi / 8 < bpl
            &&& 0 <= yi % 8 < 8
            &&& (xi % 8) + 8 * (yi % 8) < 64
            &&& (yi / 8 <= nblocks / bpl ==> (yi / 8) * bpl <= nblocks)
            &&& (yi / 8 > nblocks / bpl ==> xi / 8 + (yi / 8) * bpl >= nblocks)
        }),
{
    let spr = 8 * bpl;
    vstd::arithmetic::div_mod::lemma_fundamental_div_mod(i, spr);
    let xi = i % spr;
    let yi = i / spr;
    assert(0 <= xi < spr);
    assert(yi >= 0) by (nonlinear_arith)
        requires
            i == spr * yi + xi && 0 <= xi < spr && i >= 0 && spr >= 8,
    ;
    vstd::arithmetic::div_mod::lemma_fundamental_div_mod(xi, 8);
    assert(xi / 8 < bpl) by (nonlinear_arith)
        requires
            xi == 8 * (xi / 8) + xi % 8 && 0 <= xi % 8 < 8 && xi < 8 * bpl,
    ;
    assert(xi / 8 >= 0) by (nonlinear_arith)
        requires
            xi == 8 * (xi / 8) + xi % 8 && 0 <= xi % 8 < 8 && xi >= 0,
    ;
    vstd::arithmetic::div_mod::lemma_fundamental_div_mod(yi, 8);
    let by = yi / 8;
    assert(by >= 0) by (nonlinear_arith)
        requires
            yi == 8 * by + yi % 8 && 0 <= yi % 8 < 8 && yi >= 0,
    ;
    vstd::arithmetic::div_mod::lemma_fundamental_div_mod(nblocks, bpl);
    if by <= nblocks / bpl {
        assert(by * bpl <= (nblocks / bpl) * bpl) by (nonlinear_arith)
            requires
                by <= nblocks / bpl && bpl >= 1,
        ;
        assert((nblocks / bpl) * bpl <= nblocks) by (nonlinear_arith)
            requires
                nblocks == bpl * (nblocks / bpl) + nblocks % bpl && nblocks % bpl >= 0,
        ;
    } else {
        assert(by * bpl >= (nblocks / bpl + 1) * bpl) by (nonlinear_arith)
            requires
                by >= nblocks / bpl + 1 && bpl >= 1,
        ;
        assert((nblocks / bpl + 1) * bpl >= nblocks) by (nonlinear_arith)
            requires
                nblocks == bpl * (nblocks / bpl) + nblocks % bpl && nblocks % bpl < bpl,
        ;
        assert(xi / 8 >= 0);
    }
}

} // verus!
