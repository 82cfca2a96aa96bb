//! A deblocking filter in the style of ITU-T H.263 Annex J, applied as a
//! postprocessing step rather than as a loop filter.

use crate::types::{clamp, sign, tdiv};
use vstd::prelude::*;

verus! {

/// Table J.2/H.263: the filter strength for each quantiser; entry 0 is
/// not to be used.
pub open spec fn quant_to_strength_seq() -> Seq<u8> {
    seq![
        0u8, 1u8, 1u8, 2u8, 2u8, 3u8, 3u8, 4u8, 4u8, 4u8, 5u8, 5u8, 6u8, 6u8, 7u8, 7u8, 7u8, 8u8,
        8u8, 8u8, 9u8, 9u8, 9u8, 10u8, 10u8, 10u8, 11u8, 11u8, 11u8, 12u8, 12u8, 12u8,
    ]
}

/// Table J.2/H.263 as runtime data: the relationship between the
/// quantiser and the strength of the filter.
pub fn quant_to_strength() -> (r: Vec<u8>)
    ensures
        r@ == quant_to_strength_seq(),
        r@.len() == 32,
{
    let r: Vec<u8> = vec![
        0, 1, 1, 2, 2, 3, 3, 4, 4, 4, 5, 5, 6, 6, 7, 7, 7, 8, 8, 8, 9, 9, 9, 10, 10, 10, 11, 11,
        11, 12, 12, 12,
    ];
    proof {
        assert(r@ =~= quant_to_strength_seq());
    }
    r
}

/// Figure J.2/H.263: parameter `d1` as a function of parameter `d`, an
/// up-down ramp cut off by the filter strength.
pub open spec fn up_down_ramp(x: int, strength: int) -> int {
    sign(x) * (if abs_i(x) - peak_cut(x, strength) >= 0 {
        abs_i(x) - peak_cut(x, strength)
    } else {
        0
    })
}

/// The magnitude of an integer.
pub open spec fn abs_i(x: int) -> int {
    if x >= 0 {
        x
    } else {
        -x
    }
}

/// The down-slope correction `max(0, 2 * (|x| - strength))` of the ramp.
pub open spec fn peak_cut(x: int, strength: int) -> int {
    if 2 * (abs_i(x) - strength) >= 0 {
        2 * (abs_i(x) - strength)
    } else {
        0
    }
}

/// What the edge filter does to one group of four samples `(a, b | c, d)`
/// straddling a block boundary, at the given strength: the corrected
/// quadruple. The outer samples move by a clipped half-correction without
/// clamping (they wrap as a byte would); the inner samples move by the
/// full correction, clamped to the sample range.
pub open spec fn process_spec(a: int, b: int, c: int, d: int, strength: int) -> (
    int,
    int,
    int,
    int,
) {
    let dd = tdiv(a - 4 * b + 4 * c - d, 8);
    let d1 = up_down_ramp(dd, strength);
    let lim = abs_i(tdiv(d1, 2));
    let d2 = clamp(tdiv(a - d, 4), -lim, lim);
    (
        ((a - d2) % 256 + 256) % 256,
        clamp(b + d1, 0, 255),
        clamp(c - d1, 0, 255),
        ((d + d2) % 256 + 256) % 256,
    )
}

/// The up-down ramp is an odd function of its first argument.
proof fn lemma_ramp_odd(x: int, strength: int)
    ensures
        up_down_ramp(-x, strength) == -up_down_ramp(x, strength),
{
    assert(abs_i(-x) == abs_i(x));
    assert(sign(-x) == -sign(x));
    let m = if abs_i(x) - peak_cut(x, strength) >= 0 {
        abs_i(x) - peak_cut(x, strength)
    } else {
        0
    };
    assert(up_down_ramp(-x, strength) == -sign(x) * m);
    assert(-sign(x) * m == -(sign(x) * m)) by (nonlinear_arith);
}

/// Truncating division is an odd function of its dividend.
proof fn lemma_tdiv_odd(x: int, k: int)
    requires
        k > 0,
    ensures
        tdiv(-x, k) == -tdiv(x, k),
{
}

/// Clamping to a symmetric range is an odd function.
proof fn lemma_clamp_odd(x: int, lim: int)
    requires
        lim >= 0,
    ensures
        clamp(-x, -lim, lim) == -clamp(x, -lim, lim),
{
}

/// Filtering a constant quadruple changes nothing: there is no edge to
/// smooth. Holds for every sample value and every strength.
pub proof fn lemma_process_constant(v: int, strength: int)
    requires
        0 <= v < 256,
    ensures
        process_spec(v, v, v, v, strength) == (v, v, v, v),
{
    assert(v - 4 * v + 4 * v - v == 0);
    assert(process_spec(v, v, v, v, strength).0 == ((v - 0) % 256 + 256) % 256);
}

/// Filtering a symmetric quadruple `(x, y, y, x)` changes nothing: the
/// middle holds no edge, only a hill or a valley. Holds for every pair of
/// sample values and every strength.
pub proof fn lemma_process_symmetric(x: int, y: int, strength: int)
    requires
        0 <= x < 256,
        0 <= y < 256,
    ensures
        process_spec(x, y, y, x, strength) == (x, y, y, x),
{
    assert(x - 4 * y + 4 * y - x == 0);
}

/// The filter does not care about direction: processing the reversed
/// quadruple yields the reversed result.
pub proof fn lemma_process_reversal(a: int, b: int, c: int, d: int, strength: int)
    ensures
        ({
            let (ra, rb, rc, rd) = process_spec(a, b, c, d, strength);
            process_spec(d, c, b, a, strength) == (rd, rc, rb, ra)
        }),
{
    let dd = tdiv(a - 4 * b + 4 * c - d, 8);
    lemma_tdiv_odd(a - 4 * b + 4 * c - d, 8);
    assert(tdiv(d - 4 * c + 4 * b - a, 8) == -dd);
    lemma_ramp_odd(dd, strength);
    let d1 = up_down_ramp(dd, strength);
    lemma_tdiv_odd(d1, 2);
    assert(abs_i(tdiv(-d1, 2)) == abs_i(tdiv(d1, 2)));
    let lim = abs_i(tdiv(d1, 2));
    lemma_tdiv_odd(a - d, 4);
    lemma_clamp_odd(tdiv(a - d, 4), lim);
}

/// The filter does not care about polarity: processing the inverted
/// samples `255 - v` yields the inverted result.
pub proof fn lemma_process_inversion(a: int, b: int, c: int, d: int, strength: int)
    requires
        0 <= a < 256,
        0 <= b < 256,
        0 <= c < 256,
        0 <= d < 256,
    ensures
        ({
            let (ra, rb, rc, rd) = process_spec(a, b, c, d, strength);
            process_spec(255 - a, 255 - b, 255 - c, 255 - d, strength) == (
                255 - ra,
                255 - rb,
                255 - rc,
                255 - rd,
            )
        }),
{
    let dd = tdiv(a - 4 * b + 4 * c - d, 8);
    assert((255 - a) - 4 * (255 - b) + 4 * (255 - c) - (255 - d) == -(a - 4 * b + 4 * c - d));
    lemma_tdiv_odd(a - 4 * b + 4 * c - d, 8);
    lemma_ramp_odd(dd, strength);
    let d1 = up_down_ramp(dd, strength);
    lemma_tdiv_odd(d1, 2);
    let lim = abs_i(tdiv(d1, 2));
    assert((255 - a) - (255 - d) == -(a - d));
    lemma_tdiv_odd(a - d, 4);
    lemma_clamp_odd(tdiv(a - d, 4), lim);
    let d2 = clamp(tdiv(a - d, 4), -lim, lim);
    // The outer samples: (255 - a + d2) mod 256 == 255 - ((a - d2) mod 256).
    lemma_mod_complement(a - d2);
    lemma_mod_complement(d + d2);
    assert((255 - a) - (-d2) == 255 - (a - d2));
    assert((255 - d) + (-d2) == 255 - (d + d2));
}

/// Taking a value's byte-wrapped complement commutes with wrapping:
/// `(255 - x) mod 256 == 255 - (x mod 256)`.
proof fn lemma_mod_complement(x: int)
    ensures
        ((255 - x) % 256 + 256) % 256 == 255 - ((x % 256 + 256) % 256),
{
    let m = ((x % 256 + 256) % 256);
    vstd::arithmetic::div_mod::lemma_mod_self_0(256);
    vstd::arithmetic::div_mod::lemma_mod_bound(x, 256);
    vstd::arithmetic::div_mod::lemma_mod_twice(x, 256);
    assert(x % 256 == m) by {
        vstd::arithmetic::div_mod::lemma_mod_bound(x, 256);
        vstd::arithmetic::div_mod::lemma_mod_adds(x, 256, 256);
    }
    assert(0 <= m < 256);
    assert((255 - x) % 256 == 255 - m) by {
        vstd::arithmetic::div_mod::lemma_fundamental_div_mod(x, 256);
        let q = x / 256;
        assert(255 - x == 256 * (-q) + (255 - m)) by {
            assert(x == 256 * q + m);
        }
        vstd::arithmetic::div_mod::lemma_fundamental_div_mod_converse(255 - x, 256, -q, 255 - m);
    }
    vstd::arithmetic::div_mod::lemma_mod_bound(255 - x, 256);
    vstd::arithmetic::div_mod::lemma_mod_adds(255 - x, 256, 256);
    vstd::arithmetic::div_mod::lemma_mod_twice(255 - x, 256);
}

/// Operate the filter on a group of four clipped pixel values lying on a
/// horizontal or vertical line of the picture; `a` and `b` belong to one
/// block, `c` and `d` to the neighbouring block to the right of or below
/// it.
pub fn process(a: &mut u8, b: &mut u8, c: &mut u8, d: &mut u8, strength: u8) -> (r: ())
    requires
        1 <= strength <= 12,
    ensures
        ({
            let (ra, rb, rc, rd) = process_spec(
                *old(a) as int,
                *old(b) as int,
                *old(c) as int,
                *old(d) as int,
                strength as int,
            );
            *final(a) == ra && *final(b) == rb && *final(c) == rc && *final(d) == rd
        }),
{
    let a16 = *a as i16;
    let b16 = *b as i16;
    let c16 = *c as i16;
    let d16 = *d as i16;
    let dd: i16 = crate::types::div_i16(a16 - 4 * b16 + 4 * c16 - d16, 8);
    let d1: i16 = up_down_ramp_exec(dd, strength as i16);
    let lim_raw: i16 = crate::types::div_i16(d1, 2);
    let lim: i16 = if lim_raw >= 0 {
        lim_raw
    } else {
        -lim_raw
    };
    let d2: i16 = crate::types::clamp_i16(crate::types::div_i16(a16 - d16, 4), -lim, lim);
    let new_a = a16 - d2;
    let new_d = d16 + d2;
    proof {
        lemma_wrap_u8(new_a as int);
        lemma_wrap_u8(new_d as int);
    }
    *a = #[verifier::truncate] (new_a as u8);
    *b = crate::types::clamp_i16(b16 + d1, 0, 255) as u8;
    *c = crate::types::clamp_i16(c16 - d1, 0, 255) as u8;
    *d = #[verifier::truncate] (new_d as u8);
}

/// A truncating cast of an `i16` to a byte keeps the value modulo 256.
proof fn lemma_wrap_u8(x: int)
    requires
        i16::MIN <= x <= i16::MAX,
    ensures
        (#[verifier::truncate] ((x as i16) as u8)) as int == ((x % 256) + 256) % 256,
{
    let v = x as i16;
    assert((#[verifier::truncate] (v as u8)) as int == (((v as int) % 256) + 256) % 256)
        by (bit_vector);
    vstd::arithmetic::div_mod::lemma_mod_bound(x, 256);
    vstd::arithmetic::div_mod::lemma_mod_adds(x, 256, 256);
    vstd::arithmetic::div_mod::lemma_mod_twice(x, 256);
}

/// The up-down ramp on machine integers.
fn up_down_ramp_exec(x: i16, strength: i16) -> (r: i16)
    requires
        -1024 <= x <= 1024,
        1 <= strength <= 12,
    ensures
        r as int == up_down_ramp(x as int, strength as int),
        -12 <= r <= 12,
{
    let ax: i16 = if x >= 0 {
        x
    } else {
        -x
    };
    let cut_raw: i16 = 2 * (ax - strength);
    let cut: i16 = if cut_raw >= 0 {
        cut_raw
    } else {
        0
    };
    let ramp_raw: i16 = ax - cut;
    let ramp: i16 = if ramp_raw >= 0 {
        ramp_raw
    } else {
        0
    };
    let r: i16 = if x > 0 {
        ramp
    } else if x < 0 {
        -ramp
    } else {
        0
    };
    proof {
        let xi = x as int;
        let si = strength as int;
        assert(sign(xi) * (if abs_i(xi) - peak_cut(xi, si) >= 0 {
            abs_i(xi) - peak_cut(xi, si)
        } else {
            0
        }) == r as int) by (nonlinear_arith)
            requires
                ramp as int == (if abs_i(xi) - peak_cut(xi, si) >= 0 {
                    abs_i(xi) - peak_cut(xi, si)
                } else {
                    0
                }) && r as int == sign(xi) * (ramp as int) && (r as int == (if xi > 0 {
                    ramp as int
                } else if xi < 0 {
                    -(ramp as int)
                } else {
                    0
                })),
        ;
        // The ramp peaks at the strength: past it the cut removes two for
        // every one the magnitude adds.
        assert(0 <= ramp <= 12);
    }
    r
}

/// The horizontal pass touches only the two rows on each side of a
/// block-row boundary: rows congruent to 6, 7, 0 or 1 modulo 8 (and not
/// the topmost block's first two rows).
pub open spec fn row_near_horiz_edge(row: int) -> bool {
    row % 8 == 6 || row % 8 == 7 || (row % 8 == 0 && row >= 8) || (row % 8 == 1 && row >= 8)
}

/// The vertical pass touches only the two columns on each side of a
/// block-column boundary.
pub open spec fn col_near_vert_edge(col: int) -> bool {
    col % 8 == 6 || col % 8 == 7 || (col % 8 == 0 && col >= 8) || (col % 8 == 1 && col >= 8)
}

/// The edge boundary row that a near-edge row belongs to: rows 6 and 7
/// modulo 8 sit above the boundary below them, rows 0 and 1 modulo 8 sit
/// at and under the boundary above them.
pub open spec fn horiz_edge_of_row(r: int) -> int {
    if r % 8 == 6 {
        r + 2
    } else if r % 8 == 7 {
        r + 1
    } else if r % 8 == 0 {
        r
    } else {
        r - 1
    }
}

/// The edge boundary column that a near-edge column belongs to.
pub open spec fn col_edge_of(c: int) -> int {
    if c % 8 == 6 {
        c + 2
    } else if c % 8 == 7 {
        c + 1
    } else if c % 8 == 0 {
        c
    } else {
        c - 1
    }
}

/// One plane cell after the horizontal pass: cells near an interior
/// horizontal block edge take their component of the edge kernel applied
/// to the four old samples of their column's edge group; edges whose
/// lowest sample would fall outside the plane are not processed, and all
/// other cells keep their value.
pub open spec fn horiz_filtered_cell(before: Seq<u8>, width: int, strength: int, i: int) -> u8
    recommends
        width >= 1,
{
    let r = i / width;
    let x = i % width;
    let height = before.len() as int / width;
    if row_near_horiz_edge(r) && horiz_edge_of_row(r) + 2 <= height {
        let ey = horiz_edge_of_row(r);
        let quad = process_spec(
            before[(ey - 2) * width + x] as int,
            before[(ey - 1) * width + x] as int,
            before[ey * width + x] as int,
            before[(ey + 1) * width + x] as int,
            strength,
        );
        (if r == ey - 2 {
            quad.0
        } else if r == ey - 1 {
            quad.1
        } else if r == ey {
            quad.2
        } else {
            quad.3
        }) as u8
    } else {
        before[i]
    }
}

/// A whole plane after the horizontal pass.
pub open spec fn horiz_pass(before: Seq<u8>, width: int, strength: int) -> Seq<u8>
    recommends
        width >= 1,
{
    Seq::new(before.len(), |i: int| horiz_filtered_cell(before, width, strength, i))
}

/// One plane cell after the vertical pass, the column-wise mirror of
/// `horiz_filtered_cell`: edges whose rightmost sample would fall outside
/// the row are not processed.
pub open spec fn vert_filtered_cell(before: Seq<u8>, width: int, strength: int, i: int) -> u8
    recommends
        width >= 1,
{
    let r = i / width;
    let c = i % width;
    if col_near_vert_edge(c) && col_edge_of(c) + 2 <= width {
        let ex = col_edge_of(c);
        let quad = process_spec(
            before[r * width + ex - 2] as int,
            before[r * width + ex - 1] as int,
            before[r * width + ex] as int,
            before[r * width + ex + 1] as int,
            strength,
        );
        (if c == ex - 2 {
            quad.0
        } else if c == ex - 1 {
            quad.1
        } else if c == ex {
            quad.2
        } else {
            quad.3
        }) as u8
    } else {
        before[i]
    }
}

/// A whole plane after the vertical pass.
pub open spec fn vert_pass(before: Seq<u8>, width: int, strength: int) -> Seq<u8>
    recommends
        width >= 1,
{
    Seq::new(before.len(), |i: int| vert_filtered_cell(before, width, strength, i))
}

/// Operate the edge kernel on four samples and return the filtered
/// quadruple.
fn process_values(a: u8, b: u8, c: u8, d: u8, strength: u8) -> (r: (u8, u8, u8, u8))
    requires
        1 <= strength <= 12,
    ensures
        ({
            let quad = process_spec(a as int, b as int, c as int, d as int, strength as int);
            r.0 == quad.0 && r.1 == quad.1 && r.2 == quad.2 && r.3 == quad.3
        }),
{
    let mut fa = a;
    let mut fb = b;
    let mut fc = c;
    let mut fd = d;
    process(&mut fa, &mut fb, &mut fc, &mut fd, strength);
    (fa, fb, fc, fd)
}

/// Copy a plane into a fresh vector.
fn copy_plane(data: &Vec<u8>) -> (r: Vec<u8>)
    ensures
        r@ == data@,
{
    let mut result: Vec<u8> = Vec::new();
    let mut i: usize = 0;
    while i < data.len()
        invariant
            i <= data@.len(),
            result@ == data@.subrange(0, i as int),
        decreases data@.len() - i,
    {
        result.push(data[i]);
        i += 1;
    }
    assert(result@ =~= data@);
    result
}

/// A sample on a row inside the plane lies inside the backing buffer.
proof fn lemma_row_index(len: int, width: int, row: int, x: int)
    requires
        width >= 1,
        len % width == 0,
        0 <= x < width,
        0 <= row < len / width,
    ensures
        0 <= row * width + x < len,
        row >= 1 ==> 0 <= (row - 1) * width + x < len,
        row >= 2 ==> 0 <= (row - 2) * width + x < len,
        row >= 3 ==> 0 <= (row - 3) * width + x < len,
{
    vstd::arithmetic::div_mod::lemma_fundamental_div_mod(len, width);
    let h = len / width;
    assert(len == width * h);
    lemma_cell_in_plane(len, width, h, row, x);
    if row >= 1 {
        lemma_cell_in_plane(len, width, h, row - 1, x);
    }
    if row >= 2 {
        lemma_cell_in_plane(len, width, h, row - 2, x);
    }
    if row >= 3 {
        lemma_cell_in_plane(len, width, h, row - 3, x);
    }
}

/// One cell of one row of the plane lies inside the backing buffer.
proof fn lemma_cell_in_plane(len: int, width: int, h: int, r: int, x: int)
    requires
        width >= 1,
        len == width * h,
        0 <= x < width,
        0 <= r < h,
    ensures
        0 <= r * width + x < len,
{
    assert(r * width >= 0) by (nonlinear_arith)
        requires
            r >= 0 && width >= 1,
    ;
    assert(r * width + x < (r + 1) * width) by (nonlinear_arith)
        requires
            x < width,
    ;
    assert((r + 1) * width <= h * width) by (nonlinear_arith)
        requires
            r + 1 <= h && width >= 1,
    ;
    assert(h * width == width * h) by (nonlinear_arith);
}

/// Apply the deblocking filter with the given strength to the horizontal
/// block edges of a plane of `width`-pixel rows.
pub fn deblock_horiz(result: &mut Vec<u8>, width: usize, strength: u8)
    requires
        1 <= strength <= 12,
        width >= 1,
        width <= 0x10000000,
        old(result)@.len() % width as nat == 0,
        old(result)@.len() <= 0x10000000,
    ensures
        final(result)@ == horiz_pass(old(result)@, width as int, strength as int),
        final(result)@.len() == old(result)@.len(),
{
    let ghost before = result@;
    let snapshot = copy_plane(result);
    let height = result.len() / width;
    let mut i: usize = 0;
    while i < result.len()
        invariant
            1 <= strength <= 12,
            width >= 1,
            width <= 0x10000000,
            before == old(result)@,
            snapshot@ == before,
            result@.len() == before.len(),
            before.len() % width as nat == 0,
            before.len() <= 0x10000000,
            height == before.len() / width as nat,
            i <= result@.len(),
            forall|j: int|
                0 <= j < i ==> #[trigger] result@[j] == horiz_filtered_cell(
                    before,
                    width as int,
                    strength as int,
                    j,
                ),
            forall|j: int| i <= j < result@.len() ==> #[trigger] result@[j] == before[j],
        decreases result@.len() - i,
    {
        let row = i / width;
        let x = i % width;
        let rm = row % 8;
        proof {
            vstd::arithmetic::div_mod::lemma_fundamental_div_mod(i as int, width as int);
            vstd::arithmetic::div_mod::lemma_fundamental_div_mod(row as int, 8);
            lemma_cell_rows(before.len() as int, width as int, i as int);
        }
        if rm == 6 || rm == 7 || ((rm == 0 || rm == 1) && row >= 8) {
            let ey = if rm == 6 {
                row + 2
            } else if rm == 7 {
                row + 1
            } else if rm == 0 {
                row
            } else {
                row - 1
            };
            if ey + 2 <= height {
                proof {
                    lemma_row_index(before.len() as int, width as int, ey as int + 1, x as int);
                }
                let ia = (ey - 2) * width + x;
                let ib = (ey - 1) * width + x;
                let ic = ey * width + x;
                let id = (ey + 1) * width + x;
                let quad = process_values(
                    snapshot[ia],
                    snapshot[ib],
                    snapshot[ic],
                    snapshot[id],
                    strength,
                );
                let v = if row + 2 == ey {
                    quad.0
                } else if row + 1 == ey {
                    quad.1
                } else if row == ey {
                    quad.2
                } else {
                    quad.3
                };
                result.set(i, v);
            }
        }
        i += 1;
    }
    proof {
        assert(result@ =~= horiz_pass(before, width as int, strength as int));
    }
}

/// Apply the deblocking filter with the given strength to the vertical
/// block edges of a plane of `width`-pixel rows.
pub fn deblock_vert(result: &mut Vec<u8>, width: usize, strength: u8)
    requires
        1 <= strength <= 12,
        width >= 1,
        width <= 0x10000000,
        old(result)@.len() % width as nat == 0,
        old(result)@.len() <= 0x10000000,
    ensures
        final(result)@ == vert_pass(old(result)@, width as int, strength as int),
        final(result)@.len() == old(result)@.len(),
{
    let ghost before = result@;
    let snapshot = copy_plane(result);
    let mut i: usize = 0;
    while i < result.len()
        invariant
            1 <= strength <= 12,
            width >= 1,
            width <= 0x10000000,
            before == old(result)@,
            snapshot@ == before,
            result@.len() == before.len(),
            before.len() % width as nat == 0,
            before.len() <= 0x10000000,
            i <= result@.len(),
            forall|j: int|
                0 <= j < i ==> #[trigger] result@[j] == vert_filtered_cell(
                    before,
                    width as int,
                    strength as int,
                    j,
                ),
            forall|j: int| i <= j < result@.len() ==> #[trigger] result@[j] == before[j],
        decreases result@.len() - i,
    {
        let row = i / width;
        let col = i % width;
        let cm = col % 8;
        proof {
            vstd::arithmetic::div_mod::lemma_fundamental_div_mod(i as int, width as int);
            vstd::arithmetic::div_mod::lemma_fundamental_div_mod(col as int, 8);
            lemma_cell_rows(before.len() as int, width as int, i as int);
        }
        if cm == 6 || cm == 7 || ((cm == 0 || cm == 1) && col >= 8) {
            let ex = if cm == 6 {
                col + 2
            } else if cm == 7 {
                col + 1
            } else if cm == 0 {
                col
            } else {
                col - 1
            };
            if ex + 2 <= width {
                proof {
                    lemma_row_index(before.len() as int, width as int, row as int, ex as int + 1);
                    lemma_row_index(before.len() as int, width as int, row as int, ex as int);
                    lemma_row_index(before.len() as int, width as int, row as int, ex as int - 1);
                    lemma_row_index(before.len() as int, width as int, row as int, ex as int - 2);
                }
                let base = row * width;
                let quad = process_values(
                    snapshot[base + ex - 2],
                    snapshot[base + ex - 1],
                    snapshot[base + ex],
                    snapshot[base + ex + 1],
                    strength,
                );
                let v = if col + 2 == ex {
                    quad.0
                } else if col + 1 == ex {
                    quad.1
                } else if col == ex {
                    quad.2
                } else {
                    quad.3
                };
                result.set(i, v);
            }
        }
        i += 1;
    }
    proof {
        assert(result@ =~= vert_pass(before, width as int, strength as int));
    }
}

/// The row and column of a cell index lie inside the plane.
proof fn lemma_cell_rows(len: int, width: int, i: int)
    requires
        width >= 1,
        len % width == 0,
        0 <= i < len,
    ensures
        0 <= i / width < len / width,
        0 <= i % width < width,
{
    vstd::arithmetic::div_mod::lemma_fundamental_div_mod(i, width);
    vstd::arithmetic::div_mod::lemma_fundamental_div_mod(len, width);
    let h = len / width;
    assert(i / width < h) by (nonlinear_arith)
        requires
            i == width * (i / width) + i % width && 0 <= i % width < width && i < len && len
                == width * h,
    ;
    assert(i / width >= 0) by (nonlinear_arith)
        requires
            i == width * (i / width) + i % width && 0 <= i % width < width && i >= 0 && width >= 1,
    ;
}

/// Apply the deblocking filter to the horizontal and then the vertical
/// block edges of the given image data, assuming an 8x8 block grid.
pub fn deblock(data: &Vec<u8>, width: usize, strength: u8) -> (r: Vec<u8>)
    requires
        1 <= strength <= 12,
        width >= 1,
        width <= 0x10000000,
        data@.len() % width as nat == 0,
        data@.len() <= 0x10000000,
    ensures
        r@ == vert_pass(
            horiz_pass(data@, width as int, strength as int),
            width as int,
            strength as int,
        ),
        r@.len() == data@.len(),
{
    let mut result = copy_plane(data);
    // The spec applies the horizontal filter first.
    deblock_horiz(&mut result, width, strength);
    deblock_vert(&mut result, width, strength);
    result
}

} // verus!
