//! Inverse run-length coding: dezig-zag and dequantisation of block
//! coefficient data.

use crate::types::{clamp, sign, Block, TCoefficient};
use vstd::prelude::*;

verus! {

/// An 8x8 block of dequantised transform coefficients, classified for the
/// inverse transform: empty, DC-only, a single row, a single column, or a
/// full block. Coefficients are integers in `[-2048, 2047]`.
#[derive(Copy, Clone, Debug, PartialEq, Eq)]
pub enum DecodedDctBlock {
    /// Every coefficient is zero.
    Zero,

    /// Only the DC coefficient is non-zero.
    Dc(i16),

    /// Only the first row holds non-zero coefficients.
    Horiz([i16; 8]),

    /// Only the first column holds non-zero coefficients.
    Vert([i16; 8]),

    /// The full coefficient block.
    Full([[i16; 8]; 8]),
}

impl DecodedDctBlock {
    /// The coefficient this block variant holds at column `x`, row `y` of
    /// the 8x8 grid.
    pub open spec fn coeff(self, x: int, y: int) -> int
        recommends
            0 <= x < 8,
            0 <= y < 8,
    {
        match self {
            DecodedDctBlock::Zero => 0,
            DecodedDctBlock::Dc(d) => if x == 0 && y == 0 {
                d as int
            } else {
                0
            },
            DecodedDctBlock::Horiz(row) => if y == 0 {
                row[x] as int
            } else {
                0
            },
            DecodedDctBlock::Vert(col) => if x == 0 {
                col[y] as int
            } else {
                0
            },
            DecodedDctBlock::Full(grid) => grid[y][x] as int,
        }
    }
}

/// The position in the 8x8 grid that scan index `i` of the zig-zag order
/// dezigzags to, as an `(x, y)` pair.
pub open spec fn dezigzag(i: int) -> (int, int)
    recommends
        0 <= i < 64,
{
    dezigzag_seq()[i]
}

/// The full dezig-zag table in scan order.
pub open spec fn dezigzag_seq() -> Seq<(int, int)> {
    seq![
        (0, 0), (1, 0), (0, 1), (0, 2), (1, 1), (2, 0), (3, 0), (2, 1),
        (1, 2), (0, 3), (0, 4), (1, 3), (2, 2), (3, 1), (4, 0), (5, 0),
        (4, 1), (3, 2), (2, 3), (1, 4), (0, 5), (0, 6), (1, 5), (2, 4),
        (3, 3), (4, 2), (5, 1), (6, 0), (7, 0), (6, 1), (5, 2), (4, 3),
        (3, 4), (2, 5), (1, 6), (0, 7), (1, 7), (2, 6), (3, 5), (4, 4),
        (5, 3), (6, 2), (7, 1), (7, 2), (6, 3), (5, 4), (4, 5), (3, 6),
        (2, 7), (3, 7), (4, 6), (5, 5), (6, 4), (7, 3), (7, 4), (6, 5),
        (5, 6), (4, 7), (5, 7), (6, 6), (7, 5), (7, 6), (6, 7), (7, 7),
    ]
}

/// The inverse of the dezig-zag table: the scan index at which the grid
/// position `(x, y)` appears.
pub open spec fn zigzag_index(x: int, y: int) -> int
    recommends
        0 <= x < 8,
        0 <= y < 8,
{
    zigzag_grid()[y][x]
}

/// The scan indices of the 8x8 grid, row by row.
pub open spec fn zigzag_grid() -> Seq<Seq<int>> {
    seq![
        seq![0, 1, 5, 6, 14, 15, 27, 28],
        seq![2, 4, 7, 13, 16, 26, 29, 42],
        seq![3, 8, 12, 17, 25, 30, 41, 43],
        seq![9, 11, 18, 24, 31, 40, 44, 53],
        seq![10, 19, 23, 32, 39, 45, 52, 54],
        seq![20, 22, 33, 38, 46, 51, 55, 60],
        seq![21, 34, 37, 47, 50, 56, 59, 61],
        seq![35, 36, 48, 49, 57, 58, 62, 63],
    ]
}

/// The dezig-zag table and the scan-index grid are mutually inverse, so
/// the table is a bijection between the scan indices 0..63 and the 8x8
/// grid positions: every scan index lands on an in-range position, no two
/// scan indices share a position, and every position is hit.
pub proof fn lemma_dezigzag_bijective()
    ensures
        forall|i: int|
            0 <= i < 64 ==> {
                let (x, y) = #[trigger] dezigzag(i);
                0 <= x < 8 && 0 <= y < 8 && zigzag_index(x, y) == i
            },
        forall|i: int, j: int|
            0 <= i < 64 && 0 <= j < 64 && i != j ==> #[trigger] dezigzag(i) != #[trigger] dezigzag(
                j,
            ),
        forall|x: int, y: int|
            0 <= x < 8 && 0 <= y < 8 ==> {
                let i = #[trigger] zigzag_index(x, y);
                0 <= i < 64 && dezigzag(i) == (x, y)
            },
{
    assert forall|i: int| 0 <= i < 64 implies {
        let (x, y) = #[trigger] dezigzag(i);
        0 <= x < 8 && 0 <= y < 8 && zigzag_index(x, y) == i
    } by {
        lemma_dezigzag_entry(i);
    }
    assert forall|x: int, y: int| 0 <= x < 8 && 0 <= y < 8 implies {
        let i = #[trigger] zigzag_index(x, y);
        0 <= i < 64 && dezigzag(i) == (x, y)
    } by {
        lemma_zigzag_entry(x, y);
    }
    assert forall|i: int, j: int| 0 <= i < 64 && 0 <= j < 64 && i != j implies #[trigger] dezigzag(
        i,
    ) != #[trigger] dezigzag(j) by {
        lemma_dezigzag_entry(i);
        lemma_dezigzag_entry(j);
        let (xi, yi) = dezigzag(i);
        let (xj, yj) = dezigzag(j);
        if dezigzag(i) == dezigzag(j) {
            assert(zigzag_index(xi, yi) == zigzag_index(xj, yj));
        }
    }
}

/// Each single dezig-zag entry lands in range and round-trips through the
/// scan-index grid.
proof fn lemma_dezigzag_entry(i: int)
    requires
        0 <= i < 64,
    ensures
        ({
            let (x, y) = dezigzag(i);
            0 <= x < 8 && 0 <= y < 8 && zigzag_index(x, y) == i
        }),
{
}

/// Each single scan-index entry lands in range and round-trips through
/// the dezig-zag table.
proof fn lemma_zigzag_entry(x: int, y: int)
    requires
        0 <= x < 8,
        0 <= y < 8,
    ensures
        ({
            let i = zigzag_index(x, y);
            0 <= i < 64 && dezigzag(i) == (x, y)
        }),
{
}

/// The dequantised value of a coefficient `level` at quantiser `quant`,
/// per H.263 6.2.1: `sign(level) * (quant * (2 * |level| + 1) + parity)`,
/// clamped to `[-2048, 2047]`, where the parity correction is 0 for odd
/// quantisers and -1 for even ones.
pub open spec fn dequantise(level: int, quant: int) -> int
    recommends
        1 <= quant < 32,
{
    let magnitude = quant * (2 * (if level >= 0 {
        level
    } else {
        -level
    }) + 1);
    let parity = if quant % 2 == 1 {
        0int
    } else {
        -1int
    };
    clamp(sign(level) * (magnitude + parity), -2048, 2047)
}

/// Dequantise one coefficient with machine integers.
fn dequantise_level(level: i16, quant: u8) -> (r: i16)
    requires
        1 <= quant < 32,
        -255 <= level <= 255,
        level != 0,
    ensures
        r as int == dequantise(level as int, quant as int),
{
    let doubled: i32 = 2 * (if level >= 0 {
        level as i32
    } else {
        -(level as i32)
    }) + 1;
    proof {
        assert((quant as i32) * doubled <= 31 * 511 && (quant as i32) * doubled >= 0)
            by (nonlinear_arith)
            requires
                1 <= quant < 32 && 0 <= doubled <= 511,
        ;
    }
    let magnitude: i32 = (quant as i32) * doubled;
    let parity: i32 = if quant % 2 == 1 {
        0
    } else {
        -1
    };
    let signed: i32 = if level >= 0 {
        magnitude + parity
    } else {
        -(magnitude + parity)
    };
    proof {
        let l = level as int;
        let mp = (magnitude + parity) as int;
        assert(sign(l) * mp == if l >= 0 {
            mp
        } else {
            -mp
        }) by (nonlinear_arith)
            requires
                l != 0 && sign(l) == (if l >= 0 {
                    1int
                } else {
                    -1int
                }),
        ;
    }
    if signed < -2048 {
        -2048
    } else if signed > 2047 {
        2047
    } else {
        signed as i16
    }
}

/// The grid of dequantised coefficients that inverse run-length expansion
/// writes for a block, as a function from grid position to value.
///
/// The walk starts at scan index 1 for blocks with a DC coefficient and 0
/// otherwise; each coefficient event advances the scan cursor by its run,
/// writes its dequantised level, and steps past it. Positions that no
/// event reaches stay zero; the DC position holds the DC reconstruction
/// level when present.
pub open spec fn rle_coeff(b: Block, quant: int, x: int, y: int) -> int
    recommends
        0 <= x < 8,
        0 <= y < 8,
{
    let i = zigzag_index(x, y);
    if x == 0 && y == 0 && b.intradc is Some {
        b.intradc.unwrap().spec_level()
    } else {
        rle_scan_value(b.tcoef@, quant, rle_start_index(b), i)
    }
}

/// The scan index at which coefficient events start: 1 after a DC
/// coefficient, else 0.
pub open spec fn rle_start_index(b: Block) -> int {
    if b.intradc is Some {
        1
    } else {
        0
    }
}

/// The value that the coefficient events `events` write at scan index
/// `target`, when the first event's run starts counting at scan index
/// `cursor`. Zero when no event lands on `target`.
pub open spec fn rle_scan_value(
    events: Seq<TCoefficient>,
    quant: int,
    cursor: int,
    target: int,
) -> int
    decreases events.len(),
{
    if events.len() == 0 {
        0
    } else {
        let e = events[0];
        let at = cursor + e.run;
        if at == target {
            dequantise(e.level as int, quant)
        } else {
            rle_scan_value(events.skip(1), quant, at + 1, target)
        }
    }
}

/// Whether the coefficient events of a block stay within the 64 scan
/// positions; events that walk past the end leave the block unchanged.
pub open spec fn rle_in_bounds(events: Seq<TCoefficient>, cursor: int) -> bool
    decreases events.len(),
{
    if events.len() == 0 {
        true
    } else {
        let at = cursor + events[0].run;
        at < 64 && rle_in_bounds(events.skip(1), at + 1)
    }
}

/// The coefficient events write no value at scan indices below the
/// cursor: every event lands at or past it.
proof fn lemma_scan_value_below_cursor(
    events: Seq<TCoefficient>,
    quant: int,
    cursor: int,
    target: int,
)
    requires
        target < cursor,
    ensures
        rle_scan_value(events, quant, cursor, target) == 0,
    decreases events.len(),
{
    if events.len() > 0 {
        let at = cursor + events[0].run;
        lemma_scan_value_below_cursor(events.skip(1), quant, at + 1, target);
    }
}

/// Inverse run-length expand, dezig-zag and dequantise one encoded block
/// into the block-level array.
///
/// `levels` is indexed by 8x8 block: the block at pixel position `pos`
/// (whose coordinates must be multiples of 8) with `blk_per_line` blocks
/// per row is replaced. When the encoded events run past the last scan
/// index, the stored block is left unchanged, as an encoder never emits
/// such a stream; the result says whether the block was replaced. The
/// replacement block holds exactly the dequantised, dezig-zagged
/// coefficients of `encoded_block`.
#[verifier::rlimit(100)]
pub fn inverse_rle(
    encoded_block: &Block,
    levels: &mut Vec<DecodedDctBlock>,
    pos: (usize, usize),
    blk_per_line: usize,
    quant: u8,
) -> (updated: bool)
    requires
        1 <= quant < 32,
        blk_per_line >= 1,
        pos.0 % 8 == 0,
        pos.1 % 8 == 0,
        (pos.0 / 8) < blk_per_line,
        (pos.0 / 8) + (pos.1 / 8) * blk_per_line < old(levels)@.len(),
        crate::block::block_coefficients_valid(*encoded_block),
    ensures
        final(levels)@.len() == old(levels)@.len(),
        ({
            let block_id = (pos.0 / 8) + (pos.1 / 8) * blk_per_line;
            &&& (forall|j: int|
                0 <= j < old(levels)@.len() && j != block_id ==> final(levels)@[j] == old(
                    levels,
                )@[j])
            &&& (updated <==> rle_in_bounds(
                encoded_block.tcoef@,
                rle_start_index(*encoded_block),
            ))
            &&& (!updated ==> final(levels)@[block_id] == old(levels)@[block_id])
            &&& (updated ==> (forall|x: int, y: int|
                0 <= x < 8 && 0 <= y < 8 ==> #[trigger] final(levels)@[block_id].coeff(x, y)
                    == rle_coeff(*encoded_block, quant as int, x, y)))
        }),
{
    let total = levels.len();
    proof {
        assert((pos.0 as int / 8) + (pos.1 as int / 8) * (blk_per_line as int) < total as int);
        assert((pos.1 as int / 8) * (blk_per_line as int) <= (pos.0 as int / 8) + (pos.1 as int
            / 8) * (blk_per_line as int));
    }
    let block_id = (pos.0 / 8) + (pos.1 / 8) * blk_per_line;
    let mut grid: [[i16; 8]; 8] = [[0; 8]; 8];
    let mut cursor: usize = 0;
    if let Some(dc) = encoded_block.intradc {
        let dc_value = dc.into_level();
        let mut row = grid[0];
        row[0] = dc_value;
        grid[0] = row;
        cursor = 1;
    }
    let table = dezigzag_table();
    let mut k: usize = 0;
    let ghost events = encoded_block.tcoef@;
    let ghost q = quant as int;
    let ghost start = rle_start_index(*encoded_block);
    proof {
        lemma_dezigzag_bijective();
        assert(events.skip(0) =~= events);
        assert forall|x: int, y: int| 0 <= x < 8 && 0 <= y < 8 && zigzag_index(x, y)
            < start implies x == 0 && y == 0 by {
        }
        assert forall|x: int, y: int| 0 <= x < 8 && 0 <= y < 8 implies grid@[y][x] as int
            + rle_scan_value(events, q, start, zigzag_index(x, y)) == rle_coeff(
            *encoded_block,
            q,
            x,
            y,
        ) by {
            if x == 0 && y == 0 && encoded_block.intradc is Some {
                lemma_scan_value_below_cursor(events, q, start, 0);
            }
        }
    }
    while k < encoded_block.tcoef.len()
        invariant
            1 <= quant < 32,
            q == quant as int,
            crate::block::block_coefficients_valid(*encoded_block),
            k <= events.len(),
            events == encoded_block.tcoef@,
            start == rle_start_index(*encoded_block),
            table@ == dezigzag_exec_seq(),
            table@.len() == 64,
            cursor <= 64,
            rle_in_bounds(events, start) <==> rle_in_bounds(
                events.skip(k as int),
                cursor as int,
            ),
            forall|x: int, y: int|
                0 <= x < 8 && 0 <= y < 8 && zigzag_index(x, y) >= cursor as int
                    ==> #[trigger] grid@[y][x] == 0,
            forall|x: int, y: int|
                0 <= x < 8 && 0 <= y < 8 ==> #[trigger] grid@[y][x] as int + rle_scan_value(
                    events.skip(k as int),
                    q,
                    cursor as int,
                    zigzag_index(x, y),
                ) == rle_coeff(*encoded_block, q, x, y),
        decreases events.len() - k,
    {
        proof {
            lemma_dezigzag_bijective();
        }
        let e = encoded_block.tcoef[k];
        let at = cursor + e.run as usize;
        proof {
            assert(events.skip(k as int)[0] == events[k as int]);
        }
        if at >= 64 {
            proof {
                assert(!rle_in_bounds(events.skip(k as int), cursor as int));
            }
            return false;
        }
        let (zx, zy) = table[at];
        let value = dequantise_level(e.level, quant);
        proof {
            assert(dezigzag_exec_seq()[at as int] == (zx, zy));
            assert(dezigzag(at as int) == (zx as int, zy as int));
            assert(zigzag_index(zx as int, zy as int) == at as int);
        }
        let zxi = zx as usize;
        let zyi = zy as usize;
        let mut row = grid[zyi];
        row[zxi] = value;
        grid[zyi] = row;
        let ghost old_cursor = cursor as int;
        cursor = at + 1;
        k = k + 1;
        proof {
            assert(events.skip(k as int - 1).skip(1) =~= events.skip(k as int));
            assert forall|x: int, y: int| 0 <= x < 8 && 0 <= y < 8 implies #[trigger] grid@[y][x]
                as int + rle_scan_value(
                events.skip(k as int),
                q,
                cursor as int,
                zigzag_index(x, y),
            ) == rle_coeff(*encoded_block, q, x, y) by {
                let t = zigzag_index(x, y);
                if t == at as int {
                    lemma_scan_value_below_cursor(
                        events.skip(k as int),
                        q,
                        cursor as int,
                        t,
                    );
                }
            }
        }
    }
    proof {
        assert(events.skip(k as int) =~= Seq::<TCoefficient>::empty());
        assert(rle_in_bounds(events.skip(k as int), cursor as int));
    }
    let decoded = classify_grid(&grid);
    proof {
        assert forall|x: int, y: int| 0 <= x < 8 && 0 <= y < 8 implies #[trigger] decoded.coeff(
            x,
            y,
        ) == rle_coeff(*encoded_block, quant as int, x, y) by {
            lemma_dezigzag_bijective();
        }
    }
    levels.set(block_id, decoded);
    true
}

/// The dezig-zag table as runtime data: entry `i` is the `(x, y)` grid
/// position of scan index `i`.
pub fn dezigzag_table() -> (r: Vec<(u8, u8)>)
    ensures
        r@ == dezigzag_exec_seq(),
        r@.len() == 64,
{
    let r: Vec<(u8, u8)> = vec![
        (0, 0), (1, 0), (0, 1), (0, 2), (1, 1), (2, 0), (3, 0), (2, 1),
        (1, 2), (0, 3), (0, 4), (1, 3), (2, 2), (3, 1), (4, 0), (5, 0),
        (4, 1), (3, 2), (2, 3), (1, 4), (0, 5), (0, 6), (1, 5), (2, 4),
        (3, 3), (4, 2), (5, 1), (6, 0), (7, 0), (6, 1), (5, 2), (4, 3),
        (3, 4), (2, 5), (1, 6), (0, 7), (1, 7), (2, 6), (3, 5), (4, 4),
        (5, 3), (6, 2), (7, 1), (7, 2), (6, 3), (5, 4), (4, 5), (3, 6),
        (2, 7), (3, 7), (4, 6), (5, 5), (6, 4), (7, 3), (7, 4), (6, 5),
        (5, 6), (4, 7), (5, 7), (6, 6), (7, 5), (7, 6), (6, 7), (7, 7),
    ];
    proof {
        assert(r@ =~= dezigzag_exec_seq());
    }
    r
}

/// The runtime dezig-zag table as a sequence; it matches the spec-level
/// table entry for entry.
pub open spec fn dezigzag_exec_seq() -> Seq<(u8, u8)> {
    seq![
        (0u8, 0u8), (1u8, 0u8), (0u8, 1u8), (0u8, 2u8), (1u8, 1u8), (2u8, 0u8), (3u8, 0u8), (2u8, 1u8),
        (1u8, 2u8), (0u8, 3u8), (0u8, 4u8), (1u8, 3u8), (2u8, 2u8), (3u8, 1u8), (4u8, 0u8), (5u8, 0u8),
        (4u8, 1u8), (3u8, 2u8), (2u8, 3u8), (1u8, 4u8), (0u8, 5u8), (0u8, 6u8), (1u8, 5u8), (2u8, 4u8),
        (3u8, 3u8), (4u8, 2u8), (5u8, 1u8), (6u8, 0u8), (7u8, 0u8), (6u8, 1u8), (5u8, 2u8), (4u8, 3u8),
        (3u8, 4u8), (2u8, 5u8), (1u8, 6u8), (0u8, 7u8), (1u8, 7u8), (2u8, 6u8), (3u8, 5u8), (4u8, 4u8),
        (5u8, 3u8), (6u8, 2u8), (7u8, 1u8), (7u8, 2u8), (6u8, 3u8), (5u8, 4u8), (4u8, 5u8), (3u8, 6u8),
        (2u8, 7u8), (3u8, 7u8), (4u8, 6u8), (5u8, 5u8), (6u8, 4u8), (7u8, 3u8), (7u8, 4u8), (6u8, 5u8),
        (5u8, 6u8), (4u8, 7u8), (5u8, 7u8), (6u8, 6u8), (7u8, 5u8), (7u8, 6u8), (6u8, 7u8), (7u8, 7u8),
    ]
}

/// Classify a coefficient grid into the tightest `DecodedDctBlock`
/// variant that reproduces it.
fn classify_grid(grid: &[[i16; 8]; 8]) -> (r: DecodedDctBlock)
    ensures
        forall|x: int, y: int|
            0 <= x < 8 && 0 <= y < 8 ==> #[trigger] r.coeff(x, y) == grid@[y][x] as int,
{
    let mut is_horiz = true;
    let mut is_vert = true;
    let mut y: usize = 0;
    while y < 8
        invariant
            y <= 8,
            is_horiz <==> (forall|yy: int, xx: int|
                0 <= yy < y && 0 <= xx < 8 && yy > 0 ==> #[trigger] grid@[yy][xx] == 0),
            is_vert <==> (forall|yy: int, xx: int|
                0 <= yy < y && 0 <= xx < 8 && xx > 0 ==> #[trigger] grid@[yy][xx] == 0),
        decreases 8 - y,
    {
        let mut x: usize = 0;
        while x < 8
            invariant
                y < 8,
                x <= 8,
                is_horiz <==> ((forall|yy: int, xx: int|
                    0 <= yy < y && 0 <= xx < 8 && yy > 0 ==> #[trigger] grid@[yy][xx] == 0) && (
                forall|xx: int| 0 <= xx < x && y > 0 ==> #[trigger] grid@[y as int][xx] == 0)),
                is_vert <==> ((forall|yy: int, xx: int|
                    0 <= yy < y && 0 <= xx < 8 && xx > 0 ==> #[trigger] grid@[yy][xx] == 0) && (
                forall|xx: int| 0 <= xx < x && xx > 0 ==> #[trigger] grid@[y as int][xx] == 0)),
            decreases 8 - x,
        {
            if grid[y][x] != 0 {
                if y > 0 {
                    is_horiz = false;
                }
                if x > 0 {
                    is_vert = false;
                }
            }
            x += 1;
        }
        y += 1;
    }
    if is_horiz && is_vert {
        if grid[0][0] == 0 {
            DecodedDctBlock::Zero
        } else {
            DecodedDctBlock::Dc(grid[0][0])
        }
    } else if is_horiz {
        DecodedDctBlock::Horiz(grid[0])
    } else if is_vert {
        let col: [i16; 8] = [
            grid[0][0],
            grid[1][0],
            grid[2][0],
            grid[3][0],
            grid[4][0],
            grid[5][0],
            grid[6][0],
            grid[7][0],
        ];
        DecodedDctBlock::Vert(col)
    } else {
        DecodedDctBlock::Full(*grid)
    }
}

} // verus!
