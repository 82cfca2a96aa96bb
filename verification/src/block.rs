//! Block-layer decoding: the `TCOEF` code table and the coefficient
//! parser.

use crate::error::Error;
use crate::reader::{stream_value, H263Reader};
use crate::types::{Block, IntraDc, MacroblockType, PictureOption, TCoefficient, MODIFIED_QUANTIZATION};
use crate::vlc::{lemma_vlc_walk_advances, Entry};
use vstd::prelude::*;

verus! {

/// A partially decoded short `TCOEF` entry.
#[derive(Copy, Clone, Debug, PartialEq, Eq)]
pub enum ShortTCoefficient {
    /// A long-form `TCOEF` entry follows in the bitstream.
    EscapeToLong,

    /// An almost-fully-decoded short entry; the sign bit of the level
    /// directly follows in the bitstream.
    Run {
        /// Whether this is the last coefficient of the block.
        last: bool,
        /// The size of the zero-coefficient run.
        run: u8,
        /// The magnitude of the non-zero coefficient.
        level: u8,
    },
}

/// The `TCOEF` code table, as the runtime constructor builds it.
pub open spec fn spec_tcoef_table() -> Seq<Entry<Option<ShortTCoefficient>>> {
    seq![
        Entry::Fork(8, 1),
        Entry::Fork(2, 3),
        Entry::End(Some(ShortTCoefficient::Run { last: false, run: 0, level: 1 })),
        Entry::Fork(4, 5),
        Entry::End(Some(ShortTCoefficient::Run { last: false, run: 1, level: 1 })),
        Entry::Fork(6, 7),
        Entry::End(Some(ShortTCoefficient::Run { last: false, run: 2, level: 1 })),
        Entry::End(Some(ShortTCoefficient::Run { last: false, run: 0, level: 2 })),
        Entry::Fork(28, 9),
        Entry::Fork(15, 10),
        Entry::Fork(12, 11),
        Entry::End(Some(ShortTCoefficient::Run { last: true, run: 0, level: 1 })),
        Entry::Fork(13, 14),
        Entry::End(Some(ShortTCoefficient::Run { last: false, run: 4, level: 1 })),
        Entry::End(Some(ShortTCoefficient::Run { last: false, run: 3, level: 1 })),
        Entry::Fork(16, 23),
        Entry::Fork(17, 20),
        Entry::Fork(18, 19),
        Entry::End(Some(ShortTCoefficient::Run { last: false, run: 9, level: 1 })),
        Entry::End(Some(ShortTCoefficient::Run { last: false, run: 8, level: 1 })),
        Entry::Fork(21, 22),
        Entry::End(Some(ShortTCoefficient::Run { last: false, run: 7, level: 1 })),
        Entry::End(Some(ShortTCoefficient::Run { last: false, run: 6, level: 1 })),
        Entry::Fork(25, 24),
        Entry::End(Some(ShortTCoefficient::Run { last: false, run: 5, level: 1 })),
        Entry::Fork(26, 27),
        Entry::End(Some(ShortTCoefficient::Run { last: false, run: 1, level: 2 })),
        Entry::End(Some(ShortTCoefficient::Run { last: false, run: 0, level: 3 })),
        Entry::Fork(52, 29),
        Entry::Fork(37, 30),
        Entry::Fork(31, 34),
        Entry::Fork(32, 33),
        Entry::End(Some(ShortTCoefficient::Run { last: true, run: 4, level: 1 })),
        Entry::End(Some(ShortTCoefficient::Run { last: true, run: 3, level: 1 })),
        Entry::Fork(35, 36),
        Entry::End(Some(ShortTCoefficient::Run { last: true, run: 2, level: 1 })),
        Entry::End(Some(ShortTCoefficient::Run { last: true, run: 1, level: 1 })),
        Entry::Fork(38, 45),
        Entry::Fork(39, 42),
        Entry::Fork(40, 41),
        Entry::End(Some(ShortTCoefficient::Run { last: true, run: 8, level: 1 })),
        Entry::End(Some(ShortTCoefficient::Run { last: true, run: 7, level: 1 })),
        Entry::Fork(43, 44),
        Entry::End(Some(ShortTCoefficient::Run { last: true, run: 6, level: 1 })),
        Entry::End(Some(ShortTCoefficient::Run { last: true, run: 5, level: 1 })),
        Entry::Fork(46, 49),
        Entry::Fork(47, 48),
        Entry::End(Some(ShortTCoefficient::Run { last: false, run: 12, level: 1 })),
        Entry::End(Some(ShortTCoefficient::Run { last: false, run: 11, level: 1 })),
        Entry::Fork(50, 51),
        Entry::End(Some(ShortTCoefficient::Run { last: false, run: 10, level: 1 })),
        Entry::End(Some(ShortTCoefficient::Run { last: false, run: 0, level: 4 })),
        Entry::Fork(90, 53),
        Entry::Fork(69, 54),
        Entry::Fork(55, 62),
        Entry::Fork(56, 59),
        Entry::Fork(57, 58),
        Entry::End(Some(ShortTCoefficient::Run { last: true, run: 11, level: 1 })),
        Entry::End(Some(ShortTCoefficient::Run { last: true, run: 10, level: 1 })),
        Entry::Fork(60, 61),
        Entry::End(Some(ShortTCoefficient::Run { last: true, run: 9, level: 1 })),
        Entry::End(Some(ShortTCoefficient::Run { last: false, run: 14, level: 1 })),
        Entry::Fork(63, 66),
        Entry::Fork(64, 65),
        Entry::End(Some(ShortTCoefficient::Run { last: false, run: 13, level: 1 })),
        Entry::End(Some(ShortTCoefficient::Run { last: false, run: 2, level: 2 })),
        Entry::Fork(67, 68),
        Entry::End(Some(ShortTCoefficient::Run { last: false, run: 1, level: 3 })),
        Entry::End(Some(ShortTCoefficient::Run { last: false, run: 0, level: 5 })),
        Entry::Fork(77, 70),
        Entry::Fork(71, 74),
        Entry::Fork(72, 73),
        Entry::End(Some(ShortTCoefficient::Run { last: true, run: 15, level: 1 })),
        Entry::End(Some(ShortTCoefficient::Run { last: true, run: 14, level: 1 })),
        Entry::Fork(75, 76),
        Entry::End(Some(ShortTCoefficient::Run { last: true, run: 13, level: 1 })),
        Entry::End(Some(ShortTCoefficient::Run { last: true, run: 12, level: 1 })),
        Entry::Fork(78, 85),
        Entry::Fork(79, 82),
        Entry::Fork(80, 81),
        Entry::End(Some(ShortTCoefficient::Run { last: false, run: 16, level: 1 })),
        Entry::End(Some(ShortTCoefficient::Run { last: false, run: 15, level: 1 })),
        Entry::Fork(83, 84),
        Entry::End(Some(ShortTCoefficient::Run { last: false, run: 4, level: 2 })),
        Entry::End(Some(ShortTCoefficient::Run { last: false, run: 3, level: 2 })),
        Entry::Fork(86, 89),
        Entry::Fork(87, 88),
        Entry::End(Some(ShortTCoefficient::Run { last: false, run: 0, level: 7 })),
        Entry::End(Some(ShortTCoefficient::Run { last: false, run: 0, level: 6 })),
        Entry::End(Some(ShortTCoefficient::Run { last: true, run: 16, level: 1 })),
        Entry::Fork(124, 91),
        Entry::Fork(92, 109),
        Entry::Fork(93, 102),
        Entry::Fork(94, 99),
        Entry::Fork(95, 98),
        Entry::Fork(96, 97),
        Entry::End(Some(ShortTCoefficient::Run { last: false, run: 0, level: 9 })),
        Entry::End(Some(ShortTCoefficient::Run { last: false, run: 0, level: 8 })),
        Entry::End(Some(ShortTCoefficient::Run { last: true, run: 24, level: 1 })),
        Entry::Fork(100, 101),
        Entry::End(Some(ShortTCoefficient::Run { last: true, run: 23, level: 1 })),
        Entry::End(Some(ShortTCoefficient::Run { last: true, run: 22, level: 1 })),
        Entry::Fork(103, 106),
        Entry::Fork(104, 105),
        Entry::End(Some(ShortTCoefficient::Run { last: true, run: 21, level: 1 })),
        Entry::End(Some(ShortTCoefficient::Run { last: true, run: 20, level: 1 })),
        Entry::Fork(107, 108),
        Entry::End(Some(ShortTCoefficient::Run { last: true, run: 19, level: 1 })),
        Entry::End(Some(ShortTCoefficient::Run { last: true, run: 18, level: 1 })),
        Entry::Fork(110, 117),
        Entry::Fork(111, 114),
        Entry::Fork(112, 113),
        Entry::End(Some(ShortTCoefficient::Run { last: true, run: 17, level: 1 })),
        Entry::End(Some(ShortTCoefficient::Run { last: true, run: 0, level: 2 })),
        Entry::Fork(115, 116),
        Entry::End(Some(ShortTCoefficient::Run { last: false, run: 22, level: 1 })),
        Entry::End(Some(ShortTCoefficient::Run { last: false, run: 21, level: 1 })),
        Entry::Fork(118, 121),
        Entry::Fork(119, 120),
        Entry::End(Some(ShortTCoefficient::Run { last: false, run: 20, level: 1 })),
        Entry::End(Some(ShortTCoefficient::Run { last: false, run: 19, level: 1 })),
        Entry::Fork(122, 123),
        Entry::End(Some(ShortTCoefficient::Run { last: false, run: 18, level: 1 })),
        Entry::End(Some(ShortTCoefficient::Run { last: false, run: 17, level: 1 })),
        Entry::Fork(174, 125),
        Entry::Fork(127, 126),
        Entry::End(Some(ShortTCoefficient::EscapeToLong)),
        Entry::Fork(128, 143),
        Entry::Fork(129, 136),
        Entry::Fork(130, 133),
        Entry::Fork(131, 132),
        Entry::End(Some(ShortTCoefficient::Run { last: false, run: 0, level: 12 })),
        Entry::End(Some(ShortTCoefficient::Run { last: false, run: 1, level: 5 })),
        Entry::Fork(134, 135),
        Entry::End(Some(ShortTCoefficient::Run { last: false, run: 23, level: 1 })),
        Entry::End(Some(ShortTCoefficient::Run { last: false, run: 24, level: 1 })),
        Entry::Fork(137, 140),
        Entry::Fork(138, 139),
        Entry::End(Some(ShortTCoefficient::Run { last: true, run: 29, level: 1 })),
        Entry::End(Some(ShortTCoefficient::Run { last: true, run: 30, level: 1 })),
        Entry::Fork(141, 142),
        Entry::End(Some(ShortTCoefficient::Run { last: true, run: 31, level: 1 })),
        Entry::End(Some(ShortTCoefficient::Run { last: true, run: 32, level: 1 })),
        Entry::Fork(144, 159),
        Entry::Fork(145, 152),
        Entry::Fork(146, 149),
        Entry::Fork(147, 148),
        Entry::End(Some(ShortTCoefficient::Run { last: false, run: 1, level: 6 })),
        Entry::End(Some(ShortTCoefficient::Run { last: false, run: 2, level: 4 })),
        Entry::Fork(150, 151),
        Entry::End(Some(ShortTCoefficient::Run { last: false, run: 4, level: 3 })),
        Entry::End(Some(ShortTCoefficient::Run { last: false, run: 5, level: 3 })),
        Entry::Fork(153, 156),
        Entry::Fork(154, 155),
        Entry::End(Some(ShortTCoefficient::Run { last: false, run: 6, level: 3 })),
        Entry::End(Some(ShortTCoefficient::Run { last: false, run: 10, level: 2 })),
        Entry::Fork(157, 158),
        Entry::End(Some(ShortTCoefficient::Run { last: false, run: 25, level: 1 })),
        Entry::End(Some(ShortTCoefficient::Run { last: false, run: 26, level: 1 })),
        Entry::Fork(160, 167),
        Entry::Fork(161, 164),
        Entry::Fork(162, 163),
        Entry::End(Some(ShortTCoefficient::Run { last: true, run: 33, level: 1 })),
        Entry::End(Some(ShortTCoefficient::Run { last: true, run: 34, level: 1 })),
        Entry::Fork(165, 166),
        Entry::End(Some(ShortTCoefficient::Run { last: true, run: 35, level: 1 })),
        Entry::End(Some(ShortTCoefficient::Run { last: true, run: 36, level: 1 })),
        Entry::Fork(168, 171),
        Entry::Fork(169, 170),
        Entry::End(Some(ShortTCoefficient::Run { last: true, run: 37, level: 1 })),
        Entry::End(Some(ShortTCoefficient::Run { last: true, run: 38, level: 1 })),
        Entry::Fork(172, 173),
        Entry::End(Some(ShortTCoefficient::Run { last: true, run: 39, level: 1 })),
        Entry::End(Some(ShortTCoefficient::Run { last: true, run: 40, level: 1 })),
        Entry::Fork(190, 175),
        Entry::Fork(176, 183),
        Entry::Fork(177, 180),
        Entry::Fork(178, 179),
        Entry::End(Some(ShortTCoefficient::Run { last: false, run: 9, level: 2 })),
        Entry::End(Some(ShortTCoefficient::Run { last: false, run: 8, level: 2 })),
        Entry::Fork(181, 182),
        Entry::End(Some(ShortTCoefficient::Run { last: false, run: 7, level: 2 })),
        Entry::End(Some(ShortTCoefficient::Run { last: false, run: 6, level: 2 })),
        Entry::Fork(184, 187),
        Entry::Fork(185, 186),
        Entry::End(Some(ShortTCoefficient::Run { last: false, run: 5, level: 2 })),
        Entry::End(Some(ShortTCoefficient::Run { last: false, run: 3, level: 3 })),
        Entry::Fork(188, 189),
        Entry::End(Some(ShortTCoefficient::Run { last: false, run: 2, level: 3 })),
        Entry::End(Some(ShortTCoefficient::Run { last: false, run: 1, level: 4 })),
        Entry::Fork(198, 191),
        Entry::Fork(192, 195),
        Entry::Fork(193, 194),
        Entry::End(Some(ShortTCoefficient::Run { last: true, run: 28, level: 1 })),
        Entry::End(Some(ShortTCoefficient::Run { last: true, run: 27, level: 1 })),
        Entry::Fork(196, 197),
        Entry::End(Some(ShortTCoefficient::Run { last: true, run: 26, level: 1 })),
        Entry::End(Some(ShortTCoefficient::Run { last: true, run: 25, level: 1 })),
        Entry::Fork(206, 199),
        Entry::Fork(200, 203),
        Entry::Fork(201, 202),
        Entry::End(Some(ShortTCoefficient::Run { last: true, run: 1, level: 2 })),
        Entry::End(Some(ShortTCoefficient::Run { last: true, run: 0, level: 3 })),
        Entry::Fork(204, 205),
        Entry::End(Some(ShortTCoefficient::Run { last: false, run: 0, level: 11 })),
        Entry::End(Some(ShortTCoefficient::Run { last: false, run: 0, level: 10 })),
        Entry::End(None),
    ]
}

/// The `TCOEF` code table, table 16 of H.263 (01/2005). `ESCAPE` decodes
/// to the long form; the sign bit follows each short code.
pub fn tcoef_table() -> (r: Vec<Entry<Option<ShortTCoefficient>>>)
    ensures
        r@ == spec_tcoef_table(),
        r@.len() == 207,
{
    let r: Vec<Entry<Option<ShortTCoefficient>>> = vec![
        Entry::Fork(8, 1),
        Entry::Fork(2, 3),
        Entry::End(Some(ShortTCoefficient::Run { last: false, run: 0, level: 1 })),
        Entry::Fork(4, 5),
        Entry::End(Some(ShortTCoefficient::Run { last: false, run: 1, level: 1 })),
        Entry::Fork(6, 7),
        Entry::End(Some(ShortTCoefficient::Run { last: false, run: 2, level: 1 })),
        Entry::End(Some(ShortTCoefficient::Run { last: false, run: 0, level: 2 })),
        Entry::Fork(28, 9),
        Entry::Fork(15, 10),
        Entry::Fork(12, 11),
        Entry::End(Some(ShortTCoefficient::Run { last: true, run: 0, level: 1 })),
        Entry::Fork(13, 14),
        Entry::End(Some(ShortTCoefficient::Run { last: false, run: 4, level: 1 })),
        Entry::End(Some(ShortTCoefficient::Run { last: false, run: 3, level: 1 })),
        Entry::Fork(16, 23),
        Entry::Fork(17, 20),
        Entry::Fork(18, 19),
        Entry::End(Some(ShortTCoefficient::Run { last: false, run: 9, level: 1 })),
        Entry::End(Some(ShortTCoefficient::Run { last: false, run: 8, level: 1 })),
        Entry::Fork(21, 22),
        Entry::End(Some(ShortTCoefficient::Run { last: false, run: 7, level: 1 })),
        Entry::End(Some(ShortTCoefficient::Run { last: false, run: 6, level: 1 })),
        Entry::Fork(25, 24),
        Entry::End(Some(ShortTCoefficient::Run { last: false, run: 5, level: 1 })),
        Entry::Fork(26, 27),
        Entry::End(Some(ShortTCoefficient::Run { last: false, run: 1, level: 2 })),
        Entry::End(Some(ShortTCoefficient::Run { last: false, run: 0, level: 3 })),
        Entry::Fork(52, 29),
        Entry::Fork(37, 30),
        Entry::Fork(31, 34),
        Entry::Fork(32, 33),
        Entry::End(Some(ShortTCoefficient::Run { last: true, run: 4, level: 1 })),
        Entry::End(Some(ShortTCoefficient::Run { last: true, run: 3, level: 1 })),
        Entry::Fork(35, 36),
        Entry::End(Some(ShortTCoefficient::Run { last: true, run: 2, level: 1 })),
        Entry::End(Some(ShortTCoefficient::Run { last: true, run: 1, level: 1 })),
        Entry::Fork(38, 45),
        Entry::Fork(39, 42),
        Entry::Fork(40, 41),
        Entry::End(Some(ShortTCoefficient::Run { last: true, run: 8, level: 1 })),
        Entry::End(Some(ShortTCoefficient::Run { last: true, run: 7, level: 1 })),
        Entry::Fork(43, 44),
        Entry::End(Some(ShortTCoefficient::Run { last: true, run: 6, level: 1 })),
        Entry::End(Some(ShortTCoefficient::Run { last: true, run: 5, level: 1 })),
        Entry::Fork(46, 49),
        Entry::Fork(47, 48),
        Entry::End(Some(ShortTCoefficient::Run { last: false, run: 12, level: 1 })),
        Entry::End(Some(ShortTCoefficient::Run { last: false, run: 11, level: 1 })),
        Entry::Fork(50, 51),
        Entry::End(Some(ShortTCoefficient::Run { last: false, run: 10, level: 1 })),
        Entry::End(Some(ShortTCoefficient::Run { last: false, run: 0, level: 4 })),
        Entry::Fork(90, 53),
        Entry::Fork(69, 54),
        Entry::Fork(55, 62),
        Entry::Fork(56, 59),
        Entry::Fork(57, 58),
        Entry::End(Some(ShortTCoefficient::Run { last: true, run: 11, level: 1 })),
        Entry::End(Some(ShortTCoefficient::Run { last: true, run: 10, level: 1 })),
        Entry::Fork(60, 61),
        Entry::End(Some(ShortTCoefficient::Run { last: true, run: 9, level: 1 })),
        Entry::End(Some(ShortTCoefficient::Run { last: false, run: 14, level: 1 })),
        Entry::Fork(63, 66),
        Entry::Fork(64, 65),
        Entry::End(Some(ShortTCoefficient::Run { last: false, run: 13, level: 1 })),
        Entry::End(Some(ShortTCoefficient::Run { last: false, run: 2, level: 2 })),
        Entry::Fork(67, 68),
        Entry::End(Some(ShortTCoefficient::Run { last: false, run: 1, level: 3 })),
        Entry::End(Some(ShortTCoefficient::Run { last: false, run: 0, level: 5 })),
        Entry::Fork(77, 70),
        Entry::Fork(71, 74),
        Entry::Fork(72, 73),
        Entry::End(Some(ShortTCoefficient::Run { last: true, run: 15, level: 1 })),
        Entry::End(Some(ShortTCoefficient::Run { last: true, run: 14, level: 1 })),
        Entry::Fork(75, 76),
        Entry::End(Some(ShortTCoefficient::Run { last: true, run: 13, level: 1 })),
        Entry::End(Some(ShortTCoefficient::Run { last: true, run: 12, level: 1 })),
        Entry::Fork(78, 85),
        Entry::Fork(79, 82),
        Entry::Fork(80, 81),
        Entry::End(Some(ShortTCoefficient::Run { last: false, run: 16, level: 1 })),
        Entry::End(Some(ShortTCoefficient::Run { last: false, run: 15, level: 1 })),
        Entry::Fork(83, 84),
        Entry::End(Some(ShortTCoefficient::Run { last: false, run: 4, level: 2 })),
        Entry::End(Some(ShortTCoefficient::Run { last: false, run: 3, level: 2 })),
        Entry::Fork(86, 89),
        Entry::Fork(87, 88),
        Entry::End(Some(ShortTCoefficient::Run { last: false, run: 0, level: 7 })),
        Entry::End(Some(ShortTCoefficient::Run { last: false, run: 0, level: 6 })),
        Entry::End(Some(ShortTCoefficient::Run { last: true, run: 16, level: 1 })),
        Entry::Fork(124, 91),
        Entry::Fork(92, 109),
        Entry::Fork(93, 102),
        Entry::Fork(94, 99),
        Entry::Fork(95, 98),
        Entry::Fork(96, 97),
        Entry::End(Some(ShortTCoefficient::Run { last: false, run: 0, level: 9 })),
        Entry::End(Some(ShortTCoefficient::Run { last: false, run: 0, level: 8 })),
        Entry::End(Some(ShortTCoefficient::Run { last: true, run: 24, level: 1 })),
        Entry::Fork(100, 101),
        Entry::End(Some(ShortTCoefficient::Run { last: true, run: 23, level: 1 })),
        Entry::End(Some(ShortTCoefficient::Run { last: true, run: 22, level: 1 })),
        Entry::Fork(103, 106),
        Entry::Fork(104, 105),
        Entry::End(Some(ShortTCoefficient::Run { last: true, run: 21, level: 1 })),
        Entry::End(Some(ShortTCoefficient::Run { last: true, run: 20, level: 1 })),
        Entry::Fork(107, 108),
        Entry::End(Some(ShortTCoefficient::Run { last: true, run: 19, level: 1 })),
        Entry::End(Some(ShortTCoefficient::Run { last: true, run: 18, level: 1 })),
        Entry::Fork(110, 117),
        Entry::Fork(111, 114),
        Entry::Fork(112, 113),
        Entry::End(Some(ShortTCoefficient::Run { last: true, run: 17, level: 1 })),
        Entry::End(Some(ShortTCoefficient::Run { last: true, run: 0, level: 2 })),
        Entry::Fork(115, 116),
        Entry::End(Some(ShortTCoefficient::Run { last: false, run: 22, level: 1 })),
        Entry::End(Some(ShortTCoefficient::Run { last: false, run: 21, level: 1 })),
        Entry::Fork(118, 121),
        Entry::Fork(119, 120),
        Entry::End(Some(ShortTCoefficient::Run { last: false, run: 20, level: 1 })),
        Entry::End(Some(ShortTCoefficient::Run { last: false, run: 19, level: 1 })),
        Entry::Fork(122, 123),
        Entry::End(Some(ShortTCoefficient::Run { last: false, run: 18, level: 1 })),
        Entry::End(Some(ShortTCoefficient::Run { last: false, run: 17, level: 1 })),
        Entry::Fork(174, 125),
        Entry::Fork(127, 126),
        Entry::End(Some(ShortTCoefficient::EscapeToLong)),
        Entry::Fork(128, 143),
        Entry::Fork(129, 136),
        Entry::Fork(130, 133),
        Entry::Fork(131, 132),
        Entry::End(Some(ShortTCoefficient::Run { last: false, run: 0, level: 12 })),
        Entry::End(Some(ShortTCoefficient::Run { last: false, run: 1, level: 5 })),
        Entry::Fork(134, 135),
        Entry::End(Some(ShortTCoefficient::Run { last: false, run: 23, level: 1 })),
        Entry::End(Some(ShortTCoefficient::Run { last: false, run: 24, level: 1 })),
        Entry::Fork(137, 140),
        Entry::Fork(138, 139),
        Entry::End(Some(ShortTCoefficient::Run { last: true, run: 29, level: 1 })),
        Entry::End(Some(ShortTCoefficient::Run { last: true, run: 30, level: 1 })),
        Entry::Fork(141, 142),
        Entry::End(Some(ShortTCoefficient::Run { last: true, run: 31, level: 1 })),
        Entry::End(Some(ShortTCoefficient::Run { last: true, run: 32, level: 1 })),
        Entry::Fork(144, 159),
        Entry::Fork(145, 152),
        Entry::Fork(146, 149),
        Entry::Fork(147, 148),
        Entry::End(Some(ShortTCoefficient::Run { last: false, run: 1, level: 6 })),
        Entry::End(Some(ShortTCoefficient::Run { last: false, run: 2, level: 4 })),
        Entry::Fork(150, 151),
        Entry::End(Some(ShortTCoefficient::Run { last: false, run: 4, level: 3 })),
        Entry::End(Some(ShortTCoefficient::Run { last: false, run: 5, level: 3 })),
        Entry::Fork(153, 156),
        Entry::Fork(154, 155),
        Entry::End(Some(ShortTCoefficient::Run { last: false, run: 6, level: 3 })),
        Entry::End(Some(ShortTCoefficient::Run { last: false, run: 10, level: 2 })),
        Entry::Fork(157, 158),
        Entry::End(Some(ShortTCoefficient::Run { last: false, run: 25, level: 1 })),
        Entry::End(Some(ShortTCoefficient::Run { last: false, run: 26, level: 1 })),
        Entry::Fork(160, 167),
        Entry::Fork(161, 164),
        Entry::Fork(162, 163),
        Entry::End(Some(ShortTCoefficient::Run { last: true, run: 33, level: 1 })),
        Entry::End(Some(ShortTCoefficient::Run { last: true, run: 34, level: 1 })),
        Entry::Fork(165, 166),
        Entry::End(Some(ShortTCoefficient::Run { last: true, run: 35, level: 1 })),
        Entry::End(Some(ShortTCoefficient::Run { last: true, run: 36, level: 1 })),
        Entry::Fork(168, 171),
        Entry::Fork(169, 170),
        Entry::End(Some(ShortTCoefficient::Run { last: true, run: 37, level: 1 })),
        Entry::End(Some(ShortTCoefficient::Run { last: true, run: 38, level: 1 })),
        Entry::Fork(172, 173),
        Entry::End(Some(ShortTCoefficient::Run { last: true, run: 39, level: 1 })),
        Entry::End(Some(ShortTCoefficient::Run { last: true, run: 40, level: 1 })),
        Entry::Fork(190, 175),
        Entry::Fork(176, 183),
        Entry::Fork(177, 180),
        Entry::Fork(178, 179),
        Entry::End(Some(ShortTCoefficient::Run { last: false, run: 9, level: 2 })),
        Entry::End(Some(ShortTCoefficient::Run { last: false, run: 8, level: 2 })),
        Entry::Fork(181, 182),
        Entry::End(Some(ShortTCoefficient::Run { last: false, run: 7, level: 2 })),
        Entry::End(Some(ShortTCoefficient::Run { last: false, run: 6, level: 2 })),
        Entry::Fork(184, 187),
        Entry::Fork(185, 186),
        Entry::End(Some(ShortTCoefficient::Run { last: false, run: 5, level: 2 })),
        Entry::End(Some(ShortTCoefficient::Run { last: false, run: 3, level: 3 })),
        Entry::Fork(188, 189),
        Entry::End(Some(ShortTCoefficient::Run { last: false, run: 2, level: 3 })),
        Entry::End(Some(ShortTCoefficient::Run { last: false, run: 1, level: 4 })),
        Entry::Fork(198, 191),
        Entry::Fork(192, 195),
        Entry::Fork(193, 194),
        Entry::End(Some(ShortTCoefficient::Run { last: true, run: 28, level: 1 })),
        Entry::End(Some(ShortTCoefficient::Run { last: true, run: 27, level: 1 })),
        Entry::Fork(196, 197),
        Entry::End(Some(ShortTCoefficient::Run { last: true, run: 26, level: 1 })),
        Entry::End(Some(ShortTCoefficient::Run { last: true, run: 25, level: 1 })),
        Entry::Fork(206, 199),
        Entry::Fork(200, 203),
        Entry::Fork(201, 202),
        Entry::End(Some(ShortTCoefficient::Run { last: true, run: 1, level: 2 })),
        Entry::End(Some(ShortTCoefficient::Run { last: true, run: 0, level: 3 })),
        Entry::Fork(204, 205),
        Entry::End(Some(ShortTCoefficient::Run { last: false, run: 0, level: 11 })),
        Entry::End(Some(ShortTCoefficient::Run { last: false, run: 0, level: 10 })),
        Entry::End(None),
    ];
    proof {
        assert(r@ =~= spec_tcoef_table());
    }
    r
}

/// Every coefficient of a decoded block is non-zero and holds at most
/// eight significant bits of magnitude.
pub open spec fn block_coefficients_valid(b: Block) -> bool {
    forall|i: int|
        0 <= i < b.tcoef@.len() ==> (#[trigger] b.tcoef@[i]).level != 0 && -255
            <= b.tcoef@[i].level <= 255
}

/// Decode the coefficients of one block from the bitstream.
///
/// An `INTRADC` byte is read exactly for INTRA macroblock types; `TCOEF`
/// events are read exactly when the block is `coded`, up to and including
/// the event marked last. On any error the reader is rolled back to where
/// it started.
pub fn decode_block(
    reader: &mut H263Reader,
    running_options: PictureOption,
    macroblock_type: MacroblockType,
    coded: bool,
) -> (r: Result<Block, Error>)
    requires
        old(reader).wf(),
    ensures
        final(reader).wf(),
        final(reader).bytes() == old(reader).bytes(),
        match r {
            Ok(b) => (b.intradc is Some <==> (macroblock_type == MacroblockType::Intra
                || macroblock_type == MacroblockType::IntraQ)) && (!coded ==> b.tcoef@.len() == 0)
                && (coded ==> b.tcoef@.len() >= 1) && block_coefficients_valid(b),
            Err(_) => final(reader).pos() == old(reader).pos(),
        },
        // An uncoded block reads nothing but the `INTRADC` byte of INTRA
        // macroblock types, whose invalid codes 0 and 128 are rejected.
        (macroblock_type != MacroblockType::Intra && macroblock_type != MacroblockType::IntraQ
            && !coded) ==> (r matches Ok(b) && b.intradc is None && b.tcoef@.len() == 0 && final(reader).pos() == old(reader).pos()),
        (
        (macroblock_type == MacroblockType::Intra || macroblock_type == MacroblockType::IntraQ)
            && !coded && old(reader).pos() + 8 <= old(reader).total_bits()) ==> ({
            let code = stream_value(old(reader).bytes(), old(reader).pos() as int, 8);
            if code == 0 || code == 128 {
                r == Result::<Block, Error>::Err(Error::InvalidBitstream)
            } else {
                r matches Ok(b) && (b.intradc matches Some(dc) && dc.code() == code)
                    && b.tcoef@.len() == 0 && final(reader).pos() == old(reader).pos() + 8
            }
        }),
        // Outside the INTRA types, a coded block whose first `TCOEF` code
        // is a reserved prefix is an invalid bitstream.
        (macroblock_type != MacroblockType::Intra && macroblock_type != MacroblockType::IntraQ
            && coded && (crate::vlc::vlc_walk(
            spec_tcoef_table(),
            old(reader).bytes(),
            old(reader).pos() as int,
            0,
            spec_tcoef_table().len(),
        ) matches crate::vlc::VlcOutcome::Value(entry, _) && entry is None)) ==> r
            == Result::<Block, Error>::Err(Error::InvalidBitstream),
{
    let cp = reader.checkpoint();
    let r = decode_block_inner(reader, running_options, macroblock_type, coded);
    match r {
        Err(e) => {
            reader.restore(cp);
            Err(e)
        },
        Ok(b) => Ok(b),
    }
}

/// The body of `decode_block`, without the rollback on failure.
fn decode_block_inner(
    reader: &mut H263Reader,
    running_options: PictureOption,
    macroblock_type: MacroblockType,
    coded: bool,
) -> (r: Result<Block, Error>)
    requires
        old(reader).wf(),
    ensures
        final(reader).wf(),
        final(reader).bytes() == old(reader).bytes(),
        match r {
            Ok(b) => (b.intradc is Some <==> (macroblock_type == MacroblockType::Intra
                || macroblock_type == MacroblockType::IntraQ)) && (!coded ==> b.tcoef@.len() == 0)
                && (coded ==> b.tcoef@.len() >= 1) && block_coefficients_valid(b),
            Err(_) => true,
        },
        // An uncoded block reads nothing but the `INTRADC` byte of INTRA
        // macroblock types, whose invalid codes 0 and 128 are rejected.
        (macroblock_type != MacroblockType::Intra && macroblock_type != MacroblockType::IntraQ
            && !coded) ==> (r matches Ok(b) && b.intradc is None && b.tcoef@.len() == 0 && final(reader).pos() == old(reader).pos()),
        (
        (macroblock_type == MacroblockType::Intra || macroblock_type == MacroblockType::IntraQ)
            && !coded && old(reader).pos() + 8 <= old(reader).total_bits()) ==> ({
            let code = stream_value(old(reader).bytes(), old(reader).pos() as int, 8);
            if code == 0 || code == 128 {
                r == Result::<Block, Error>::Err(Error::InvalidBitstream)
            } else {
                r matches Ok(b) && (b.intradc matches Some(dc) && dc.code() == code)
                    && b.tcoef@.len() == 0 && final(reader).pos() == old(reader).pos() + 8
            }
        }),
        // Outside the INTRA types, a coded block whose first `TCOEF` code
        // is a reserved prefix is an invalid bitstream.
        (macroblock_type != MacroblockType::Intra && macroblock_type != MacroblockType::IntraQ
            && coded && (crate::vlc::vlc_walk(
            spec_tcoef_table(),
            old(reader).bytes(),
            old(reader).pos() as int,
            0,
            spec_tcoef_table().len(),
        ) matches crate::vlc::VlcOutcome::Value(entry, _) && entry is None)) ==> r
            == Result::<Block, Error>::Err(Error::InvalidBitstream),
{
    let intradc = if macroblock_type.is_intra() {
        let code = match reader.read_u8() {
            Ok(v) => v,
            Err(e) => {
                return Err(e);
            },
        };
        match IntraDc::from_u8(code as u8) {
            Some(dc) => Some(dc),
            None => {
                return Err(Error::InvalidBitstream);
            },
        }
    } else {
        None
    };
    let mut tcoef: Vec<TCoefficient> = Vec::new();
    if coded {
        let table = tcoef_table();
        loop
            invariant
                coded,
                table@ == spec_tcoef_table(),
                reader.wf(),
                reader.bytes() == old(reader).bytes(),
                (tcoef@.len() == 0 && !(macroblock_type == MacroblockType::Intra
                    || macroblock_type == MacroblockType::IntraQ)) ==> reader.pos() == old(
                    reader,
                ).pos(),
                (tcoef@.len() > 0 && !(macroblock_type == MacroblockType::Intra
                    || macroblock_type == MacroblockType::IntraQ)) ==> !(crate::vlc::vlc_walk(
                    spec_tcoef_table(),
                    old(reader).bytes(),
                    old(reader).pos() as int,
                    0,
                    spec_tcoef_table().len(),
                ) matches crate::vlc::VlcOutcome::Value(entry, _) && entry is None),
                forall|i: int|
                    0 <= i < tcoef@.len() ==> (#[trigger] tcoef@[i]).level != 0 && -255
                        <= tcoef@[i].level <= 255,
            ensures
                reader.wf(),
                reader.bytes() == old(reader).bytes(),
                tcoef@.len() >= 1,
                (tcoef@.len() > 0 && !(macroblock_type == MacroblockType::Intra
                    || macroblock_type == MacroblockType::IntraQ)) ==> !(crate::vlc::vlc_walk(
                    spec_tcoef_table(),
                    old(reader).bytes(),
                    old(reader).pos() as int,
                    0,
                    spec_tcoef_table().len(),
                ) matches crate::vlc::VlcOutcome::Value(entry, _) && entry is None),
                forall|i: int|
                    0 <= i < tcoef@.len() ==> (#[trigger] tcoef@[i]).level != 0 && -255
                        <= tcoef@[i].level <= 255,
            decreases reader.total_bits() - reader.pos(),
        {
            let ghost pre = *reader;
            let short = match reader.read_vlc(&table) {
                Ok(v) => v,
                Err(e) => {
                    return Err(e);
                },
            };
            proof {
                lemma_vlc_walk_advances(
                    table@,
                    pre.bytes(),
                    pre.pos() as int,
                    0,
                    table@.len(),
                );
            }
            let last = match short {
                None => {
                    return Err(Error::InvalidBitstream);
                },
                Some(ShortTCoefficient::EscapeToLong) => {
                    let last_bit = match reader.read_bits(1) {
                        Ok(v) => v,
                        Err(e) => {
                            return Err(e);
                        },
                    };
                    let run = match reader.read_bits(6) {
                        Ok(v) => v,
                        Err(e) => {
                            return Err(e);
                        },
                    };
                    let level_code = match reader.read_bits(8) {
                        Ok(v) => v,
                        Err(e) => {
                            return Err(e);
                        },
                    };
                    proof {
                        crate::reader::lemma_stream_value_bound(
                            reader.bytes(),
                            reader.pos() as int - 8,
                            8,
                        );
                        vstd::arithmetic::power2::lemma2_to64();
                    }
                    if level_code == 0 {
                        return Err(Error::InvalidBitstream);
                    }
                    if level_code == 0x80 {
                        if running_options.contains(MODIFIED_QUANTIZATION) {
                            return Err(Error::UnimplementedDecoding);
                        } else {
                            return Err(Error::InvalidBitstream);
                        }
                    }
                    proof {
                        crate::reader::lemma_stream_value_bound(
                            reader.bytes(),
                            reader.pos() as int - 14,
                            6,
                        );
                    }
                    let level: i16 = if level_code >= 128 {
                        level_code as i16 - 256
                    } else {
                        level_code as i16
                    };
                    tcoef.push(
                        TCoefficient { is_short: false, run: run as u8, level },
                    );
                    last_bit == 0
                },
                Some(ShortTCoefficient::Run { last, run, level }) => {
                    let sign = match reader.read_bits(1) {
                        Ok(v) => v,
                        Err(e) => {
                            return Err(e);
                        },
                    };
                    if level == 0 {
                        return Err(Error::InternalDecoderError);
                    }
                    let level_i: i16 = if sign == 1 {
                        -(level as i16)
                    } else {
                        level as i16
                    };
                    tcoef.push(TCoefficient { is_short: true, run, level: level_i });
                    last
                },
            };
            if last {
                break;
            }
        }
    }
    Ok(Block { intradc, tcoef })
}

} // verus!
