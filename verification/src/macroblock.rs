//! Macroblock-layer decoding: the `MCBPC`, `MODB`, `CBPY` and `MVD` code
//! tables, and the macroblock header parser.

use crate::error::Error;
use crate::reader::{stream_bit, umv_decode_at, H263Reader, UmvOutcome};
use crate::vlc::{vlc_walk, VlcOutcome};
use crate::types::{
    CodedBlockPattern, HalfPel, Macroblock, MacroblockType, MotionVector, Picture, PictureOption,
    PictureTypeCode, ADVANCED_PREDICTION, MODIFIED_QUANTIZATION, UNRESTRICTED_MOTION_VECTORS,
};
use crate::vlc::Entry;
use vstd::prelude::*;

verus! {

/// The outcome of looking up a macroblock type and chroma block pattern in
/// the `MCBPC` code table.
#[derive(Copy, Clone, Debug, PartialEq, Eq)]
pub enum BlockPatternEntry {
    /// Non-coding bits inserted to avoid long runs of zeroes.
    Stuffing,

    /// A prefix that no valid bitstream contains.
    Invalid,

    /// A valid code: the macroblock type, and whether each chroma block is
    /// coded.
    Valid(MacroblockType, bool, bool),
}

/// The `MCBPC` code table for I-pictures, as the runtime constructor builds it.
pub open spec fn spec_mcbpc_i_table() -> Seq<Entry<BlockPatternEntry>> {
    seq![
        Entry::Fork(2, 1),
        Entry::End(BlockPatternEntry::Valid( MacroblockType::Intra, false, false, )),
        Entry::Fork(6, 3),
        Entry::Fork(4, 5),
        Entry::End(BlockPatternEntry::Valid(MacroblockType::Intra, true, false)),
        Entry::End(BlockPatternEntry::Valid(MacroblockType::Intra, true, true)),
        Entry::Fork(8, 7),
        Entry::End(BlockPatternEntry::Valid(MacroblockType::Intra, false, true)),
        Entry::Fork(10, 9),
        Entry::End(BlockPatternEntry::Valid( MacroblockType::IntraQ, false, false, )),
        Entry::Fork(14, 11),
        Entry::Fork(12, 13),
        Entry::End(BlockPatternEntry::Valid( MacroblockType::IntraQ, true, false, )),
        Entry::End(BlockPatternEntry::Valid(MacroblockType::IntraQ, true, true)),
        Entry::Fork(16, 20),
        Entry::End(BlockPatternEntry::Invalid),
        Entry::Fork(17, 15),
        Entry::Fork(18, 15),
        Entry::Fork(15, 19),
        Entry::End(BlockPatternEntry::Stuffing),
        Entry::End(BlockPatternEntry::Valid( MacroblockType::IntraQ, false, true, )),
    ]
}

/// The `MCBPC` code table for P-pictures, as the runtime constructor builds it.
pub open spec fn spec_mcbpc_p_table() -> Seq<Entry<BlockPatternEntry>> {
    seq![
        Entry::Fork(2, 1),
        Entry::End(BlockPatternEntry::Valid( MacroblockType::Inter, false, false, )),
        Entry::Fork(6, 3),
        Entry::Fork(4, 5),
        Entry::End(BlockPatternEntry::Valid( MacroblockType::Inter4V, false, false, )),
        Entry::End(BlockPatternEntry::Valid( MacroblockType::InterQ, false, false, )),
        Entry::Fork(10, 7),
        Entry::Fork(8, 9),
        Entry::End(BlockPatternEntry::Valid(MacroblockType::Inter, true, false)),
        Entry::End(BlockPatternEntry::Valid(MacroblockType::Inter, false, true)),
        Entry::Fork(16, 11),
        Entry::Fork(13, 12),
        Entry::End(BlockPatternEntry::Valid( MacroblockType::Intra, false, false, )),
        Entry::Fork(14, 15),
        Entry::End(BlockPatternEntry::Valid( MacroblockType::IntraQ, false, false, )),
        Entry::End(BlockPatternEntry::Valid(MacroblockType::Inter, true, true)),
        Entry::Fork(24, 17),
        Entry::Fork(18, 21),
        Entry::Fork(19, 20),
        Entry::End(BlockPatternEntry::Valid( MacroblockType::Inter4V, true, false, )),
        Entry::End(BlockPatternEntry::Valid( MacroblockType::Inter4V, false, true, )),
        Entry::Fork(22, 23),
        Entry::End(BlockPatternEntry::Valid( MacroblockType::InterQ, true, false, )),
        Entry::End(BlockPatternEntry::Valid( MacroblockType::InterQ, false, true, )),
        Entry::Fork(30, 25),
        Entry::Fork(27, 26),
        Entry::End(BlockPatternEntry::Valid(MacroblockType::Intra, true, true)),
        Entry::Fork(28, 29),
        Entry::End(BlockPatternEntry::Valid(MacroblockType::Intra, false, true)),
        Entry::End(BlockPatternEntry::Valid( MacroblockType::Inter4V, true, true, )),
        Entry::Fork(36, 31),
        Entry::Fork(33, 32),
        Entry::End(BlockPatternEntry::Valid(MacroblockType::Intra, true, false)),
        Entry::Fork(34, 35),
        Entry::End(BlockPatternEntry::Valid( MacroblockType::IntraQ, false, true, )),
        Entry::End(BlockPatternEntry::Valid(MacroblockType::InterQ, true, true)),
        Entry::Fork(40, 37),
        Entry::Fork(38, 39),
        Entry::End(BlockPatternEntry::Valid(MacroblockType::IntraQ, true, true)),
        Entry::End(BlockPatternEntry::Valid( MacroblockType::IntraQ, true, false, )),
        Entry::Fork(42, 41),
        Entry::End(BlockPatternEntry::Stuffing),
        Entry::Fork(43, 44),
        Entry::End(BlockPatternEntry::Invalid),
        Entry::Fork(45, 46),
        Entry::End(BlockPatternEntry::Valid( MacroblockType::Inter4Vq, false, false, )),
        Entry::Fork(47, 50),
        Entry::Fork(48, 49),
        Entry::End(BlockPatternEntry::Valid( MacroblockType::Inter4Vq, false, true, )),
        Entry::End(BlockPatternEntry::Invalid),
        Entry::Fork(51, 52),
        Entry::End(BlockPatternEntry::Valid( MacroblockType::Inter4Vq, true, false, )),
        Entry::End(BlockPatternEntry::Valid( MacroblockType::Inter4Vq, true, true, )),
    ]
}

/// The `MODB` code table, as the runtime constructor builds it.
pub open spec fn spec_modb_table() -> Seq<Entry<(bool, bool)>> {
    seq![
        Entry::Fork(1, 2),
        Entry::End((false, false)),
        Entry::Fork(3, 4),
        Entry::End((false, true)),
        Entry::End((true, true)),
    ]
}

/// The `CBPY` code table in its INTRA form, as the runtime constructor builds it.
pub open spec fn spec_cbpy_table_intra() -> Seq<Entry<Option<[bool; 4]>>> {
    seq![
        Entry::Fork(1, 24),
        Entry::Fork(2, 17),
        Entry::Fork(3, 12),
        Entry::Fork(4, 9),
        Entry::Fork(5, 6),
        Entry::End(None),
        Entry::Fork(7, 8),
        Entry::End(Some([false, true, true, false])),
        Entry::End(Some([true, false, false, true])),
        Entry::Fork(10, 11),
        Entry::End(Some([true, false, false, false])),
        Entry::End(Some([false, true, false, false])),
        Entry::Fork(13, 16),
        Entry::Fork(14, 15),
        Entry::End(Some([false, false, true, false])),
        Entry::End(Some([false, false, false, true])),
        Entry::End(Some([false, false, false, false])),
        Entry::Fork(18, 21),
        Entry::Fork(19, 20),
        Entry::End(Some([true, true, false, false])),
        Entry::End(Some([true, false, true, false])),
        Entry::Fork(22, 23),
        Entry::End(Some([true, true, true, false])),
        Entry::End(Some([false, true, false, true])),
        Entry::Fork(25, 32),
        Entry::Fork(26, 29),
        Entry::Fork(27, 28),
        Entry::End(Some([true, true, false, true])),
        Entry::End(Some([false, false, true, true])),
        Entry::Fork(30, 31),
        Entry::End(Some([true, false, true, true])),
        Entry::End(Some([false, true, true, true])),
        Entry::End(Some([true, true, true, true])),
    ]
}

/// The motion-vector differential code table, as the runtime constructor builds it.
pub open spec fn spec_mvd_table() -> Seq<Entry<Option<HalfPel>>> {
    seq![
        Entry::Fork(2, 1),
        Entry::End(Some(HalfPel(0i16))),
        Entry::Fork(6, 3),
        Entry::Fork(4, 5),
        Entry::End(Some(HalfPel(1i16))),
        Entry::End(Some(HalfPel(-1i16))),
        Entry::Fork(10, 7),
        Entry::Fork(8, 9),
        Entry::End(Some(HalfPel(2i16))),
        Entry::End(Some(HalfPel(-2i16))),
        Entry::Fork(14, 11),
        Entry::Fork(12, 13),
        Entry::End(Some(HalfPel(3i16))),
        Entry::End(Some(HalfPel(-3i16))),
        Entry::Fork(26, 15),
        Entry::Fork(19, 16),
        Entry::Fork(17, 18),
        Entry::End(Some(HalfPel(4i16))),
        Entry::End(Some(HalfPel(-4i16))),
        Entry::Fork(23, 20),
        Entry::Fork(21, 22),
        Entry::End(Some(HalfPel(5i16))),
        Entry::End(Some(HalfPel(-5i16))),
        Entry::Fork(24, 25),
        Entry::End(Some(HalfPel(6i16))),
        Entry::End(Some(HalfPel(-6i16))),
        Entry::Fork(50, 27),
        Entry::Fork(31, 28),
        Entry::Fork(29, 30),
        Entry::End(Some(HalfPel(7i16))),
        Entry::End(Some(HalfPel(-7i16))),
        Entry::Fork(39, 32),
        Entry::Fork(36, 33),
        Entry::Fork(34, 35),
        Entry::End(Some(HalfPel(8i16))),
        Entry::End(Some(HalfPel(-8i16))),
        Entry::Fork(37, 38),
        Entry::End(Some(HalfPel(9i16))),
        Entry::End(Some(HalfPel(-9i16))),
        Entry::Fork(43, 40),
        Entry::Fork(41, 42),
        Entry::End(Some(HalfPel(10i16))),
        Entry::End(Some(HalfPel(-10i16))),
        Entry::Fork(47, 44),
        Entry::Fork(45, 46),
        Entry::End(Some(HalfPel(11i16))),
        Entry::End(Some(HalfPel(-11i16))),
        Entry::Fork(48, 49),
        Entry::End(Some(HalfPel(12i16))),
        Entry::End(Some(HalfPel(-12i16))),
        Entry::Fork(82, 51),
        Entry::Fork(67, 52),
        Entry::Fork(60, 53),
        Entry::Fork(57, 54),
        Entry::Fork(55, 56),
        Entry::End(Some(HalfPel(13i16))),
        Entry::End(Some(HalfPel(-13i16))),
        Entry::Fork(58, 59),
        Entry::End(Some(HalfPel(14i16))),
        Entry::End(Some(HalfPel(-14i16))),
        Entry::Fork(64, 61),
        Entry::Fork(62, 63),
        Entry::End(Some(HalfPel(15i16))),
        Entry::End(Some(HalfPel(-15i16))),
        Entry::Fork(65, 66),
        Entry::End(Some(HalfPel(16i16))),
        Entry::End(Some(HalfPel(-16i16))),
        Entry::Fork(75, 68),
        Entry::Fork(72, 69),
        Entry::Fork(70, 71),
        Entry::End(Some(HalfPel(17i16))),
        Entry::End(Some(HalfPel(-17i16))),
        Entry::Fork(73, 74),
        Entry::End(Some(HalfPel(18i16))),
        Entry::End(Some(HalfPel(-18i16))),
        Entry::Fork(79, 76),
        Entry::Fork(77, 78),
        Entry::End(Some(HalfPel(19i16))),
        Entry::End(Some(HalfPel(-19i16))),
        Entry::Fork(80, 81),
        Entry::End(Some(HalfPel(20i16))),
        Entry::End(Some(HalfPel(-20i16))),
        Entry::Fork(98, 83),
        Entry::Fork(91, 84),
        Entry::Fork(88, 85),
        Entry::Fork(86, 87),
        Entry::End(Some(HalfPel(21i16))),
        Entry::End(Some(HalfPel(-21i16))),
        Entry::Fork(89, 90),
        Entry::End(Some(HalfPel(22i16))),
        Entry::End(Some(HalfPel(-22i16))),
        Entry::Fork(95, 92),
        Entry::Fork(93, 94),
        Entry::End(Some(HalfPel(23i16))),
        Entry::End(Some(HalfPel(-23i16))),
        Entry::Fork(96, 97),
        Entry::End(Some(HalfPel(24i16))),
        Entry::End(Some(HalfPel(-24i16))),
        Entry::Fork(114, 99),
        Entry::Fork(107, 100),
        Entry::Fork(104, 101),
        Entry::Fork(102, 103),
        Entry::End(Some(HalfPel(25i16))),
        Entry::End(Some(HalfPel(-25i16))),
        Entry::Fork(105, 106),
        Entry::End(Some(HalfPel(26i16))),
        Entry::End(Some(HalfPel(-26i16))),
        Entry::Fork(111, 108),
        Entry::Fork(109, 110),
        Entry::End(Some(HalfPel(27i16))),
        Entry::End(Some(HalfPel(-27i16))),
        Entry::Fork(112, 113),
        Entry::End(Some(HalfPel(28i16))),
        Entry::End(Some(HalfPel(-28i16))),
        Entry::Fork(122, 115),
        Entry::Fork(119, 116),
        Entry::Fork(117, 118),
        Entry::End(Some(HalfPel(29i16))),
        Entry::End(Some(HalfPel(-29i16))),
        Entry::Fork(120, 121),
        Entry::End(Some(HalfPel(30i16))),
        Entry::End(Some(HalfPel(-30i16))),
        Entry::Fork(129, 123),
        Entry::Fork(127, 124),
        Entry::Fork(125, 126),
        Entry::End(Some(HalfPel(31i16))),
        Entry::End(Some(HalfPel(-31i16))),
        Entry::Fork(129, 128),
        Entry::End(Some(HalfPel(-32i16))),
        Entry::End(None),
    ]
}

/// The `MCBPC` code table for I-pictures, table 8 of H.263 (01/2005).
pub fn mcbpc_i_table() -> (r: Vec<Entry<BlockPatternEntry>>)
    ensures
        r@ == spec_mcbpc_i_table(),
        r@.len() == 21,
{
    let r: Vec<Entry<BlockPatternEntry>> = vec![
        Entry::Fork(2, 1),
        Entry::End(BlockPatternEntry::Valid( MacroblockType::Intra, false, false, )),
        Entry::Fork(6, 3),
        Entry::Fork(4, 5),
        Entry::End(BlockPatternEntry::Valid(MacroblockType::Intra, true, false)),
        Entry::End(BlockPatternEntry::Valid(MacroblockType::Intra, true, true)),
        Entry::Fork(8, 7),
        Entry::End(BlockPatternEntry::Valid(MacroblockType::Intra, false, true)),
        Entry::Fork(10, 9),
        Entry::End(BlockPatternEntry::Valid( MacroblockType::IntraQ, false, false, )),
        Entry::Fork(14, 11),
        Entry::Fork(12, 13),
        Entry::End(BlockPatternEntry::Valid( MacroblockType::IntraQ, true, false, )),
        Entry::End(BlockPatternEntry::Valid(MacroblockType::IntraQ, true, true)),
        Entry::Fork(16, 20),
        Entry::End(BlockPatternEntry::Invalid),
        Entry::Fork(17, 15),
        Entry::Fork(18, 15),
        Entry::Fork(15, 19),
        Entry::End(BlockPatternEntry::Stuffing),
        Entry::End(BlockPatternEntry::Valid( MacroblockType::IntraQ, false, true, )),
    ];
    proof {
        assert(r@ =~= spec_mcbpc_i_table());
    }
    r
}

/// The `MCBPC` code table for P-pictures, table 9 of H.263 (01/2005).
pub fn mcbpc_p_table() -> (r: Vec<Entry<BlockPatternEntry>>)
    ensures
        r@ == spec_mcbpc_p_table(),
        r@.len() == 53,
{
    let r: Vec<Entry<BlockPatternEntry>> = vec![
        Entry::Fork(2, 1),
        Entry::End(BlockPatternEntry::Valid( MacroblockType::Inter, false, false, )),
        Entry::Fork(6, 3),
        Entry::Fork(4, 5),
        Entry::End(BlockPatternEntry::Valid( MacroblockType::Inter4V, false, false, )),
        Entry::End(BlockPatternEntry::Valid( MacroblockType::InterQ, false, false, )),
        Entry::Fork(10, 7),
        Entry::Fork(8, 9),
        Entry::End(BlockPatternEntry::Valid(MacroblockType::Inter, true, false)),
        Entry::End(BlockPatternEntry::Valid(MacroblockType::Inter, false, true)),
        Entry::Fork(16, 11),
        Entry::Fork(13, 12),
        Entry::End(BlockPatternEntry::Valid( MacroblockType::Intra, false, false, )),
        Entry::Fork(14, 15),
        Entry::End(BlockPatternEntry::Valid( MacroblockType::IntraQ, false, false, )),
        Entry::End(BlockPatternEntry::Valid(MacroblockType::Inter, true, true)),
        Entry::Fork(24, 17),
        Entry::Fork(18, 21),
        Entry::Fork(19, 20),
        Entry::End(BlockPatternEntry::Valid( MacroblockType::Inter4V, true, false, )),
        Entry::End(BlockPatternEntry::Valid( MacroblockType::Inter4V, false, true, )),
        Entry::Fork(22, 23),
        Entry::End(BlockPatternEntry::Valid( MacroblockType::InterQ, true, false, )),
        Entry::End(BlockPatternEntry::Valid( MacroblockType::InterQ, false, true, )),
        Entry::Fork(30, 25),
        Entry::Fork(27, 26),
        Entry::End(BlockPatternEntry::Valid(MacroblockType::Intra, true, true)),
        Entry::Fork(28, 29),
        Entry::End(BlockPatternEntry::Valid(MacroblockType::Intra, false, true)),
        Entry::End(BlockPatternEntry::Valid( MacroblockType::Inter4V, true, true, )),
        Entry::Fork(36, 31),
        Entry::Fork(33, 32),
        Entry::End(BlockPatternEntry::Valid(MacroblockType::Intra, true, false)),
        Entry::Fork(34, 35),
        Entry::End(BlockPatternEntry::Valid( MacroblockType::IntraQ, false, true, )),
        Entry::End(BlockPatternEntry::Valid(MacroblockType::InterQ, true, true)),
        Entry::Fork(40, 37),
        Entry::Fork(38, 39),
        Entry::End(BlockPatternEntry::Valid(MacroblockType::IntraQ, true, true)),
        Entry::End(BlockPatternEntry::Valid( MacroblockType::IntraQ, true, false, )),
        Entry::Fork(42, 41),
        Entry::End(BlockPatternEntry::Stuffing),
        Entry::Fork(43, 44),
        Entry::End(BlockPatternEntry::Invalid),
        Entry::Fork(45, 46),
        Entry::End(BlockPatternEntry::Valid( MacroblockType::Inter4Vq, false, false, )),
        Entry::Fork(47, 50),
        Entry::Fork(48, 49),
        Entry::End(BlockPatternEntry::Valid( MacroblockType::Inter4Vq, false, true, )),
        Entry::End(BlockPatternEntry::Invalid),
        Entry::Fork(51, 52),
        Entry::End(BlockPatternEntry::Valid( MacroblockType::Inter4Vq, true, false, )),
        Entry::End(BlockPatternEntry::Valid( MacroblockType::Inter4Vq, true, true, )),
    ];
    proof {
        assert(r@ =~= spec_mcbpc_p_table());
    }
    r
}

/// The `MODB` code table for PB-frames: whether a B-block pattern and whether B-block motion vectors follow.
pub fn modb_table() -> (r: Vec<Entry<(bool, bool)>>)
    ensures
        r@ == spec_modb_table(),
        r@.len() == 5,
{
    let r: Vec<Entry<(bool, bool)>> = vec![
        Entry::Fork(1, 2),
        Entry::End((false, false)),
        Entry::Fork(3, 4),
        Entry::End((false, true)),
        Entry::End((true, true)),
    ];
    proof {
        assert(r@ =~= spec_modb_table());
    }
    r
}

/// The `CBPY` luma block pattern table in its INTRA form; INTER patterns flip all four bits.
pub fn cbpy_table_intra() -> (r: Vec<Entry<Option<[bool; 4]>>>)
    ensures
        r@ == spec_cbpy_table_intra(),
        r@.len() == 33,
{
    let r: Vec<Entry<Option<[bool; 4]>>> = vec![
        Entry::Fork(1, 24),
        Entry::Fork(2, 17),
        Entry::Fork(3, 12),
        Entry::Fork(4, 9),
        Entry::Fork(5, 6),
        Entry::End(None),
        Entry::Fork(7, 8),
        Entry::End(Some([false, true, true, false])),
        Entry::End(Some([true, false, false, true])),
        Entry::Fork(10, 11),
        Entry::End(Some([true, false, false, false])),
        Entry::End(Some([false, true, false, false])),
        Entry::Fork(13, 16),
        Entry::Fork(14, 15),
        Entry::End(Some([false, false, true, false])),
        Entry::End(Some([false, false, false, true])),
        Entry::End(Some([false, false, false, false])),
        Entry::Fork(18, 21),
        Entry::Fork(19, 20),
        Entry::End(Some([true, true, false, false])),
        Entry::End(Some([true, false, true, false])),
        Entry::Fork(22, 23),
        Entry::End(Some([true, true, true, false])),
        Entry::End(Some([false, true, false, true])),
        Entry::Fork(25, 32),
        Entry::Fork(26, 29),
        Entry::Fork(27, 28),
        Entry::End(Some([true, true, false, true])),
        Entry::End(Some([false, false, true, true])),
        Entry::Fork(30, 31),
        Entry::End(Some([true, false, true, true])),
        Entry::End(Some([false, true, true, true])),
        Entry::End(Some([true, true, true, true])),
    ];
    proof {
        assert(r@ =~= spec_cbpy_table_intra());
    }
    r
}

/// The motion-vector differential code table, table 14 of H.263 (01/2005), in half-pel units; `None` marks reserved prefixes.
pub fn mvd_table() -> (r: Vec<Entry<Option<HalfPel>>>)
    ensures
        r@ == spec_mvd_table(),
        r@.len() == 130,
{
    let r: Vec<Entry<Option<HalfPel>>> = vec![
        Entry::Fork(2, 1),
        Entry::End(Some(HalfPel(0))),
        Entry::Fork(6, 3),
        Entry::Fork(4, 5),
        Entry::End(Some(HalfPel(1))),
        Entry::End(Some(HalfPel(-1))),
        Entry::Fork(10, 7),
        Entry::Fork(8, 9),
        Entry::End(Some(HalfPel(2))),
        Entry::End(Some(HalfPel(-2))),
        Entry::Fork(14, 11),
        Entry::Fork(12, 13),
        Entry::End(Some(HalfPel(3))),
        Entry::End(Some(HalfPel(-3))),
        Entry::Fork(26, 15),
        Entry::Fork(19, 16),
        Entry::Fork(17, 18),
        Entry::End(Some(HalfPel(4))),
        Entry::End(Some(HalfPel(-4))),
        Entry::Fork(23, 20),
        Entry::Fork(21, 22),
        Entry::End(Some(HalfPel(5))),
        Entry::End(Some(HalfPel(-5))),
        Entry::Fork(24, 25),
        Entry::End(Some(HalfPel(6))),
        Entry::End(Some(HalfPel(-6))),
        Entry::Fork(50, 27),
        Entry::Fork(31, 28),
        Entry::Fork(29, 30),
        Entry::End(Some(HalfPel(7))),
        Entry::End(Some(HalfPel(-7))),
        Entry::Fork(39, 32),
        Entry::Fork(36, 33),
        Entry::Fork(34, 35),
        Entry::End(Some(HalfPel(8))),
        Entry::End(Some(HalfPel(-8))),
        Entry::Fork(37, 38),
        Entry::End(Some(HalfPel(9))),
        Entry::End(Some(HalfPel(-9))),
        Entry::Fork(43, 40),
        Entry::Fork(41, 42),
        Entry::End(Some(HalfPel(10))),
        Entry::End(Some(HalfPel(-10))),
        Entry::Fork(47, 44),
        Entry::Fork(45, 46),
        Entry::End(Some(HalfPel(11))),
        Entry::End(Some(HalfPel(-11))),
        Entry::Fork(48, 49),
        Entry::End(Some(HalfPel(12))),
        Entry::End(Some(HalfPel(-12))),
        Entry::Fork(82, 51),
        Entry::Fork(67, 52),
        Entry::Fork(60, 53),
        Entry::Fork(57, 54),
        Entry::Fork(55, 56),
        Entry::End(Some(HalfPel(13))),
        Entry::End(Some(HalfPel(-13))),
        Entry::Fork(58, 59),
        Entry::End(Some(HalfPel(14))),
        Entry::End(Some(HalfPel(-14))),
        Entry::Fork(64, 61),
        Entry::Fork(62, 63),
        Entry::End(Some(HalfPel(15))),
        Entry::End(Some(HalfPel(-15))),
        Entry::Fork(65, 66),
        Entry::End(Some(HalfPel(16))),
        Entry::End(Some(HalfPel(-16))),
        Entry::Fork(75, 68),
        Entry::Fork(72, 69),
        Entry::Fork(70, 71),
        Entry::End(Some(HalfPel(17))),
        Entry::End(Some(HalfPel(-17))),
        Entry::Fork(73, 74),
        Entry::End(Some(HalfPel(18))),
        Entry::End(Some(HalfPel(-18))),
        Entry::Fork(79, 76),
        Entry::Fork(77, 78),
        Entry::End(Some(HalfPel(19))),
        Entry::End(Some(HalfPel(-19))),
        Entry::Fork(80, 81),
        Entry::End(Some(HalfPel(20))),
        Entry::End(Some(HalfPel(-20))),
        Entry::Fork(98, 83),
        Entry::Fork(91, 84),
        Entry::Fork(88, 85),
        Entry::Fork(86, 87),
        Entry::End(Some(HalfPel(21))),
        Entry::End(Some(HalfPel(-21))),
        Entry::Fork(89, 90),
        Entry::End(Some(HalfPel(22))),
        Entry::End(Some(HalfPel(-22))),
        Entry::Fork(95, 92),
        Entry::Fork(93, 94),
        Entry::End(Some(HalfPel(23))),
        Entry::End(Some(HalfPel(-23))),
        Entry::Fork(96, 97),
        Entry::End(Some(HalfPel(24))),
        Entry::End(Some(HalfPel(-24))),
        Entry::Fork(114, 99),
        Entry::Fork(107, 100),
        Entry::Fork(104, 101),
        Entry::Fork(102, 103),
        Entry::End(Some(HalfPel(25))),
        Entry::End(Some(HalfPel(-25))),
        Entry::Fork(105, 106),
        Entry::End(Some(HalfPel(26))),
        Entry::End(Some(HalfPel(-26))),
        Entry::Fork(111, 108),
        Entry::Fork(109, 110),
        Entry::End(Some(HalfPel(27))),
        Entry::End(Some(HalfPel(-27))),
        Entry::Fork(112, 113),
        Entry::End(Some(HalfPel(28))),
        Entry::End(Some(HalfPel(-28))),
        Entry::Fork(122, 115),
        Entry::Fork(119, 116),
        Entry::Fork(117, 118),
        Entry::End(Some(HalfPel(29))),
        Entry::End(Some(HalfPel(-29))),
        Entry::Fork(120, 121),
        Entry::End(Some(HalfPel(30))),
        Entry::End(Some(HalfPel(-30))),
        Entry::Fork(129, 123),
        Entry::Fork(127, 124),
        Entry::Fork(125, 126),
        Entry::End(Some(HalfPel(31))),
        Entry::End(Some(HalfPel(-31))),
        Entry::Fork(129, 128),
        Entry::End(Some(HalfPel(-32))),
        Entry::End(None),
    ];
    proof {
        assert(r@ =~= spec_mvd_table());
    }
    r
}


/// Decode the six one-bit `CBPB` coded-block-pattern flags of a PB-frame
/// macroblock.
fn decode_cbpb(reader: &mut H263Reader) -> (r: Result<CodedBlockPattern, Error>)
    requires
        old(reader).wf(),
    ensures
        final(reader).wf(),
        final(reader).bytes() == old(reader).bytes(),
        match r {
            Ok(_) => final(reader).pos() == old(reader).pos() + 6,
            Err(e) => e == Error::EndOfStream && final(reader).pos() == old(reader).pos(),
        },
{
    let cp = reader.checkpoint();
    let mut flags = [false, false, false, false, false, false];
    let mut i: usize = 0;
    while i < 6
        invariant
            reader.wf(),
            reader.bytes() == old(reader).bytes(),
            cp as nat == old(reader).pos(),
            reader.pos() == old(reader).pos() + i,
            i <= 6,
            old(reader).pos() + i <= reader.total_bits(),
        decreases 6 - i,
    {
        let bit = match reader.read_bits(1) {
            Ok(v) => v,
            Err(_) => {
                reader.restore(cp);
                return Err(Error::EndOfStream);
            },
        };
        flags[i] = bit == 1;
        i += 1;
    }
    Ok(
        CodedBlockPattern {
            codes_luma: [flags[0], flags[1], flags[2], flags[3]],
            codes_chroma_b: flags[4],
            codes_chroma_r: flags[5],
        },
    )
}

/// Decode a two-bit `DQUANT` quantizer delta, one of -1, -2, +1 or +2.
fn decode_dquant(reader: &mut H263Reader) -> (r: Result<i8, Error>)
    requires
        old(reader).wf(),
    ensures
        final(reader).wf(),
        final(reader).bytes() == old(reader).bytes(),
        match r {
            Ok(d) => (d == -1 || d == -2 || d == 1 || d == 2) && final(reader).pos() == old(
                reader,
            ).pos() + 2,
            Err(e) => e == Error::EndOfStream && final(reader).pos() == old(reader).pos(),
        },
{
    let v = match reader.read_bits(2) {
        Ok(v) => v,
        Err(_) => {
            return Err(Error::EndOfStream);
        },
    };
    proof {
        crate::reader::lemma_stream_value_bound(old(reader).bytes(), old(reader).pos() as int, 2);
        vstd::arithmetic::power2::lemma2_to64();
    }
    if v == 0 {
        Ok(-1)
    } else if v == 1 {
        Ok(-2)
    } else if v == 2 {
        Ok(1)
    } else {
        Ok(2)
    }
}

/// Every terminal entry of the differential table is within the
/// standard component range of 32 half-pel units.
#[verifier::rlimit(100)]
proof fn lemma_mvd_table_levels_bounded()
    ensures
        forall|idx: int|
            0 <= idx < spec_mvd_table().len() ==> match #[trigger] spec_mvd_table()[idx] {
                Entry::End(v) => match v {
                    Some(h) => -32 <= h.0 <= 32,
                    None => true,
                },
                Entry::Fork(_, _) => true,
            },
{
}

/// What one motion vector component decodes to at bit position `pos`:
/// under unrestricted motion vectors with `PLUSPTYPE` a table D.3 code,
/// otherwise a code of the `MVD` table, whose reserved prefixes decode to
/// nothing.
pub open spec fn spec_mvd_component(bytes: Seq<u8>, pos: int, umv: bool) -> UmvOutcome {
    if umv {
        umv_decode_at(bytes, pos)
    } else {
        match vlc_walk(spec_mvd_table(), bytes, pos, 0, spec_mvd_table().len()) {
            VlcOutcome::Value(entry, end) => match entry {
                Some(h) => UmvOutcome::Value(h.value(), end),
                None => UmvOutcome::Invalid,
            },
            VlcOutcome::OutOfBits => UmvOutcome::OutOfBits,
            VlcOutcome::BadTable => UmvOutcome::Invalid,
        }
    }
}

/// What a whole motion vector decodes to at bit position `pos`: the two
/// components read one after the other, with the bit position just past
/// them, or nothing if either component fails to decode.
pub open spec fn spec_mvd_pair(bytes: Seq<u8>, pos: int, umv: bool) -> Option<(int, int, int)> {
    match spec_mvd_component(bytes, pos, umv) {
        UmvOutcome::Value(vx, mid) => match spec_mvd_component(bytes, mid, umv) {
            UmvOutcome::Value(vy, end) => Some((vx, vy, end)),
            _ => None,
        },
        _ => None,
    }
}

/// Decode one motion vector differential: two unrestricted-range codes
/// when unrestricted motion vectors with `PLUSPTYPE` are in force, else
/// two codes from the `MVD` table. On success the two components are
/// exactly what those codes decode to at the starting cursor, read one
/// after the other; a reserved `MVD` prefix is an invalid bitstream, an
/// overlong D.3 magnitude an invalid differential. On any error the
/// reader is rolled back to where it started.
pub fn decode_motion_vector(
    reader: &mut H263Reader,
    picture: &Picture,
    running_options: PictureOption,
) -> (r: Result<MotionVector, Error>)
    requires
        old(reader).wf(),
    ensures
        final(reader).wf(),
        final(reader).bytes() == old(reader).bytes(),
        ({
            let umv = running_options.bits & UNRESTRICTED_MOTION_VECTORS
                == UNRESTRICTED_MOTION_VECTORS && picture.has_plusptype;
            match r {
                Ok(mv) => spec_mvd_pair(old(reader).bytes(), old(reader).pos() as int, umv)
                    == Some((mv.0.value(), mv.1.value(), final(reader).pos() as int)) && -4096
                    < mv.0.value() < 4096 && -4096 < mv.1.value() < 4096,
                Err(_) => final(reader).pos() == old(reader).pos(),
            }
        }),
        // A reserved long-zero code in either component is an invalid
        // bitstream.
        (running_options.bits & UNRESTRICTED_MOTION_VECTORS != UNRESTRICTED_MOTION_VECTORS
            || !picture.has_plusptype) ==> ({
            let walk1 = vlc_walk(
                spec_mvd_table(),
                old(reader).bytes(),
                old(reader).pos() as int,
                0,
                spec_mvd_table().len(),
            );
            &&& (walk1 matches VlcOutcome::Value(e1, mid) ==> (e1 is None ==> r
                == Result::<MotionVector, Error>::Err(Error::InvalidBitstream)))
            &&& (walk1 matches VlcOutcome::Value(e1, mid) ==> (e1 is Some ==> (vlc_walk(
                spec_mvd_table(),
                old(reader).bytes(),
                mid,
                0,
                spec_mvd_table().len(),
            ) matches VlcOutcome::Value(e2, _) ==> (e2 is None ==> r == Result::<
                MotionVector,
                Error,
            >::Err(Error::InvalidBitstream)))))
        }),
{
    let cp = reader.checkpoint();
    let r = decode_motion_vector_inner(reader, picture, running_options);
    match r {
        Err(e) => {
            reader.restore(cp);
            Err(e)
        },
        Ok(mv) => Ok(mv),
    }
}

/// The body of `decode_motion_vector`, without the rollback on failure.
fn decode_motion_vector_inner(
    reader: &mut H263Reader,
    picture: &Picture,
    running_options: PictureOption,
) -> (r: Result<MotionVector, Error>)
    requires
        old(reader).wf(),
    ensures
        final(reader).wf(),
        final(reader).bytes() == old(reader).bytes(),
        ({
            let umv = running_options.bits & UNRESTRICTED_MOTION_VECTORS
                == UNRESTRICTED_MOTION_VECTORS && picture.has_plusptype;
            match r {
                Ok(mv) => spec_mvd_pair(old(reader).bytes(), old(reader).pos() as int, umv)
                    == Some((mv.0.value(), mv.1.value(), final(reader).pos() as int)) && -4096
                    < mv.0.value() < 4096 && -4096 < mv.1.value() < 4096,
                Err(_) => true,
            }
        }),
        // A reserved long-zero code in either component is an invalid
        // bitstream.
        (running_options.bits & UNRESTRICTED_MOTION_VECTORS != UNRESTRICTED_MOTION_VECTORS
            || !picture.has_plusptype) ==> ({
            let walk1 = vlc_walk(
                spec_mvd_table(),
                old(reader).bytes(),
                old(reader).pos() as int,
                0,
                spec_mvd_table().len(),
            );
            &&& (walk1 matches VlcOutcome::Value(e1, mid) ==> (e1 is None ==> r
                == Result::<MotionVector, Error>::Err(Error::InvalidBitstream)))
            &&& (walk1 matches VlcOutcome::Value(e1, mid) ==> (e1 is Some ==> (vlc_walk(
                spec_mvd_table(),
                old(reader).bytes(),
                mid,
                0,
                spec_mvd_table().len(),
            ) matches VlcOutcome::Value(e2, _) ==> (e2 is None ==> r == Result::<
                MotionVector,
                Error,
            >::Err(Error::InvalidBitstream)))))
        }),
{
    if running_options.contains(UNRESTRICTED_MOTION_VECTORS) && picture.has_plusptype {
        let x = match reader.read_umv() {
            Ok(h) => h,
            Err(e) => {
                return Err(e);
            },
        };
        let ghost mid = reader.pos() as int;
        let y = match reader.read_umv() {
            Ok(h) => h,
            Err(e) => {
                return Err(e);
            },
        };
        proof {
            let umv = running_options.bits & UNRESTRICTED_MOTION_VECTORS
                == UNRESTRICTED_MOTION_VECTORS && picture.has_plusptype;
            assert(spec_mvd_component(old(reader).bytes(), old(reader).pos() as int, umv)
                == UmvOutcome::Value(x.value(), mid));
            assert(spec_mvd_component(old(reader).bytes(), mid, umv) == UmvOutcome::Value(
                y.value(),
                reader.pos() as int,
            ));
        }
        Ok(MotionVector::from_components(x, y))
    } else {
        let x = match decode_mvd_component(reader) {
            Ok(h) => h,
            Err(e) => {
                return Err(e);
            },
        };
        let ghost mid = reader.pos() as int;
        let y = match decode_mvd_component(reader) {
            Ok(h) => h,
            Err(e) => {
                return Err(e);
            },
        };
        proof {
            let umv = running_options.bits & UNRESTRICTED_MOTION_VECTORS
                == UNRESTRICTED_MOTION_VECTORS && picture.has_plusptype;
            assert(spec_mvd_component(old(reader).bytes(), old(reader).pos() as int, umv)
                == UmvOutcome::Value(x.value(), mid));
            assert(spec_mvd_component(old(reader).bytes(), mid, umv) == UmvOutcome::Value(
                y.value(),
                reader.pos() as int,
            ));
        }
        Ok(MotionVector::from_components(x, y))
    }
}

/// Read one component from the `MVD` table. Reserved prefixes are an
/// invalid bitstream; every valid code is a differential within 16 pixels
/// either way.
fn decode_mvd_component(reader: &mut H263Reader) -> (r: Result<HalfPel, Error>)
    requires
        old(reader).wf(),
    ensures
        final(reader).wf(),
        final(reader).bytes() == old(reader).bytes(),
        match r {
            Ok(h) => spec_mvd_component(old(reader).bytes(), old(reader).pos() as int, false)
                == UmvOutcome::Value(h.value(), final(reader).pos() as int) && -32 <= h.value()
                <= 32,
            // An error on a decodable code can only mean the code was a
            // reserved long-zero prefix, surfaced as an invalid
            // bitstream.
            Err(e) => vlc_walk(
                spec_mvd_table(),
                old(reader).bytes(),
                old(reader).pos() as int,
                0,
                spec_mvd_table().len(),
            ) matches VlcOutcome::Value(entry, _) ==> (entry is None && e
                == Error::InvalidBitstream),
        },
{
    let table = mvd_table();
    let entry = match reader.read_vlc(&table) {
        Ok(v) => v,
        Err(e) => {
            return Err(e);
        },
    };
    proof {
        // The table holds only differentials within the standard range.
        lemma_mvd_table_levels_bounded();
        crate::vlc::lemma_vlc_walk_yields_entry(
            spec_mvd_table(),
            old(reader).bytes(),
            old(reader).pos() as int,
            0,
            spec_mvd_table().len(),
        );
    }
    match entry {
        Some(h) => Ok(h),
        None => Err(Error::InvalidBitstream),
    }
}

/// Decode a macroblock header from the bitstream.
///
/// The `running_options` should be the set of currently in-force options
/// on the picture being decoded, which is not always the picture header's
/// own option set: some options carry forward from picture to picture.
///
/// On success the result is structurally consistent with the macroblock
/// type: a quantizer delta is present exactly on the Q types, a motion
/// vector exactly on inter macroblocks and PB-frames, additional vectors
/// exactly on four-vector types under advanced prediction, and B-data only
/// on PB-frames. Uncoded macroblocks never come from I-pictures. On any
/// error the reader is rolled back to where it started.
pub fn decode_macroblock(
    reader: &mut H263Reader,
    picture: &Picture,
    running_options: PictureOption,
) -> (r: Result<Macroblock, Error>)
    requires
        old(reader).wf(),
    ensures
        final(reader).wf(),
        final(reader).bytes() == old(reader).bytes(),
        match r {
            Ok(mb) => decoded_macroblock_consistent(mb, *picture, running_options),
            Err(_) => final(reader).pos() == old(reader).pos(),
        },
        // A stuffing code is consumed and reported as such, and outside
        // I-pictures a set `COD` bit is an uncoded macroblock.
        (picture.picture_type == PictureTypeCode::IFrame && (vlc_walk(
            spec_mcbpc_i_table(),
            old(reader).bytes(),
            old(reader).pos() as int,
            0,
            spec_mcbpc_i_table().len(),
        ) matches VlcOutcome::Value(BlockPatternEntry::Stuffing, _))) ==> (r matches Ok(mb)
            && mb is Stuffing),
        (picture.picture_type != PictureTypeCode::IFrame && old(reader).pos() + 1 <= old(
            reader,
        ).total_bits() && stream_bit(old(reader).bytes(), old(reader).pos() as int)) ==> (
        r matches Ok(mb) && mb is Uncoded && final(reader).pos() == old(reader).pos() + 1),
        // A coded macroblock's type and chroma pattern are exactly what
        // the `MCBPC` code at the starting cursor names (for I-pictures,
        // which read no `COD` bit first).
        r matches Ok(mb) ==> (mb matches Macroblock::Coded { mb_type, coded_block_pattern, .. }
            ==> (picture.picture_type == PictureTypeCode::IFrame ==> (vlc_walk(
            spec_mcbpc_i_table(),
            old(reader).bytes(),
            old(reader).pos() as int,
            0,
            spec_mcbpc_i_table().len(),
        ) matches VlcOutcome::Value(entry, _) && entry == BlockPatternEntry::Valid(
            mb_type,
            coded_block_pattern.codes_chroma_b,
            coded_block_pattern.codes_chroma_r,
        )))),
{
    let cp = reader.checkpoint();
    let r = decode_macroblock_inner(reader, picture, running_options);
    match r {
        Err(e) => {
            reader.restore(cp);
            Err(e)
        },
        Ok(mb) => Ok(mb),
    }
}

/// The structural facts that hold of every successfully decoded
/// macroblock.
pub open spec fn decoded_macroblock_consistent(
    mb: Macroblock,
    picture: Picture,
    running_options: PictureOption,
) -> bool {
    match mb {
        Macroblock::Uncoded => picture.picture_type != PictureTypeCode::IFrame,
        Macroblock::Stuffing => true,
        Macroblock::Coded {
            mb_type,
            coded_block_pattern,
            coded_block_pattern_b,
            d_quantizer,
            motion_vector,
            addl_motion_vectors,
            motion_vectors_b,
        } => {
            &&& running_options.bits & MODIFIED_QUANTIZATION != MODIFIED_QUANTIZATION
            &&& (d_quantizer is Some <==> (mb_type == MacroblockType::InterQ || mb_type
                == MacroblockType::IntraQ || mb_type == MacroblockType::Inter4Vq))
            &&& (d_quantizer matches Some(d) ==> (d == -1 || d == -2 || d == 1 || d == 2))
            &&& (motion_vector is Some <==> (mb_type == MacroblockType::Inter || mb_type
                == MacroblockType::InterQ || mb_type == MacroblockType::Inter4V || mb_type
                == MacroblockType::Inter4Vq || picture.picture_type == PictureTypeCode::PbFrame
                || picture.picture_type == PictureTypeCode::ImprovedPbFrame))
            &&& (motion_vector matches Some(mv) ==> -4096 < mv.0.value() < 4096 && -4096
                < mv.1.value() < 4096)
            &&& (addl_motion_vectors is Some <==> (running_options.bits & ADVANCED_PREDICTION
                == ADVANCED_PREDICTION && (mb_type == MacroblockType::Inter4V || mb_type
                == MacroblockType::Inter4Vq)))
            &&& (addl_motion_vectors matches Some(addl) ==> forall|b: int|
                0 <= b < 3 ==> -4096 < (#[trigger] addl@[b]).0.value() < 4096 && -4096 < addl@[
                    b
                ].1.value() < 4096)
            &&& (motion_vectors_b is Some ==> picture.picture_type == PictureTypeCode::PbFrame)
            &&& (coded_block_pattern_b is Some ==> picture.picture_type
                == PictureTypeCode::PbFrame)
        },
    }
}

/// The body of `decode_macroblock`, without the rollback on failure.
#[verifier::rlimit(100)]
fn decode_macroblock_inner(
    reader: &mut H263Reader,
    picture: &Picture,
    running_options: PictureOption,
) -> (r: Result<Macroblock, Error>)
    requires
        old(reader).wf(),
    ensures
        final(reader).wf(),
        final(reader).bytes() == old(reader).bytes(),
        match r {
            Ok(mb) => decoded_macroblock_consistent(mb, *picture, running_options),
            Err(_) => true,
        },
        // A stuffing code is consumed and reported as such, and outside
        // I-pictures a set `COD` bit is an uncoded macroblock.
        (picture.picture_type == PictureTypeCode::IFrame && (vlc_walk(
            spec_mcbpc_i_table(),
            old(reader).bytes(),
            old(reader).pos() as int,
            0,
            spec_mcbpc_i_table().len(),
        ) matches VlcOutcome::Value(BlockPatternEntry::Stuffing, _))) ==> (r matches Ok(mb)
            && mb is Stuffing),
        (picture.picture_type != PictureTypeCode::IFrame && old(reader).pos() + 1 <= old(
            reader,
        ).total_bits() && stream_bit(old(reader).bytes(), old(reader).pos() as int)) ==> (
        r matches Ok(mb) && mb is Uncoded && final(reader).pos() == old(reader).pos() + 1),
        // A coded macroblock's type and chroma pattern are exactly what
        // the `MCBPC` code at the starting cursor names (for I-pictures,
        // which read no `COD` bit first).
        r matches Ok(mb) ==> (mb matches Macroblock::Coded { mb_type, coded_block_pattern, .. }
            ==> (picture.picture_type == PictureTypeCode::IFrame ==> (vlc_walk(
            spec_mcbpc_i_table(),
            old(reader).bytes(),
            old(reader).pos() as int,
            0,
            spec_mcbpc_i_table().len(),
        ) matches VlcOutcome::Value(entry, _) && entry == BlockPatternEntry::Valid(
            mb_type,
            coded_block_pattern.codes_chroma_b,
            coded_block_pattern.codes_chroma_r,
        )))),
{
    let ghost bytes0 = old(reader).bytes();
    let ghost pos0 = old(reader).pos() as int;
    proof {
        reveal_with_fuel(crate::reader::stream_value, 2);
    }
    let is_coded: u32 = if matches!(picture.picture_type, PictureTypeCode::IFrame) {
        0
    } else {
        match reader.read_bits(1) {
            Ok(v) => v,
            Err(e) => {
                return Err(e);
            },
        }
    };
    if is_coded != 0 {
        return Ok(Macroblock::Uncoded);
    }
    let mcbpc = match picture.picture_type {
        PictureTypeCode::IFrame => {
            let table = mcbpc_i_table();
            match reader.read_vlc(&table) {
                Ok(v) => v,
                Err(e) => {
                    return Err(e);
                },
            }
        },
        PictureTypeCode::PFrame | PictureTypeCode::DisposablePFrame => {
            let table = mcbpc_p_table();
            match reader.read_vlc(&table) {
                Ok(v) => v,
                Err(e) => {
                    return Err(e);
                },
            }
        },
        _ => {
            return Err(Error::UnimplementedDecoding);
        },
    };
    let (mb_type, codes_chroma_b, codes_chroma_r) = match mcbpc {
        BlockPatternEntry::Stuffing => {
            return Ok(Macroblock::Stuffing);
        },
        BlockPatternEntry::Invalid => {
            return Err(Error::InvalidBitstream);
        },
        BlockPatternEntry::Valid(mbt, chroma_b, chroma_r) => (mbt, chroma_b, chroma_r),
    };
    let (has_cbpb, has_mvdb) = if matches!(picture.picture_type, PictureTypeCode::PbFrame) {
        let table = modb_table();
        match reader.read_vlc(&table) {
            Ok(v) => v,
            Err(e) => {
                return Err(e);
            },
        }
    } else {
        (false, false)
    };
    let table = cbpy_table_intra();
    let cbpy = match reader.read_vlc(&table) {
        Ok(v) => v,
        Err(e) => {
            return Err(e);
        },
    };
    let codes_luma = if mb_type.is_intra() {
        match cbpy {
            Some(v) => v,
            None => {
                return Err(Error::InvalidBitstream);
            },
        }
    } else {
        match cbpy {
            Some(v) => [!v[0], !v[1], !v[2], !v[3]],
            None => {
                return Err(Error::InvalidBitstream);
            },
        }
    };
    let coded_block_pattern_b = if has_cbpb {
        match decode_cbpb(reader) {
            Ok(v) => Some(v),
            Err(e) => {
                return Err(e);
            },
        }
    } else {
        None
    };
    let d_quantizer = if running_options.contains(MODIFIED_QUANTIZATION) {
        return Err(Error::UnimplementedDecoding);
    } else if mb_type.has_quantizer() {
        match decode_dquant(reader) {
            Ok(v) => Some(v),
            Err(e) => {
                return Err(e);
            },
        }
    } else {
        None
    };
    let motion_vector = if mb_type.is_inter() || picture.picture_type.is_any_pbframe() {
        match decode_motion_vector(reader, picture, running_options) {
            Ok(v) => Some(v),
            Err(e) => {
                return Err(e);
            },
        }
    } else {
        None
    };
    let addl_motion_vectors = if running_options.contains(ADVANCED_PREDICTION)
        && mb_type.has_fourvec() {
        let mv2 = match decode_motion_vector(reader, picture, running_options) {
            Ok(v) => v,
            Err(e) => {
                return Err(e);
            },
        };
        let mv3 = match decode_motion_vector(reader, picture, running_options) {
            Ok(v) => v,
            Err(e) => {
                return Err(e);
            },
        };
        let mv4 = match decode_motion_vector(reader, picture, running_options) {
            Ok(v) => v,
            Err(e) => {
                return Err(e);
            },
        };
        Some([mv2, mv3, mv4])
    } else {
        None
    };
    let motion_vectors_b = if has_mvdb {
        let mv1 = match decode_motion_vector(reader, picture, running_options) {
            Ok(v) => v,
            Err(e) => {
                return Err(e);
            },
        };
        let mv2 = match decode_motion_vector(reader, picture, running_options) {
            Ok(v) => v,
            Err(e) => {
                return Err(e);
            },
        };
        let mv3 = match decode_motion_vector(reader, picture, running_options) {
            Ok(v) => v,
            Err(e) => {
                return Err(e);
            },
        };
        let mv4 = match decode_motion_vector(reader, picture, running_options) {
            Ok(v) => v,
            Err(e) => {
                return Err(e);
            },
        };
        Some([mv1, mv2, mv3, mv4])
    } else {
        None
    };
    Ok(
        Macroblock::Coded {
            mb_type,
            coded_block_pattern: CodedBlockPattern {
                codes_luma,
                codes_chroma_b,
                codes_chroma_r,
            },
            coded_block_pattern_b,
            d_quantizer,
            motion_vector,
            addl_motion_vectors,
            motion_vectors_b,
        },
    )
}

} // verus!
