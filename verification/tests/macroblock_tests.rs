//! The macroblock-layer code tables over concrete bit patterns.

use h263::macroblock::{cbpy_table_intra, mcbpc_i_table, mcbpc_p_table, modb_table, mvd_table, BlockPatternEntry};
use h263::reader::H263Reader;
use h263::types::{HalfPel, MacroblockType};

/// A half-pel count from a whole or half pixel value.
fn half(pel: f32) -> HalfPel {
    HalfPel((pel * 2.0) as i16)
}



#[test]
fn macroblock_mcbpc_iframe() {
    let bit_pattern = vec![
        0b1_001_010_0,
        0b11_0001_00,
        0b0001_0000,
        0b10_000011,
        0b00000000,
        0b1_0000001,
    ];
    let mut reader = H263Reader::from_source(&bit_pattern[..]);

    assert_eq!(
        reader.read_vlc(&mcbpc_i_table()).unwrap(),
        BlockPatternEntry::Valid(MacroblockType::Intra, false, false)
    );
    assert_eq!(
        reader.read_vlc(&mcbpc_i_table()).unwrap(),
        BlockPatternEntry::Valid(MacroblockType::Intra, false, true)
    );
    assert_eq!(
        reader.read_vlc(&mcbpc_i_table()).unwrap(),
        BlockPatternEntry::Valid(MacroblockType::Intra, true, false)
    );
    assert_eq!(
        reader.read_vlc(&mcbpc_i_table()).unwrap(),
        BlockPatternEntry::Valid(MacroblockType::Intra, true, true)
    );
    assert_eq!(
        reader.read_vlc(&mcbpc_i_table()).unwrap(),
        BlockPatternEntry::Valid(MacroblockType::IntraQ, false, false)
    );
    assert_eq!(
        reader.read_vlc(&mcbpc_i_table()).unwrap(),
        BlockPatternEntry::Valid(MacroblockType::IntraQ, false, true)
    );
    assert_eq!(
        reader.read_vlc(&mcbpc_i_table()).unwrap(),
        BlockPatternEntry::Valid(MacroblockType::IntraQ, true, false)
    );
    assert_eq!(
        reader.read_vlc(&mcbpc_i_table()).unwrap(),
        BlockPatternEntry::Valid(MacroblockType::IntraQ, true, true)
    );
    assert_eq!(
        reader.read_vlc(&mcbpc_i_table()).unwrap(),
        BlockPatternEntry::Stuffing
    );
    assert_eq!(
        reader.read_vlc(&mcbpc_i_table()).unwrap(),
        BlockPatternEntry::Invalid
    );
}

#[test]
fn macroblock_mcbpc_pframe() {
    let bit_pattern = vec![
        0b1_0011_001,
        0b0_000101_0,
        0b11_000011,
        0b1_0000110,
        0b00000010,
        0b1_010_0000,
        0b101_00001,
        0b00_000001,
        0b01_00011_0,
        0b0000100_0,
        0b0000011_0,
        0b000011_00,
        0b0100_0000,
        0b00100_000,
        0b000011_00,
        0b0000010_0,
        0b00000001,
        0b00000000,
        0b010_00000,
        0b00001100,
        0b00000000,
        0b01110_000,
        0b00000011,
        0b11_000000,
        0b00000000,
    ];
    let mut reader = H263Reader::from_source(&bit_pattern[..]);

    assert_eq!(
        reader.read_vlc(&mcbpc_p_table()).unwrap(),
        BlockPatternEntry::Valid(MacroblockType::Inter, false, false)
    );
    assert_eq!(
        reader.read_vlc(&mcbpc_p_table()).unwrap(),
        BlockPatternEntry::Valid(MacroblockType::Inter, false, true)
    );
    assert_eq!(
        reader.read_vlc(&mcbpc_p_table()).unwrap(),
        BlockPatternEntry::Valid(MacroblockType::Inter, true, false)
    );
    assert_eq!(
        reader.read_vlc(&mcbpc_p_table()).unwrap(),
        BlockPatternEntry::Valid(MacroblockType::Inter, true, true)
    );
    assert_eq!(
        reader.read_vlc(&mcbpc_p_table()).unwrap(),
        BlockPatternEntry::Valid(MacroblockType::InterQ, false, false)
    );
    assert_eq!(
        reader.read_vlc(&mcbpc_p_table()).unwrap(),
        BlockPatternEntry::Valid(MacroblockType::InterQ, false, true)
    );
    assert_eq!(
        reader.read_vlc(&mcbpc_p_table()).unwrap(),
        BlockPatternEntry::Valid(MacroblockType::InterQ, true, false)
    );
    assert_eq!(
        reader.read_vlc(&mcbpc_p_table()).unwrap(),
        BlockPatternEntry::Valid(MacroblockType::InterQ, true, true)
    );
    assert_eq!(
        reader.read_vlc(&mcbpc_p_table()).unwrap(),
        BlockPatternEntry::Valid(MacroblockType::Inter4V, false, false)
    );
    assert_eq!(
        reader.read_vlc(&mcbpc_p_table()).unwrap(),
        BlockPatternEntry::Valid(MacroblockType::Inter4V, false, true)
    );
    assert_eq!(
        reader.read_vlc(&mcbpc_p_table()).unwrap(),
        BlockPatternEntry::Valid(MacroblockType::Inter4V, true, false)
    );
    assert_eq!(
        reader.read_vlc(&mcbpc_p_table()).unwrap(),
        BlockPatternEntry::Valid(MacroblockType::Inter4V, true, true)
    );
    assert_eq!(
        reader.read_vlc(&mcbpc_p_table()).unwrap(),
        BlockPatternEntry::Valid(MacroblockType::Intra, false, false)
    );
    assert_eq!(
        reader.read_vlc(&mcbpc_p_table()).unwrap(),
        BlockPatternEntry::Valid(MacroblockType::Intra, false, true)
    );
    assert_eq!(
        reader.read_vlc(&mcbpc_p_table()).unwrap(),
        BlockPatternEntry::Valid(MacroblockType::Intra, true, false)
    );
    assert_eq!(
        reader.read_vlc(&mcbpc_p_table()).unwrap(),
        BlockPatternEntry::Valid(MacroblockType::Intra, true, true)
    );
    assert_eq!(
        reader.read_vlc(&mcbpc_p_table()).unwrap(),
        BlockPatternEntry::Valid(MacroblockType::IntraQ, false, false)
    );
    assert_eq!(
        reader.read_vlc(&mcbpc_p_table()).unwrap(),
        BlockPatternEntry::Valid(MacroblockType::IntraQ, false, true)
    );
    assert_eq!(
        reader.read_vlc(&mcbpc_p_table()).unwrap(),
        BlockPatternEntry::Valid(MacroblockType::IntraQ, true, false)
    );
    assert_eq!(
        reader.read_vlc(&mcbpc_p_table()).unwrap(),
        BlockPatternEntry::Valid(MacroblockType::IntraQ, true, true)
    );
    assert_eq!(
        reader.read_vlc(&mcbpc_p_table()).unwrap(),
        BlockPatternEntry::Stuffing
    );
    assert_eq!(
        reader.read_vlc(&mcbpc_p_table()).unwrap(),
        BlockPatternEntry::Valid(MacroblockType::Inter4Vq, false, false)
    );
    assert_eq!(
        reader.read_vlc(&mcbpc_p_table()).unwrap(),
        BlockPatternEntry::Valid(MacroblockType::Inter4Vq, false, true)
    );
    assert_eq!(
        reader.read_vlc(&mcbpc_p_table()).unwrap(),
        BlockPatternEntry::Valid(MacroblockType::Inter4Vq, true, false)
    );
    assert_eq!(
        reader.read_vlc(&mcbpc_p_table()).unwrap(),
        BlockPatternEntry::Valid(MacroblockType::Inter4Vq, true, true)
    );
    assert_eq!(
        reader.read_vlc(&mcbpc_p_table()).unwrap(),
        BlockPatternEntry::Invalid
    );
}

#[test]
fn macroblock_modb_table() {
    let bit_pattern = vec![0b0_10_11_000];
    let mut reader = H263Reader::from_source(&bit_pattern[..]);

    assert_eq!(reader.read_vlc(&modb_table()).unwrap(), (false, false));
    assert_eq!(reader.read_vlc(&modb_table()).unwrap(), (false, true));
    assert_eq!(reader.read_vlc(&modb_table()).unwrap(), (true, true));
}

#[test]
fn macroblock_cbpy_table() {
    let bit_pattern = vec![
        0b0011_0010,
        0b1_00100_10,
        0b01_00011_0,
        0b111_00001,
        0b0_1011_000,
        0b10_000011,
        0b0101_1010,
        0b0100_1000,
        0b0110_11_00,
        0b00_0000_00,
    ];
    let mut reader = H263Reader::from_source(&bit_pattern[..]);

    assert_eq!(
        reader.read_vlc(&cbpy_table_intra()).unwrap(),
        Some([false, false, false, false])
    );
    assert_eq!(
        reader.read_vlc(&cbpy_table_intra()).unwrap(),
        Some([false, false, false, true])
    );
    assert_eq!(
        reader.read_vlc(&cbpy_table_intra()).unwrap(),
        Some([false, false, true, false])
    );
    assert_eq!(
        reader.read_vlc(&cbpy_table_intra()).unwrap(),
        Some([false, false, true, true])
    );
    assert_eq!(
        reader.read_vlc(&cbpy_table_intra()).unwrap(),
        Some([false, true, false, false])
    );
    assert_eq!(
        reader.read_vlc(&cbpy_table_intra()).unwrap(),
        Some([false, true, false, true])
    );
    assert_eq!(
        reader.read_vlc(&cbpy_table_intra()).unwrap(),
        Some([false, true, true, false])
    );
    assert_eq!(
        reader.read_vlc(&cbpy_table_intra()).unwrap(),
        Some([false, true, true, true])
    );
    assert_eq!(
        reader.read_vlc(&cbpy_table_intra()).unwrap(),
        Some([true, false, false, false])
    );
    assert_eq!(
        reader.read_vlc(&cbpy_table_intra()).unwrap(),
        Some([true, false, false, true])
    );
    assert_eq!(
        reader.read_vlc(&cbpy_table_intra()).unwrap(),
        Some([true, false, true, false])
    );
    assert_eq!(
        reader.read_vlc(&cbpy_table_intra()).unwrap(),
        Some([true, false, true, true])
    );
    assert_eq!(
        reader.read_vlc(&cbpy_table_intra()).unwrap(),
        Some([true, true, false, false])
    );
    assert_eq!(
        reader.read_vlc(&cbpy_table_intra()).unwrap(),
        Some([true, true, false, true])
    );
    assert_eq!(
        reader.read_vlc(&cbpy_table_intra()).unwrap(),
        Some([true, true, true, false])
    );
    assert_eq!(
        reader.read_vlc(&cbpy_table_intra()).unwrap(),
        Some([true, true, true, true])
    );
    assert_eq!(reader.read_vlc(&cbpy_table_intra()).unwrap(), None);
    assert_eq!(reader.read_vlc(&cbpy_table_intra()).unwrap(), None);
}

#[test]
fn macroblock_mvd_table() {
    let bit_pattern = vec![
        0b00000000,
        0b00101_000,
        0b00000001,
        0b11_000000,
        0b000101_00,
        0b00000001,
        0b11_000000,
        0b001001_00,
        0b00000010,
        0b11_000000,
        0b001101_00,
        0b00000011,
        0b11_000000,
        0b01001_000,
        0b00001011,
        0b00000001,
        0b101_00000,
        0b001111_00,
        0b00001000,
        0b1_0000001,
        0b0011_0000,
        0b0010101_0,
        0b00000101,
        0b11_000000,
        0b11001_000,
        0b00011011,
        0b00000011,
        0b101_00000,
        0b011111_00, //tail of -6.5, start of -6.0
        0b00010000,
        0b1_0000010,
        0b0011_0000,
        0b010011_00,
        0b00010101,
        0b00000101,
        0b11_000001,
        0b11_000010,
        0b01_000010,
        0b11_000011,
        0b1_00011_00,
        0b11_011_1_01,
        0b0_0010_000,
        0b10_000011,
        0b0_0000101,
        0b0_0000100,
        0b0_0000011,
        0b0_0000010,
        0b110_00000,
        0b10100_000,
        0b0010010_0,
        0b00001000,
        0b10_000001,
        0b00000_000,
        0b00011110,
        0b00000011,
        0b100_00000,
        0b011010_00,
        0b00001100,
        0b0_0000001,
        0b0110_0000,
        0b0010100_0,
        0b00000100,
        0b10_000000,
        0b10000_000,
        0b00001110,
        0b00000001,
        0b100_00000,
        0b001010_00,
        0b00000100,
        0b0_0000000,
        0b01110_000,
        0b00000110,
        0b0_0000000,
        0b01010_000,
        0b00000100,
        0b0_0000000,
        0b00110_000,
        0b00000010,
        0b0_0000000,
        0b000110_00,
        0b00000000,
        0b100_00000,
        0b00000100,
        0b00000000,
        0b00100_000,
        0b00000000,
    ];
    let mut reader = H263Reader::from_source(&bit_pattern[..]);

    assert_eq!(reader.read_vlc(&mvd_table()).unwrap(), Some(half(-16.0)));
    assert_eq!(reader.read_vlc(&mvd_table()).unwrap(), Some(half(-15.5)));
    assert_eq!(reader.read_vlc(&mvd_table()).unwrap(), Some(half(-15.0)));
    assert_eq!(reader.read_vlc(&mvd_table()).unwrap(), Some(half(-14.5)));
    assert_eq!(reader.read_vlc(&mvd_table()).unwrap(), Some(half(-14.0)));
    assert_eq!(reader.read_vlc(&mvd_table()).unwrap(), Some(half(-13.5)));
    assert_eq!(reader.read_vlc(&mvd_table()).unwrap(), Some(half(-13.0)));
    assert_eq!(reader.read_vlc(&mvd_table()).unwrap(), Some(half(-12.5)));
    assert_eq!(reader.read_vlc(&mvd_table()).unwrap(), Some(half(-12.0)));
    assert_eq!(reader.read_vlc(&mvd_table()).unwrap(), Some(half(-11.5)));
    assert_eq!(reader.read_vlc(&mvd_table()).unwrap(), Some(half(-11.0)));
    assert_eq!(reader.read_vlc(&mvd_table()).unwrap(), Some(half(-10.5)));
    assert_eq!(reader.read_vlc(&mvd_table()).unwrap(), Some(half(-10.0)));
    assert_eq!(reader.read_vlc(&mvd_table()).unwrap(), Some(half(-9.5)));
    assert_eq!(reader.read_vlc(&mvd_table()).unwrap(), Some(half(-9.0)));
    assert_eq!(reader.read_vlc(&mvd_table()).unwrap(), Some(half(-8.5)));
    assert_eq!(reader.read_vlc(&mvd_table()).unwrap(), Some(half(-8.0)));
    assert_eq!(reader.read_vlc(&mvd_table()).unwrap(), Some(half(-7.5)));
    assert_eq!(reader.read_vlc(&mvd_table()).unwrap(), Some(half(-7.0)));
    assert_eq!(reader.read_vlc(&mvd_table()).unwrap(), Some(half(-6.5)));
    assert_eq!(reader.read_vlc(&mvd_table()).unwrap(), Some(half(-6.0)));
    assert_eq!(reader.read_vlc(&mvd_table()).unwrap(), Some(half(-5.5)));
    assert_eq!(reader.read_vlc(&mvd_table()).unwrap(), Some(half(-5.0)));
    assert_eq!(reader.read_vlc(&mvd_table()).unwrap(), Some(half(-4.5)));
    assert_eq!(reader.read_vlc(&mvd_table()).unwrap(), Some(half(-4.0)));
    assert_eq!(reader.read_vlc(&mvd_table()).unwrap(), Some(half(-3.5)));
    assert_eq!(reader.read_vlc(&mvd_table()).unwrap(), Some(half(-3.0)));
    assert_eq!(reader.read_vlc(&mvd_table()).unwrap(), Some(half(-2.5)));
    assert_eq!(reader.read_vlc(&mvd_table()).unwrap(), Some(half(-2.0)));
    assert_eq!(reader.read_vlc(&mvd_table()).unwrap(), Some(half(-1.5)));
    assert_eq!(reader.read_vlc(&mvd_table()).unwrap(), Some(half(-1.0)));
    assert_eq!(reader.read_vlc(&mvd_table()).unwrap(), Some(half(-0.5)));
    assert_eq!(reader.read_vlc(&mvd_table()).unwrap(), Some(half(0.0)));
    assert_eq!(reader.read_vlc(&mvd_table()).unwrap(), Some(half(0.5)));
    assert_eq!(reader.read_vlc(&mvd_table()).unwrap(), Some(half(1.0)));
    assert_eq!(reader.read_vlc(&mvd_table()).unwrap(), Some(half(1.5)));
    assert_eq!(reader.read_vlc(&mvd_table()).unwrap(), Some(half(2.0)));
    assert_eq!(reader.read_vlc(&mvd_table()).unwrap(), Some(half(2.5)));
    assert_eq!(reader.read_vlc(&mvd_table()).unwrap(), Some(half(3.0)));
    assert_eq!(reader.read_vlc(&mvd_table()).unwrap(), Some(half(3.5)));
    assert_eq!(reader.read_vlc(&mvd_table()).unwrap(), Some(half(4.0)));
    assert_eq!(reader.read_vlc(&mvd_table()).unwrap(), Some(half(4.5)));
    assert_eq!(reader.read_vlc(&mvd_table()).unwrap(), Some(half(5.0)));
    assert_eq!(reader.read_vlc(&mvd_table()).unwrap(), Some(half(5.5)));
    assert_eq!(reader.read_vlc(&mvd_table()).unwrap(), Some(half(6.0)));
    assert_eq!(reader.read_vlc(&mvd_table()).unwrap(), Some(half(6.5)));
    assert_eq!(reader.read_vlc(&mvd_table()).unwrap(), Some(half(7.0)));
    assert_eq!(reader.read_vlc(&mvd_table()).unwrap(), Some(half(7.5)));
    assert_eq!(reader.read_vlc(&mvd_table()).unwrap(), Some(half(8.0)));
    assert_eq!(reader.read_vlc(&mvd_table()).unwrap(), Some(half(8.5)));
    assert_eq!(reader.read_vlc(&mvd_table()).unwrap(), Some(half(9.0)));
    assert_eq!(reader.read_vlc(&mvd_table()).unwrap(), Some(half(9.5)));
    assert_eq!(reader.read_vlc(&mvd_table()).unwrap(), Some(half(10.0)));
    assert_eq!(reader.read_vlc(&mvd_table()).unwrap(), Some(half(10.5)));
    assert_eq!(reader.read_vlc(&mvd_table()).unwrap(), Some(half(11.0)));
    assert_eq!(reader.read_vlc(&mvd_table()).unwrap(), Some(half(11.5)));
    assert_eq!(reader.read_vlc(&mvd_table()).unwrap(), Some(half(12.0)));
    assert_eq!(reader.read_vlc(&mvd_table()).unwrap(), Some(half(12.5)));
    assert_eq!(reader.read_vlc(&mvd_table()).unwrap(), Some(half(13.0)));
    assert_eq!(reader.read_vlc(&mvd_table()).unwrap(), Some(half(13.5)));
    assert_eq!(reader.read_vlc(&mvd_table()).unwrap(), Some(half(14.0)));
    assert_eq!(reader.read_vlc(&mvd_table()).unwrap(), Some(half(14.5)));
    assert_eq!(reader.read_vlc(&mvd_table()).unwrap(), Some(half(15.0)));
    assert_eq!(reader.read_vlc(&mvd_table()).unwrap(), Some(half(15.5)));
    assert_eq!(reader.read_vlc(&mvd_table()).unwrap(), None);
    assert_eq!(reader.read_vlc(&mvd_table()).unwrap(), None);
    assert_eq!(reader.read_vlc(&mvd_table()).unwrap(), None);
    assert_eq!(reader.read_vlc(&mvd_table()).unwrap(), None);
}
