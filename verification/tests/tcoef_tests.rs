//! The `TCOEF` code table over the concatenation of every short code.

use h263::block::ShortTCoefficient;
use h263::reader::H263Reader;

#[test]
fn tcoef_table() {
    let bit_pattern = vec![
        0b10_1111_01,
        0b0101_0010,
        0b111_00011,
        0b111_00010,
        0b0101_0001,
        0b00100_000,
        0b0100001_0,
        0b00010000,
        0b0_0000000,
        0b0111_0000,
        0b0000110_0,
        0b00001000,
        0b00_110_010,
        0b100_00011,
        0b110_00000,
        0b01111_000,
        0b00100001,
        0b00000101,
        0b0000_1110,
        0b00011101,
        0b00000011,
        0b10_000001,
        0b010001_01,
        0b101_00010,
        0b0011_0000,
        0b001101_01,
        0b100_00010,
        0b0010_0000,
        0b01010010,
        0b01011_000,
        0b0001100_0,
        0b00001010,
        0b011_01001,
        0b1_0000001,
        0b011_00000,
        0b1010100_0,
        0b10010_000,
        0b0001010_0,
        0b10001_000,
        0b0001001_0,
        0b10000_000,
        0b0001000_0,
        0b010110_00,
        0b00010101,
        0b01_001010,
        0b1_0010100,
        0b00011100,
        0b00011011,
        0b00010000,
        0b1_0001000,
        0b00_000011,
        0b111_00001,
        0b1110_0000,
        0b11101_000,
        0b011100_00,
        0b0011011_0,
        0b00011010,
        0b00000100,
        0b010_00000,
        0b100011_00,
        0b00010101,
        0b10_000001,
        0b010111_01,
        0b11_000011,
        0b001_00000,
        0b000101_00,
        0b1111_0000,
        0b0000100_0,
        0b01110_001,
        0b101_00110,
        0b0_0010011,
        0b0010010_0,
        0b010001_00,
        0b10000_000,
        0b11010_000,
        0b11001_000,
        0b11000_000,
        0b10111_000,
        0b10110_000,
        0b10101_000,
        0b10100_000,
        0b10011_000,
        0b011000_00,
        0b0010111_0,
        0b00010110,
        0b00001010,
        0b1_0000101,
        0b00_000010,
        0b011_00001,
        0b0010_0000,
        0b10001_000,
        0b0000111_0,
        0b00000011,
        0b0_0000000,
        0b101_00000,
        0b00100_000,
        0b00100100,
        0b00000100,
        0b101_00000,
        0b100110_00,
        0b00010011,
        0b1_0000010,
        0b11000_000,
        0b00101100,
        0b1_0000010,
        0b11010_000,
        0b00101101,
        0b1_0000010,
        0b11100_000,
        0b00101110,
        0b1_0000010,
        0b11110_000,
        0b00101111,
        0b1_0000011,
        0b00000000,
        0b00000000,
    ];
    let mut reader = H263Reader::from_source(&bit_pattern[..]);

    assert_eq!(
        reader.read_vlc(&h263::block::tcoef_table()).unwrap(),
        Some(ShortTCoefficient::Run {
            last: false,
            run: 0,
            level: 1
        })
    );
    assert_eq!(
        reader.read_vlc(&h263::block::tcoef_table()).unwrap(),
        Some(ShortTCoefficient::Run {
            last: false,
            run: 0,
            level: 2
        })
    );
    assert_eq!(
        reader.read_vlc(&h263::block::tcoef_table()).unwrap(),
        Some(ShortTCoefficient::Run {
            last: false,
            run: 0,
            level: 3
        })
    );
    assert_eq!(
        reader.read_vlc(&h263::block::tcoef_table()).unwrap(),
        Some(ShortTCoefficient::Run {
            last: false,
            run: 0,
            level: 4
        })
    );
    assert_eq!(
        reader.read_vlc(&h263::block::tcoef_table()).unwrap(),
        Some(ShortTCoefficient::Run {
            last: false,
            run: 0,
            level: 5
        })
    );
    assert_eq!(
        reader.read_vlc(&h263::block::tcoef_table()).unwrap(),
        Some(ShortTCoefficient::Run {
            last: false,
            run: 0,
            level: 6
        })
    );
    assert_eq!(
        reader.read_vlc(&h263::block::tcoef_table()).unwrap(),
        Some(ShortTCoefficient::Run {
            last: false,
            run: 0,
            level: 7
        })
    );
    assert_eq!(
        reader.read_vlc(&h263::block::tcoef_table()).unwrap(),
        Some(ShortTCoefficient::Run {
            last: false,
            run: 0,
            level: 8
        })
    );
    assert_eq!(
        reader.read_vlc(&h263::block::tcoef_table()).unwrap(),
        Some(ShortTCoefficient::Run {
            last: false,
            run: 0,
            level: 9
        })
    );
    assert_eq!(
        reader.read_vlc(&h263::block::tcoef_table()).unwrap(),
        Some(ShortTCoefficient::Run {
            last: false,
            run: 0,
            level: 10
        })
    );
    assert_eq!(
        reader.read_vlc(&h263::block::tcoef_table()).unwrap(),
        Some(ShortTCoefficient::Run {
            last: false,
            run: 0,
            level: 11
        })
    );
    assert_eq!(
        reader.read_vlc(&h263::block::tcoef_table()).unwrap(),
        Some(ShortTCoefficient::Run {
            last: false,
            run: 0,
            level: 12
        })
    );
    assert_eq!(
        reader.read_vlc(&h263::block::tcoef_table()).unwrap(),
        Some(ShortTCoefficient::Run {
            last: false,
            run: 1,
            level: 1
        })
    );
    assert_eq!(
        reader.read_vlc(&h263::block::tcoef_table()).unwrap(),
        Some(ShortTCoefficient::Run {
            last: false,
            run: 1,
            level: 2
        })
    );
    assert_eq!(
        reader.read_vlc(&h263::block::tcoef_table()).unwrap(),
        Some(ShortTCoefficient::Run {
            last: false,
            run: 1,
            level: 3
        })
    );
    assert_eq!(
        reader.read_vlc(&h263::block::tcoef_table()).unwrap(),
        Some(ShortTCoefficient::Run {
            last: false,
            run: 1,
            level: 4
        })
    );
    assert_eq!(
        reader.read_vlc(&h263::block::tcoef_table()).unwrap(),
        Some(ShortTCoefficient::Run {
            last: false,
            run: 1,
            level: 5
        })
    );
    assert_eq!(
        reader.read_vlc(&h263::block::tcoef_table()).unwrap(),
        Some(ShortTCoefficient::Run {
            last: false,
            run: 1,
            level: 6
        })
    );
    assert_eq!(
        reader.read_vlc(&h263::block::tcoef_table()).unwrap(),
        Some(ShortTCoefficient::Run {
            last: false,
            run: 2,
            level: 1
        })
    );
    assert_eq!(
        reader.read_vlc(&h263::block::tcoef_table()).unwrap(),
        Some(ShortTCoefficient::Run {
            last: false,
            run: 2,
            level: 2
        })
    );
    assert_eq!(
        reader.read_vlc(&h263::block::tcoef_table()).unwrap(),
        Some(ShortTCoefficient::Run {
            last: false,
            run: 2,
            level: 3
        })
    );
    assert_eq!(
        reader.read_vlc(&h263::block::tcoef_table()).unwrap(),
        Some(ShortTCoefficient::Run {
            last: false,
            run: 2,
            level: 4
        })
    );
    assert_eq!(
        reader.read_vlc(&h263::block::tcoef_table()).unwrap(),
        Some(ShortTCoefficient::Run {
            last: false,
            run: 3,
            level: 1
        })
    );
    assert_eq!(
        reader.read_vlc(&h263::block::tcoef_table()).unwrap(),
        Some(ShortTCoefficient::Run {
            last: false,
            run: 3,
            level: 2
        })
    );
    assert_eq!(
        reader.read_vlc(&h263::block::tcoef_table()).unwrap(),
        Some(ShortTCoefficient::Run {
            last: false,
            run: 3,
            level: 3
        })
    );
    assert_eq!(
        reader.read_vlc(&h263::block::tcoef_table()).unwrap(),
        Some(ShortTCoefficient::Run {
            last: false,
            run: 4,
            level: 1
        })
    );
    assert_eq!(
        reader.read_vlc(&h263::block::tcoef_table()).unwrap(),
        Some(ShortTCoefficient::Run {
            last: false,
            run: 4,
            level: 2
        })
    );
    assert_eq!(
        reader.read_vlc(&h263::block::tcoef_table()).unwrap(),
        Some(ShortTCoefficient::Run {
            last: false,
            run: 4,
            level: 3
        })
    );
    assert_eq!(
        reader.read_vlc(&h263::block::tcoef_table()).unwrap(),
        Some(ShortTCoefficient::Run {
            last: false,
            run: 5,
            level: 1
        })
    );
    assert_eq!(
        reader.read_vlc(&h263::block::tcoef_table()).unwrap(),
        Some(ShortTCoefficient::Run {
            last: false,
            run: 5,
            level: 2
        })
    );
    assert_eq!(
        reader.read_vlc(&h263::block::tcoef_table()).unwrap(),
        Some(ShortTCoefficient::Run {
            last: false,
            run: 5,
            level: 3
        })
    );
    assert_eq!(
        reader.read_vlc(&h263::block::tcoef_table()).unwrap(),
        Some(ShortTCoefficient::Run {
            last: false,
            run: 6,
            level: 1
        })
    );
    assert_eq!(
        reader.read_vlc(&h263::block::tcoef_table()).unwrap(),
        Some(ShortTCoefficient::Run {
            last: false,
            run: 6,
            level: 2
        })
    );
    assert_eq!(
        reader.read_vlc(&h263::block::tcoef_table()).unwrap(),
        Some(ShortTCoefficient::Run {
            last: false,
            run: 6,
            level: 3
        })
    );
    assert_eq!(
        reader.read_vlc(&h263::block::tcoef_table()).unwrap(),
        Some(ShortTCoefficient::Run {
            last: false,
            run: 7,
            level: 1
        })
    );
    assert_eq!(
        reader.read_vlc(&h263::block::tcoef_table()).unwrap(),
        Some(ShortTCoefficient::Run {
            last: false,
            run: 7,
            level: 2
        })
    );
    assert_eq!(
        reader.read_vlc(&h263::block::tcoef_table()).unwrap(),
        Some(ShortTCoefficient::Run {
            last: false,
            run: 8,
            level: 1
        })
    );
    assert_eq!(
        reader.read_vlc(&h263::block::tcoef_table()).unwrap(),
        Some(ShortTCoefficient::Run {
            last: false,
            run: 8,
            level: 2
        })
    );
    assert_eq!(
        reader.read_vlc(&h263::block::tcoef_table()).unwrap(),
        Some(ShortTCoefficient::Run {
            last: false,
            run: 9,
            level: 1
        })
    );
    assert_eq!(
        reader.read_vlc(&h263::block::tcoef_table()).unwrap(),
        Some(ShortTCoefficient::Run {
            last: false,
            run: 9,
            level: 2
        })
    );
    assert_eq!(
        reader.read_vlc(&h263::block::tcoef_table()).unwrap(),
        Some(ShortTCoefficient::Run {
            last: false,
            run: 10,
            level: 1
        })
    );
    assert_eq!(
        reader.read_vlc(&h263::block::tcoef_table()).unwrap(),
        Some(ShortTCoefficient::Run {
            last: false,
            run: 10,
            level: 2
        })
    );
    assert_eq!(
        reader.read_vlc(&h263::block::tcoef_table()).unwrap(),
        Some(ShortTCoefficient::Run {
            last: false,
            run: 11,
            level: 1
        })
    );
    assert_eq!(
        reader.read_vlc(&h263::block::tcoef_table()).unwrap(),
        Some(ShortTCoefficient::Run {
            last: false,
            run: 12,
            level: 1
        })
    );
    assert_eq!(
        reader.read_vlc(&h263::block::tcoef_table()).unwrap(),
        Some(ShortTCoefficient::Run {
            last: false,
            run: 13,
            level: 1
        })
    );
    assert_eq!(
        reader.read_vlc(&h263::block::tcoef_table()).unwrap(),
        Some(ShortTCoefficient::Run {
            last: false,
            run: 14,
            level: 1
        })
    );
    assert_eq!(
        reader.read_vlc(&h263::block::tcoef_table()).unwrap(),
        Some(ShortTCoefficient::Run {
            last: false,
            run: 15,
            level: 1
        })
    );
    assert_eq!(
        reader.read_vlc(&h263::block::tcoef_table()).unwrap(),
        Some(ShortTCoefficient::Run {
            last: false,
            run: 16,
            level: 1
        })
    );
    assert_eq!(
        reader.read_vlc(&h263::block::tcoef_table()).unwrap(),
        Some(ShortTCoefficient::Run {
            last: false,
            run: 17,
            level: 1
        })
    );
    assert_eq!(
        reader.read_vlc(&h263::block::tcoef_table()).unwrap(),
        Some(ShortTCoefficient::Run {
            last: false,
            run: 18,
            level: 1
        })
    );
    assert_eq!(
        reader.read_vlc(&h263::block::tcoef_table()).unwrap(),
        Some(ShortTCoefficient::Run {
            last: false,
            run: 19,
            level: 1
        })
    );
    assert_eq!(
        reader.read_vlc(&h263::block::tcoef_table()).unwrap(),
        Some(ShortTCoefficient::Run {
            last: false,
            run: 20,
            level: 1
        })
    );
    assert_eq!(
        reader.read_vlc(&h263::block::tcoef_table()).unwrap(),
        Some(ShortTCoefficient::Run {
            last: false,
            run: 21,
            level: 1
        })
    );
    assert_eq!(
        reader.read_vlc(&h263::block::tcoef_table()).unwrap(),
        Some(ShortTCoefficient::Run {
            last: false,
            run: 22,
            level: 1
        })
    );
    assert_eq!(
        reader.read_vlc(&h263::block::tcoef_table()).unwrap(),
        Some(ShortTCoefficient::Run {
            last: false,
            run: 23,
            level: 1
        })
    );
    assert_eq!(
        reader.read_vlc(&h263::block::tcoef_table()).unwrap(),
        Some(ShortTCoefficient::Run {
            last: false,
            run: 24,
            level: 1
        })
    );
    assert_eq!(
        reader.read_vlc(&h263::block::tcoef_table()).unwrap(),
        Some(ShortTCoefficient::Run {
            last: false,
            run: 25,
            level: 1
        })
    );
    assert_eq!(
        reader.read_vlc(&h263::block::tcoef_table()).unwrap(),
        Some(ShortTCoefficient::Run {
            last: false,
            run: 26,
            level: 1
        })
    );
    assert_eq!(
        reader.read_vlc(&h263::block::tcoef_table()).unwrap(),
        Some(ShortTCoefficient::Run {
            last: true,
            run: 0,
            level: 1
        })
    );
    assert_eq!(
        reader.read_vlc(&h263::block::tcoef_table()).unwrap(),
        Some(ShortTCoefficient::Run {
            last: true,
            run: 0,
            level: 2
        })
    );
    assert_eq!(
        reader.read_vlc(&h263::block::tcoef_table()).unwrap(),
        Some(ShortTCoefficient::Run {
            last: true,
            run: 0,
            level: 3
        })
    );
    assert_eq!(
        reader.read_vlc(&h263::block::tcoef_table()).unwrap(),
        Some(ShortTCoefficient::Run {
            last: true,
            run: 1,
            level: 1
        })
    );
    assert_eq!(
        reader.read_vlc(&h263::block::tcoef_table()).unwrap(),
        Some(ShortTCoefficient::Run {
            last: true,
            run: 1,
            level: 2
        })
    );
    assert_eq!(
        reader.read_vlc(&h263::block::tcoef_table()).unwrap(),
        Some(ShortTCoefficient::Run {
            last: true,
            run: 2,
            level: 1
        })
    );
    assert_eq!(
        reader.read_vlc(&h263::block::tcoef_table()).unwrap(),
        Some(ShortTCoefficient::Run {
            last: true,
            run: 3,
            level: 1
        })
    );
    assert_eq!(
        reader.read_vlc(&h263::block::tcoef_table()).unwrap(),
        Some(ShortTCoefficient::Run {
            last: true,
            run: 4,
            level: 1
        })
    );
    assert_eq!(
        reader.read_vlc(&h263::block::tcoef_table()).unwrap(),
        Some(ShortTCoefficient::Run {
            last: true,
            run: 5,
            level: 1
        })
    );
    assert_eq!(
        reader.read_vlc(&h263::block::tcoef_table()).unwrap(),
        Some(ShortTCoefficient::Run {
            last: true,
            run: 6,
            level: 1
        })
    );
    assert_eq!(
        reader.read_vlc(&h263::block::tcoef_table()).unwrap(),
        Some(ShortTCoefficient::Run {
            last: true,
            run: 7,
            level: 1
        })
    );
    assert_eq!(
        reader.read_vlc(&h263::block::tcoef_table()).unwrap(),
        Some(ShortTCoefficient::Run {
            last: true,
            run: 8,
            level: 1
        })
    );
    assert_eq!(
        reader.read_vlc(&h263::block::tcoef_table()).unwrap(),
        Some(ShortTCoefficient::Run {
            last: true,
            run: 9,
            level: 1
        })
    );
    assert_eq!(
        reader.read_vlc(&h263::block::tcoef_table()).unwrap(),
        Some(ShortTCoefficient::Run {
            last: true,
            run: 10,
            level: 1
        })
    );
    assert_eq!(
        reader.read_vlc(&h263::block::tcoef_table()).unwrap(),
        Some(ShortTCoefficient::Run {
            last: true,
            run: 11,
            level: 1
        })
    );
    assert_eq!(
        reader.read_vlc(&h263::block::tcoef_table()).unwrap(),
        Some(ShortTCoefficient::Run {
            last: true,
            run: 12,
            level: 1
        })
    );
    assert_eq!(
        reader.read_vlc(&h263::block::tcoef_table()).unwrap(),
        Some(ShortTCoefficient::Run {
            last: true,
            run: 13,
            level: 1
        })
    );
    assert_eq!(
        reader.read_vlc(&h263::block::tcoef_table()).unwrap(),
        Some(ShortTCoefficient::Run {
            last: true,
            run: 14,
            level: 1
        })
    );
    assert_eq!(
        reader.read_vlc(&h263::block::tcoef_table()).unwrap(),
        Some(ShortTCoefficient::Run {
            last: true,
            run: 15,
            level: 1
        })
    );
    assert_eq!(
        reader.read_vlc(&h263::block::tcoef_table()).unwrap(),
        Some(ShortTCoefficient::Run {
            last: true,
            run: 16,
            level: 1
        })
    );
    assert_eq!(
        reader.read_vlc(&h263::block::tcoef_table()).unwrap(),
        Some(ShortTCoefficient::Run {
            last: true,
            run: 17,
            level: 1
        })
    );
    assert_eq!(
        reader.read_vlc(&h263::block::tcoef_table()).unwrap(),
        Some(ShortTCoefficient::Run {
            last: true,
            run: 18,
            level: 1
        })
    );
    assert_eq!(
        reader.read_vlc(&h263::block::tcoef_table()).unwrap(),
        Some(ShortTCoefficient::Run {
            last: true,
            run: 19,
            level: 1
        })
    );
    assert_eq!(
        reader.read_vlc(&h263::block::tcoef_table()).unwrap(),
        Some(ShortTCoefficient::Run {
            last: true,
            run: 20,
            level: 1
        })
    );
    assert_eq!(
        reader.read_vlc(&h263::block::tcoef_table()).unwrap(),
        Some(ShortTCoefficient::Run {
            last: true,
            run: 21,
            level: 1
        })
    );
    assert_eq!(
        reader.read_vlc(&h263::block::tcoef_table()).unwrap(),
        Some(ShortTCoefficient::Run {
            last: true,
            run: 22,
            level: 1
        })
    );
    assert_eq!(
        reader.read_vlc(&h263::block::tcoef_table()).unwrap(),
        Some(ShortTCoefficient::Run {
            last: true,
            run: 23,
            level: 1
        })
    );
    assert_eq!(
        reader.read_vlc(&h263::block::tcoef_table()).unwrap(),
        Some(ShortTCoefficient::Run {
            last: true,
            run: 24,
            level: 1
        })
    );
    assert_eq!(
        reader.read_vlc(&h263::block::tcoef_table()).unwrap(),
        Some(ShortTCoefficient::Run {
            last: true,
            run: 25,
            level: 1
        })
    );
    assert_eq!(
        reader.read_vlc(&h263::block::tcoef_table()).unwrap(),
        Some(ShortTCoefficient::Run {
            last: true,
            run: 26,
            level: 1
        })
    );
    assert_eq!(
        reader.read_vlc(&h263::block::tcoef_table()).unwrap(),
        Some(ShortTCoefficient::Run {
            last: true,
            run: 27,
            level: 1
        })
    );
    assert_eq!(
        reader.read_vlc(&h263::block::tcoef_table()).unwrap(),
        Some(ShortTCoefficient::Run {
            last: true,
            run: 28,
            level: 1
        })
    );
    assert_eq!(
        reader.read_vlc(&h263::block::tcoef_table()).unwrap(),
        Some(ShortTCoefficient::Run {
            last: true,
            run: 29,
            level: 1
        })
    );
    assert_eq!(
        reader.read_vlc(&h263::block::tcoef_table()).unwrap(),
        Some(ShortTCoefficient::Run {
            last: true,
            run: 30,
            level: 1
        })
    );
    assert_eq!(
        reader.read_vlc(&h263::block::tcoef_table()).unwrap(),
        Some(ShortTCoefficient::Run {
            last: true,
            run: 31,
            level: 1
        })
    );
    assert_eq!(
        reader.read_vlc(&h263::block::tcoef_table()).unwrap(),
        Some(ShortTCoefficient::Run {
            last: true,
            run: 32,
            level: 1
        })
    );
    assert_eq!(
        reader.read_vlc(&h263::block::tcoef_table()).unwrap(),
        Some(ShortTCoefficient::Run {
            last: true,
            run: 33,
            level: 1
        })
    );
    assert_eq!(
        reader.read_vlc(&h263::block::tcoef_table()).unwrap(),
        Some(ShortTCoefficient::Run {
            last: true,
            run: 34,
            level: 1
        })
    );
    assert_eq!(
        reader.read_vlc(&h263::block::tcoef_table()).unwrap(),
        Some(ShortTCoefficient::Run {
            last: true,
            run: 35,
            level: 1
        })
    );
    assert_eq!(
        reader.read_vlc(&h263::block::tcoef_table()).unwrap(),
        Some(ShortTCoefficient::Run {
            last: true,
            run: 36,
            level: 1
        })
    );
    assert_eq!(
        reader.read_vlc(&h263::block::tcoef_table()).unwrap(),
        Some(ShortTCoefficient::Run {
            last: true,
            run: 37,
            level: 1
        })
    );
    assert_eq!(
        reader.read_vlc(&h263::block::tcoef_table()).unwrap(),
        Some(ShortTCoefficient::Run {
            last: true,
            run: 38,
            level: 1
        })
    );
    assert_eq!(
        reader.read_vlc(&h263::block::tcoef_table()).unwrap(),
        Some(ShortTCoefficient::Run {
            last: true,
            run: 39,
            level: 1
        })
    );
    assert_eq!(
        reader.read_vlc(&h263::block::tcoef_table()).unwrap(),
        Some(ShortTCoefficient::Run {
            last: true,
            run: 40,
            level: 1
        })
    );
}
