//! Variable-length-code walking and the decoder's error classification
//! over concrete tables and streams.

use h263::error::Error;
use h263::reader::H263Reader;
use h263::state::H263State;
use h263::types::DecoderOption;
use h263::vlc::Entry;

#[test]
fn vlc_walks_forks_to_a_terminal() {
    // One fork, then two terminals: a zero bit decodes to 7, a one bit
    // to 9.
    let table: Vec<Entry<u8>> = vec![Entry::Fork(1, 2), Entry::End(7), Entry::End(9)];
    let data = [0b0100_0000u8];
    let mut reader = H263Reader::from_source(&data[..]);
    assert_eq!(7, reader.read_vlc(&table).unwrap());
    assert_eq!(9, reader.read_vlc(&table).unwrap());
}

#[test]
fn vlc_rejects_a_cyclic_table() {
    let table: Vec<Entry<u8>> = vec![Entry::Fork(0, 0)];
    let data = [0xFFu8, 0xFF];
    let mut reader = H263Reader::from_source(&data[..]);
    assert_eq!(Error::InternalDecoderError, reader.read_vlc(&table).unwrap_err());
}

#[test]
fn vlc_rejects_an_out_of_range_fork() {
    let table: Vec<Entry<u8>> = vec![Entry::Fork(5, 6)];
    let data = [0xFFu8];
    let mut reader = H263Reader::from_source(&data[..]);
    assert_eq!(Error::InternalDecoderError, reader.read_vlc(&table).unwrap_err());
}

#[test]
fn vlc_runs_out_of_bits() {
    let table: Vec<Entry<u8>> = vec![Entry::Fork(1, 2), Entry::End(7), Entry::End(9)];
    let data: [u8; 0] = [];
    let mut reader = H263Reader::from_source(&data[..]);
    assert_eq!(Error::EndOfStream, reader.read_vlc(&table).unwrap_err());
}

#[test]
fn gob_start_is_the_middle_of_the_bitstream() {
    // A start code followed by a nonzero group number is a GOB, not a
    // picture, so picture decoding refuses to proceed.
    let data = [0x00u8, 0x00, 0x84, 0x00, 0x00, 0x00];
    let mut reader = H263Reader::from_source(&data[..]);
    let state = H263State::new(DecoderOption::empty());
    let err = match state.begin_picture_decode(&mut reader) {
        Ok(_) => panic!("a GOB header decoded as a picture"),
        Err(e) => e,
    };
    assert_eq!(Error::MiddleOfBitstream, err);
    // The reader is rolled back for a later GOB-layer parse.
    assert_eq!(0, reader.checkpoint());
}

#[test]
fn reserved_source_format_is_invalid() {
    // A standard picture header naming the reserved source format parses,
    // but no picture can be allocated from it.
    // Start code, zero GOB id, TR, PTYPE bits 10-0-110 (reserved format),
    // then I-frame flags and padding.
    let data = pack(&[
        (1, 17),
        (0, 5),
        (42, 8),
        (0b10, 2),
        (0b000, 3),
        (0b110, 3),
        (0b10000, 5),
        (12, 5),
        (0, 1),
        (0, 16),
    ]);
    let mut reader = H263Reader::from_source(&data[..]);
    let state = H263State::new(DecoderOption::empty());
    let err = match state.begin_picture_decode(&mut reader) {
        Ok(_) => panic!("a reserved source format decoded"),
        Err(e) => e,
    };
    assert_eq!(Error::PictureFormatInvalid, err);
}

/// Pack a list of `(value, bit width)` fields into bytes, zero padded.
fn pack(fields: &[(u32, u32)]) -> Vec<u8> {
    let mut bits: Vec<bool> = Vec::new();
    for &(value, width) in fields {
        for k in (0..width).rev() {
            bits.push((value >> k) & 1 == 1);
        }
    }
    while bits.len() % 8 != 0 {
        bits.push(false);
    }
    let mut bytes = Vec::new();
    for chunk in bits.chunks(8) {
        let mut b = 0u8;
        for (i, &bit) in chunk.iter().enumerate() {
            if bit {
                b |= 1 << (7 - i);
            }
        }
        bytes.push(b);
    }
    bytes
}
