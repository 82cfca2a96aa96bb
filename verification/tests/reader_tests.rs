//! Bit reader behaviour over concrete byte streams.

use h263::reader::H263Reader;

#[test]
fn reader_read_unaligned_bits() {
    let data = [0xFF, 0x72, 0x1C, 0x1F];
    let mut reader = H263Reader::from_source(&data[..]);

    assert_eq!(0x07, reader.read_bits(3).unwrap());
    assert_eq!(0x3E, reader.read_bits(6).unwrap());
    assert_eq!(0x721C1F, reader.read_bits(23).unwrap());
    reader.read_bits(1).unwrap_err();
}

#[test]
fn read_read_unaligned_bits() {
    let data = [0xFF, 0x72, 0x1C, 0x1F];
    let mut reader = H263Reader::from_source(&data[..]);

    assert_eq!(0x07, reader.read_bits(3).unwrap());
    assert_eq!(0x3E, reader.read_bits(6).unwrap());
    assert_eq!(0x721C1F, reader.read_bits(23).unwrap());
    reader.read_bits(1).unwrap_err();
}

#[test]
fn read_signed_bits_with_coercion() {
    let data = [0xFF, 0x40, 0x72, 0x1C, 0x1F];
    let mut reader = H263Reader::from_source(&data[..]);

    assert_eq!(-1, reader.read_signed_bits(3).unwrap() as i8);
    assert_eq!(-2, reader.read_signed_bits(6).unwrap() as i8);
    assert_eq!(-0x80, reader.read_signed_bits(8).unwrap() as i8);
    assert_eq!(-0xDE3E1, reader.read_signed_bits(23).unwrap());
    reader.read_bits(1).unwrap_err();
}

#[test]
fn read_signed_bits_directly() {
    let data = [0xFF, 0x40, 0x72, 0x1C, 0x1F];
    let mut reader = H263Reader::from_source(&data[..]);

    assert_eq!(-1, reader.read_signed_bits(3).unwrap());
    assert_eq!(-2, reader.read_signed_bits(6).unwrap());
    assert_eq!(-0x80, reader.read_signed_bits(8).unwrap());
    assert_eq!(-0xDE3E1, reader.read_signed_bits(23).unwrap());
    reader.read_bits(1).unwrap_err();
}

#[test]
fn reader_peek_bits() {
    let data = [0xFF, 0x72, 0x1C, 0x1F];
    let reader = H263Reader::from_source(&data[..]);

    assert_eq!(0x07, reader.peek_bits(3).unwrap());
    assert_eq!(0x3F, reader.peek_bits(6).unwrap());
    assert_eq!(0x7FB90E, reader.peek_bits(23).unwrap());
    reader.peek_bits(64).unwrap_err();
}

#[test]
fn read_u8() {
    let data = [0xFE, 0x73, 0xF3];
    let mut reader = H263Reader::from_source(&data[..]);

    assert_eq!(0xFE, reader.read_u8().unwrap());
    assert_eq!(0x73, reader.read_u8().unwrap());
    assert_eq!(0xF3, reader.read_u8().unwrap());
}

#[test]
fn read_u8_unaligned() {
    let data = [0xFE, 0x73, 0xF3];
    let mut reader = H263Reader::from_source(&data[..]);

    reader.skip_bits(2).unwrap();

    assert_eq!(0xF9, reader.read_u8().unwrap());
    assert_eq!(0xCF, reader.read_u8().unwrap());
    reader.read_u8().unwrap_err();
}

#[test]
fn read_u16() {
    let data = [0xFE, 0x73, 0x50, 0xF3];
    let mut reader = H263Reader::from_source(&data[..]);

    assert_eq!(0xFE73, reader.read_bits(16).unwrap());
    assert_eq!(0x50F3, reader.read_bits(16).unwrap());
}

#[test]
fn read_u32() {
    let data = [0xFE, 0x73, 0x50, 0xF3];
    let mut reader = H263Reader::from_source(&data[..]);

    assert_eq!(0xFE7350F3, reader.read_bits(32).unwrap());
}

#[test]
fn reader_aligned_start_code() {
    let data = [0x00, 0x00, 0x80, 0x00];
    let reader = H263Reader::from_source(&data[..]);

    assert_eq!(Some(0), reader.recognize_start_code(false).unwrap());
}

#[test]
fn reader_stuffed_start_code() {
    let data = [0x00, 0x00, 0x08, 0x00];
    let mut reader = H263Reader::from_source(&data[..]);

    assert_eq!(None, reader.recognize_start_code(false).unwrap());

    reader.skip_bits(1).unwrap();

    assert_eq!(Some(3), reader.recognize_start_code(false).unwrap());
}

#[test]
fn misaligned_start_code() {
    let data = [0x00, 0x00, 0x08, 0x00];
    let reader = H263Reader::from_source(&data[..]);

    assert_eq!(None, reader.recognize_start_code(false).unwrap());
}

#[test]
fn wrong_start_code() {
    let data = [0x01, 0x00, 0x20, 0x00];
    let reader = H263Reader::from_source(&data[..]);

    assert_eq!(None, reader.recognize_start_code(false).unwrap());
}

#[test]
fn resynchronize_to_start_code() {
    let data = [0x13, 0x80, 0x00, 0x40, 0x00];
    let reader = H263Reader::from_source(&data[..]);

    assert_eq!(Some(9), reader.recognize_start_code(true).unwrap());
}

#[test]
fn reads_concatenate_back_to_bytes() {
    // Reading widths that sum to whole bytes reproduces the input when
    // the values are concatenated back as big-endian bit strings.
    let data = [0xA5, 0x3C];
    let mut reader = H263Reader::from_source(&data[..]);
    let hi = reader.read_bits(3).unwrap();
    let mid = reader.read_bits(7).unwrap();
    let lo = reader.read_bits(6).unwrap();
    let back = (hi << 13) | (mid << 6) | lo;
    assert_eq!(back, 0xA53C);
}

#[test]
fn feeding_more_bytes_resumes_a_failed_read() {
    let data = [0xAB];
    let mut reader = H263Reader::from_source(&data[..]);
    assert_eq!(0xAB, reader.read_u8().unwrap());
    reader.read_u8().unwrap_err();
    reader.feed_bytes(&[0xCD]);
    assert_eq!(0xCD, reader.read_u8().unwrap());
}

#[test]
fn read_unaligned_bits() {
    let data = [0xFF, 0x72, 0x1C, 0x1F];
    let mut reader = H263Reader::from_source(&data[..]);

    assert_eq!(0x07, reader.read_bits(3).unwrap());
    assert_eq!(0x3E, reader.read_bits(6).unwrap());
    assert_eq!(0x721C1F, reader.read_bits(23).unwrap());
    reader.read_bits(1).unwrap_err();
}

#[test]
fn peek_bits() {
    let data = [0xFF, 0x72, 0x1C, 0x1F];
    let reader = H263Reader::from_source(&data[..]);

    assert_eq!(0x07, reader.peek_bits(3).unwrap());
    assert_eq!(0x3F, reader.peek_bits(6).unwrap());
    assert_eq!(0x7FB90E, reader.peek_bits(23).unwrap());
    reader.peek_bits(64).unwrap_err();
}

#[test]
fn aligned_start_code() {
    let data = [0x00, 0x00, 0x80, 0x00];
    let reader = H263Reader::from_source(&data[..]);

    assert_eq!(Some(0), reader.recognize_start_code(false).unwrap());
}

#[test]
fn stuffed_start_code() {
    let data = [0x00, 0x00, 0x08, 0x00];
    let mut reader = H263Reader::from_source(&data[..]);

    reader.skip_bits(4).unwrap();

    assert_eq!(Some(0), reader.recognize_start_code(false).unwrap());
}
