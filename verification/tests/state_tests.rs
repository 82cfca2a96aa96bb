//! Picture-layer decoding and the decoder state machine over a small
//! hand-built Sorenson Spark bitstream.

use h263::error::Error;
use h263::gob::decode_gob;
use h263::reader::H263Reader;
use h263::state::H263State;
use h263::rle::DecodedDctBlock;
use h263::types::{
    DecoderOption, PictureTypeCode, SourceFormat, MotionVectorRange, SORENSON_SPARK_BITSTREAM,
    USE_DEBLOCKER,
};

/// Pack a list of `(value, bit width)` fields into bytes, zero padded.
fn pack_bits(fields: &[(u32, u32)]) -> Vec<u8> {
    let mut bits: Vec<bool> = Vec::new();
    for &(value, width) in fields {
        for k in (0..width).rev() {
            bits.push((value >> k) & 1 == 1);
        }
    }
    while bits.len() % 8 != 0 {
        bits.push(false);
    }
    let mut bytes = Vec::new();
    for chunk in bits.chunks(8) {
        let mut b = 0u8;
        for (i, &bit) in chunk.iter().enumerate() {
            if bit {
                b |= 1 << (7 - i);
            }
        }
        bytes.push(b);
    }
    bytes
}

/// A minimal Sorenson Spark I-frame header with no macroblock data: the
/// stream runs out of bits, which ends the picture.
fn sorenson_iframe_bytes() -> Vec<u8> {
    pack_bits(&[
        (1, 17),  // picture start code
        (1, 5),   // version
        (7, 8),   // temporal reference
        (4, 3),   // source format: sub-QCIF
        (0, 2),   // picture type: I-frame
        (12, 5),  // quantizer
        (0, 1),   // no extra information
    ])
}

#[test]
fn sorenson_picture_header_decodes() {
    let data = sorenson_iframe_bytes();
    let mut reader = H263Reader::from_source(&data[..]);
    let state = H263State::new(DecoderOption::from_bits(SORENSON_SPARK_BITSTREAM));
    let pending = state.begin_picture_decode(&mut reader).unwrap();
    let header = pending.picture.as_header();
    assert_eq!(header.version, Some(1));
    assert_eq!(header.temporal_reference, 7);
    assert_eq!(header.quantizer, 12);
    assert!(matches!(header.picture_type, PictureTypeCode::IFrame));
    assert!(matches!(header.motion_vector_range, Some(MotionVectorRange::Unlimited)));
    assert_eq!(header.options.bits, USE_DEBLOCKER);
    assert_eq!(pending.picture.format(), SourceFormat::SubQcif);
    // Sub-QCIF is 128x96: eight macroblocks to a line.
    assert_eq!(pending.mb_per_line, 8);
    assert_eq!(pending.picture.as_luma().len(), 128 * 96);
    assert_eq!(pending.picture.as_chroma_b().len(), 64 * 48);
}

#[test]
fn committed_picture_is_retained() {
    let data = sorenson_iframe_bytes();
    let mut reader = H263Reader::from_source(&data[..]);
    let mut state = H263State::new(DecoderOption::from_bits(SORENSON_SPARK_BITSTREAM));
    assert!(state.get_last_picture().is_none());
    let pending = state.begin_picture_decode(&mut reader).unwrap();
    state.commit_picture(&mut reader, pending.picture, pending.running_options);
    let last = state.get_last_picture().unwrap();
    assert_eq!(last.as_header().temporal_reference, 7);
    assert!(state.get_reference_picture().is_some());
}

#[test]
fn middle_of_bitstream_without_start_code() {
    let data = [0xFF, 0xFF, 0xFF, 0xFF, 0xFF];
    let mut reader = H263Reader::from_source(&data[..]);
    let state = H263State::new(DecoderOption::from_bits(SORENSON_SPARK_BITSTREAM));
    let err = match state.begin_picture_decode(&mut reader) {
        Ok(_) => panic!("a stream without a start code decoded"),
        Err(e) => e,
    };
    assert!(matches!(err, Error::InvalidBitstream | Error::EndOfStream));
}

#[test]
fn gob_header_requires_a_start_code() {
    let data = [0xFF, 0xFF, 0xFF, 0xFF];
    let mut reader = H263Reader::from_source(&data[..]);
    let err = decode_gob(&mut reader, DecoderOption::empty()).unwrap_err();
    assert_eq!(err, Error::InvalidGobHeader);
    assert!(err.is_gob_error());
    assert!(!err.is_eof_error());
    assert!(Error::EndOfStream.is_eof_error());
    assert!(Error::InvalidBitstream.is_macroblock_error());
    assert!(Error::InvalidMvd.is_macroblock_error());
}

#[test]
fn gob_start_code_defers_to_picture_layer() {
    // A start code followed by a zero group number opens a picture, not
    // a GOB, so the GOB parser yields nothing and rewinds.
    let data = pack_bits(&[(1, 17), (0, 5), (0, 10)]);
    let mut reader = H263Reader::from_source(&data[..]);
    let r = decode_gob(&mut reader, DecoderOption::empty()).unwrap();
    assert!(r.is_none());
    assert_eq!(0, reader.checkpoint());
}

/// A standard H.263 sub-QCIF I-frame with a single INTRA macroblock whose
/// blocks carry only DC coefficients, ending at the end of the stream.
fn standard_iframe_bytes() -> Vec<u8> {
    pack_bits(&[
        (1, 17),       // picture start code
        (0, 5),        // GOB number zero: a picture layer follows
        (42, 8),       // temporal reference
        (0b10, 2),     // PTYPE prefix
        (0b000, 3),    // no split screen, camera, or freeze release
        (0b001, 3),    // source format: sub-QCIF
        (0b10000, 5),  // I-frame, no optional modes
        (10, 5),       // quantizer
        (0, 1),        // no continuous presence multipoint
        (0, 1),        // no extra information
        (0b1, 1),      // MCBPC: INTRA, no coded chroma blocks
        (0b0011, 4),   // CBPY: no coded luma blocks
        (0x20, 8),     // INTRADC of each of the six blocks
        (0x20, 8),
        (0x20, 8),
        (0x20, 8),
        (0x20, 8),
        (0x20, 8),
    ])
}

#[test]
fn standard_iframe_macroblock_decodes_to_dc_blocks() {
    let data = standard_iframe_bytes();
    let mut reader = H263Reader::from_source(&data[..]);
    let state = H263State::new(DecoderOption::empty());
    let pending = state.begin_picture_decode(&mut reader).unwrap();
    assert_eq!(pending.mb_per_line, 8);
    // The one parsed macroblock holds a bare DC level of 0x20 * 8 = 256
    // in each of its four luma blocks and both chroma blocks.
    assert_eq!(pending.luma_levels[0], DecodedDctBlock::Dc(256));
    assert_eq!(pending.luma_levels[1], DecodedDctBlock::Dc(256));
    assert_eq!(pending.luma_levels[16], DecodedDctBlock::Dc(256));
    assert_eq!(pending.luma_levels[17], DecodedDctBlock::Dc(256));
    assert_eq!(pending.luma_levels[2], DecodedDctBlock::Zero);
    assert_eq!(pending.chroma_b_levels[0], DecodedDctBlock::Dc(256));
    assert_eq!(pending.chroma_r_levels[0], DecodedDctBlock::Dc(256));
}

#[test]
fn committed_dc_block_reconstructs_its_pixels() {
    let data = standard_iframe_bytes();
    let mut reader = H263Reader::from_source(&data[..]);
    let mut state = H263State::new(DecoderOption::empty());
    let mut pending = state.begin_picture_decode(&mut reader).unwrap();
    // No block carries AC coefficients, so every residual vector is
    // empty and the verified DC fast path reconstructs the picture.
    let luma = vec![Vec::new(); pending.luma_levels.len()];
    let cb = vec![Vec::new(); pending.chroma_b_levels.len()];
    let cr = vec![Vec::new(); pending.chroma_r_levels.len()];
    h263::state::apply_idct_residuals(&mut pending, &luma, &cb, &cr).unwrap();
    state.commit_picture(&mut reader, pending.picture, pending.running_options);
    let picture = state.get_last_picture().unwrap();
    // A DC level of 256 reconstructs as (256 + 4) / 8 = 32.
    let plane = picture.as_luma();
    assert_eq!(plane[0], 32);
    assert_eq!(plane[15], 32);
    assert_eq!(plane[16], 0);
    assert_eq!(plane[15 * 128 + 15], 32);
    assert_eq!(plane[16 * 128], 0);
    assert_eq!(picture.as_chroma_b()[0], 32);
    assert_eq!(picture.as_chroma_r()[7 * 64 + 7], 32);
    assert_eq!(picture.as_chroma_r()[8 * 64], 0);
}

/// A standard H.263 sub-QCIF P-frame with one coded inter macroblock
/// carrying a zero motion vector and no coefficients.
fn standard_pframe_bytes() -> Vec<u8> {
    pack_bits(&[
        (1, 17),      // picture start code
        (0, 5),       // GOB number zero: a picture layer follows
        (43, 8),      // temporal reference
        (0b10, 2),    // PTYPE prefix
        (0b000, 3),   // no split screen, camera, or freeze release
        (0b001, 3),   // source format: sub-QCIF
        (0b00000, 5), // P-frame, no optional modes
        (10, 5),      // quantizer
        (0, 1),       // no continuous presence multipoint
        (0, 1),       // no extra information
        (0, 1),       // COD: the macroblock is coded
        (0b1, 1),     // MCBPC: INTER, no coded chroma blocks
        (0b11, 2),    // CBPY: no coded luma blocks, in the inverted form
        (0b1, 1),     // MVD x: zero
        (0b1, 1),     // MVD y: zero
    ])
}

#[test]
fn pframe_with_zero_motion_copies_the_reference() {
    let mut state = H263State::new(DecoderOption::empty());

    let data = standard_iframe_bytes();
    let mut reader = H263Reader::from_source(&data[..]);
    let mut pending = state.begin_picture_decode(&mut reader).unwrap();
    let empty_luma = vec![Vec::new(); pending.luma_levels.len()];
    let empty_cb = vec![Vec::new(); pending.chroma_b_levels.len()];
    let empty_cr = vec![Vec::new(); pending.chroma_r_levels.len()];
    h263::state::apply_idct_residuals(&mut pending, &empty_luma, &empty_cb, &empty_cr).unwrap();
    state.commit_picture(&mut reader, pending.picture, pending.running_options);

    let data = standard_pframe_bytes();
    let mut reader = H263Reader::from_source(&data[..]);
    let mut pending = state.begin_picture_decode(&mut reader).unwrap();
    let empty_luma = vec![Vec::new(); pending.luma_levels.len()];
    let empty_cb = vec![Vec::new(); pending.chroma_b_levels.len()];
    let empty_cr = vec![Vec::new(); pending.chroma_r_levels.len()];
    h263::state::apply_idct_residuals(&mut pending, &empty_luma, &empty_cb, &empty_cr).unwrap();
    state.commit_picture(&mut reader, pending.picture, pending.running_options);

    let picture = state.get_last_picture().unwrap();
    assert_eq!(picture.as_header().temporal_reference, 43);
    // The macroblock was predicted from the reference picture without
    // displacement, so the reconstructed block of the I-frame shows
    // through unchanged.
    let plane = picture.as_luma();
    assert_eq!(plane[0], 32);
    assert_eq!(plane[15], 32);
    assert_eq!(plane[15 * 128 + 15], 32);
    assert_eq!(picture.as_chroma_b()[0], 32);
}

#[test]
fn disposable_frames_do_not_become_the_reference() {
    let mut state = H263State::new(DecoderOption::from_bits(SORENSON_SPARK_BITSTREAM));

    let data = sorenson_iframe_bytes();
    let mut reader = H263Reader::from_source(&data[..]);
    let pending = state.begin_picture_decode(&mut reader).unwrap();
    state.commit_picture(&mut reader, pending.picture, pending.running_options);
    assert_eq!(state.get_reference_picture().unwrap().as_header().temporal_reference, 7);

    // The same stream shape, but a disposable P-frame with a later
    // temporal reference.
    let data = pack_bits(&[
        (1, 17),
        (1, 5),
        (9, 8),
        (4, 3),  // source format: sub-QCIF
        (2, 2),  // picture type: disposable P-frame
        (12, 5),
        (0, 1),
    ]);
    let mut reader = H263Reader::from_source(&data[..]);
    let pending = state.begin_picture_decode(&mut reader).unwrap();
    state.commit_picture(&mut reader, pending.picture, pending.running_options);

    // The disposable picture became the last picture but left the
    // reference untouched, and both stay retained.
    assert_eq!(state.get_last_picture().unwrap().as_header().temporal_reference, 9);
    assert_eq!(state.get_reference_picture().unwrap().as_header().temporal_reference, 7);
}

#[test]
fn sorenson_extra_information_bytes_are_gathered() {
    // An I-frame header whose PEI chain carries two PSUPP bytes.
    let data = pack_bits(&[
        (1, 17),    // picture start code
        (1, 5),     // version
        (9, 8),     // temporal reference
        (4, 3),     // source format: sub-QCIF
        (0, 2),     // picture type: I-frame
        (3, 5),     // quantizer
        (1, 1),     // extra information follows
        (0xAB, 8),  // first PSUPP byte
        (1, 1),     // more extra information
        (0xCD, 8),  // second PSUPP byte
        (0, 1),     // end of the chain
    ]);
    let mut reader = H263Reader::from_source(&data[..]);
    let picture = h263::picture::decode_picture(
        &mut reader,
        DecoderOption::from_bits(SORENSON_SPARK_BITSTREAM),
        None,
    )
    .unwrap()
    .unwrap();
    assert_eq!(picture.temporal_reference, 9);
    assert_eq!(picture.quantizer, 3);
    assert_eq!(picture.extra, vec![0xAB, 0xCD]);
}

#[test]
fn sorenson_custom_dimensions_come_from_the_byte_fields() {
    // Selector 0 carries the width and height in two eight-bit fields;
    // selector 1 carries them in two sixteen-bit fields.
    let eight = pack_bits(&[
        (1, 17),   // picture start code
        (1, 5),    // version
        (2, 8),    // temporal reference
        (0, 3),    // source format: custom, eight-bit dimensions
        (48, 8),   // width
        (32, 8),   // height
        (0, 2),    // picture type: I-frame
        (7, 5),    // quantizer
        (0, 1),    // no extra information
    ]);
    let mut reader = H263Reader::from_source(&eight[..]);
    let picture = h263::picture::decode_picture(
        &mut reader,
        DecoderOption::from_bits(SORENSON_SPARK_BITSTREAM),
        None,
    )
    .unwrap()
    .unwrap();
    match picture.format {
        Some(SourceFormat::Extended(f)) => {
            assert_eq!(f.picture_width_indication, 48);
            assert_eq!(f.picture_height_indication, 32);
        },
        other => panic!("wrong format: {:?}", other),
    }
    let sixteen = pack_bits(&[
        (1, 17),    // picture start code
        (1, 5),     // version
        (2, 8),     // temporal reference
        (1, 3),     // source format: custom, sixteen-bit dimensions
        (640, 16),  // width
        (480, 16),  // height
        (1, 2),     // picture type: P-frame
        (7, 5),     // quantizer
        (0, 1),     // no extra information
    ]);
    let mut reader = H263Reader::from_source(&sixteen[..]);
    let picture = h263::picture::decode_picture(
        &mut reader,
        DecoderOption::from_bits(SORENSON_SPARK_BITSTREAM),
        None,
    )
    .unwrap()
    .unwrap();
    assert!(matches!(picture.picture_type, PictureTypeCode::PFrame));
    match picture.format {
        Some(SourceFormat::Extended(f)) => {
            assert_eq!(f.picture_width_indication, 640);
            assert_eq!(f.picture_height_indication, 480);
        },
        other => panic!("wrong format: {:?}", other),
    }
}
