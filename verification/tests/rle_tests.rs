//! Inverse run-length expansion and motion vector decoding over concrete
//! inputs.

use h263::decoded::DecodedPicture;
use h263::mvd_pred::{halfpel_decode, predict_candidate};
use h263::rle::{inverse_rle, DecodedDctBlock};
use h263::types::{
    Block, HalfPel, IntraDc, MotionVector, Picture, PictureOption, PictureTypeCode, SourceFormat,
    TCoefficient,
};

fn sample_header() -> Picture {
    Picture {
        version: None,
        temporal_reference: 0,
        format: Some(SourceFormat::SubQcif),
        options: PictureOption::empty(),
        has_plusptype: false,
        has_opptype: false,
        picture_type: PictureTypeCode::IFrame,
        motion_vector_range: None,
        slice_submode: None,
        scalability_layer: None,
        reference_picture_selection_mode: None,
        prediction_reference: None,
        backchannel_message: None,
        reference_picture_resampling: None,
        quantizer: 10,
        multiplex_bitstream: None,
        pb_reference: None,
        pb_quantizer: None,
        extra: Vec::new(),
    }
}

#[test]
fn dequantised_dc_only_block() {
    let block = Block { intradc: IntraDc::from_u8(0x20), tcoef: Vec::new() };
    let mut levels = vec![DecodedDctBlock::Zero; 4];
    let updated = inverse_rle(&block, &mut levels, (8, 0), 2, 5);
    assert!(updated);
    assert_eq!(levels[1], DecodedDctBlock::Dc(256));
    assert_eq!(levels[0], DecodedDctBlock::Zero);
}

#[test]
fn dequantisation_follows_the_parity_rule() {
    // An odd quantiser adds no parity correction: 3 * (2 * 2 + 1) = 15.
    let block = Block {
        intradc: None,
        tcoef: vec![TCoefficient { is_short: true, run: 0, level: 2 }],
    };
    let mut levels = vec![DecodedDctBlock::Zero; 1];
    assert!(inverse_rle(&block, &mut levels, (0, 0), 1, 3));
    assert_eq!(levels[0], DecodedDctBlock::Dc(15));

    // An even quantiser subtracts one: 4 * (2 * 2 + 1) - 1 = 19, and a
    // negative level keeps its sign.
    let block = Block {
        intradc: None,
        tcoef: vec![TCoefficient { is_short: true, run: 0, level: -2 }],
    };
    let mut levels = vec![DecodedDctBlock::Zero; 1];
    assert!(inverse_rle(&block, &mut levels, (0, 0), 1, 4));
    assert_eq!(levels[0], DecodedDctBlock::Dc(-19));
}

#[test]
fn a_run_lands_on_the_next_scan_position() {
    // A run of one zero puts the coefficient at scan index 1, which
    // dezigzags to the top row: a horizontal block.
    let block = Block {
        intradc: None,
        tcoef: vec![TCoefficient { is_short: true, run: 1, level: 1 }],
    };
    let mut levels = vec![DecodedDctBlock::Zero; 1];
    assert!(inverse_rle(&block, &mut levels, (0, 0), 1, 1));
    let mut row = [0i16; 8];
    row[1] = 3;
    assert_eq!(levels[0], DecodedDctBlock::Horiz(row));
}

#[test]
fn a_run_past_the_block_leaves_it_unchanged() {
    let block = Block {
        intradc: None,
        tcoef: vec![TCoefficient { is_short: true, run: 64, level: 1 }],
    };
    let mut levels = vec![DecodedDctBlock::Dc(8)];
    assert!(!inverse_rle(&block, &mut levels, (0, 0), 1, 1));
    assert_eq!(levels[0], DecodedDctBlock::Dc(8));
}

#[test]
fn decode_retries_with_the_inverted_differential() {
    // Without unrestricted motion vectors the range is 32 half-pel
    // units: 10 + 30 escapes it, so the inverted differential
    // 10 - 64 = -54 is used instead, landing at -24.
    let picture = DecodedPicture::new(sample_header(), SourceFormat::SubQcif, (128, 96));
    let decoded = halfpel_decode(
        &picture,
        PictureOption::empty(),
        HalfPel(30),
        HalfPel(10),
        true,
    );
    assert_eq!(decoded, HalfPel(-24));
    // A sum inside the range is kept as it is.
    let decoded = halfpel_decode(
        &picture,
        PictureOption::empty(),
        HalfPel(10),
        HalfPel(10),
        true,
    );
    assert_eq!(decoded, HalfPel(20));
}

#[test]
fn first_block_predicts_from_its_neighbours() {
    // With one decoded macroblock to the left holding (4, 6) in block 1,
    // the first block of the next macroblock on the top row takes that
    // vector as its only candidate.
    let left = [
        MotionVector(HalfPel(2), HalfPel(2)),
        MotionVector(HalfPel(4), HalfPel(6)),
        MotionVector(HalfPel(8), HalfPel(8)),
        MotionVector(HalfPel(9), HalfPel(9)),
    ];
    let current = [MotionVector(HalfPel(0), HalfPel(0)); 4];
    // On the top row both upper candidates fall back to the left one,
    // so the median is that vector itself.
    let predicted = predict_candidate(&vec![left], &current, 8, 0);
    assert_eq!(predicted, MotionVector(HalfPel(4), HalfPel(6)));
}
