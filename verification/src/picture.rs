//! Picture-layer decoding: `PTYPE`, `PLUSPTYPE` and all their follower
//! fields, the Sorenson Spark picture header, and the picture parser.

use crate::error::Error;
use crate::reader::{is_start_code_at, stream_value, H263Reader};
use crate::types::{
    BPictureQuantizer, BackchannelMessage, CustomPictureClock, CustomPictureFormat, DecoderOption,
    MotionVectorRange, Picture, PictureOption, PictureTypeCode, PixelAspectRatio,
    ReferencePictureResampling, ReferencePictureSelectionMode, ScalabilityLayer, SliceSubmode,
    SourceFormat, ADVANCED_INTRA_CODING, ADVANCED_PREDICTION, ALTERNATIVE_INTER_VLC,
    DEBLOCKING_FILTER, INDEPENDENT_SEGMENT_DECODING, MODIFIED_QUANTIZATION, OPPTYPE_OPTIONS,
    REDUCED_RESOLUTION_UPDATE, REFERENCE_PICTURE_RESAMPLING, REFERENCE_PICTURE_SELECTION,
    RELEASE_FULL_PICTURE_FREEZE, ROUNDING_TYPE_ONE, RPSM_REQUEST_ACKNOWLEDGEMENT,
    RPSM_REQUEST_NEGATIVE_ACKNOWLEDGEMENT, RPSM_RESERVED, SLICE_STRUCTURED,
    SORENSON_SPARK_BITSTREAM, SYNTAX_BASED_ARITHMETIC_CODING, UNRESTRICTED_MOTION_VECTORS,
    USE_DEBLOCKER, USE_DOCUMENT_CAMERA, USE_SCALABILITY_MODE, USE_SPLIT_SCREEN,
};
use vstd::prelude::*;

verus! {

// Which fields follow a `PLUSPTYPE` record, as bits of a follower set.
const FOLLOWER_CUSTOM_FORMAT: u8 = 0x1;

const FOLLOWER_CUSTOM_CLOCK: u8 = 0x2;

const FOLLOWER_MOTION_VECTOR_RANGE: u8 = 0x4;

const FOLLOWER_SLICE_STRUCTURED_SUBMODE: u8 = 0x8;

const FOLLOWER_REFERENCE_LAYER_NUMBER: u8 = 0x10;

const FOLLOWER_REFERENCE_PICTURE_SELECTION_MODE: u8 = 0x20;

/// Decode the eight fixed `PTYPE` bits and, unless a `PLUSPTYPE` follows,
/// the five variable ones.
///
/// A `None` second component signals that a `PLUSPTYPE` record
/// immediately follows in the bitstream.
fn decode_ptype(reader: &mut H263Reader) -> (r: Result<
    (PictureOption, Option<(SourceFormat, PictureTypeCode)>),
    Error,
>)
    requires
        old(reader).wf(),
    ensures
        final(reader).wf(),
        final(reader).bytes() == old(reader).bytes(),
        match r {
            Ok((options, rest)) => match rest {
                Some((format, ptype)) => format != SourceFormat::Reserved ==> (ptype
                    == PictureTypeCode::IFrame || ptype == PictureTypeCode::PFrame || ptype
                    == PictureTypeCode::PbFrame),
                None => true,
            },
            Err(_) => final(reader).pos() == old(reader).pos(),
        },
{
    let cp = reader.checkpoint();
    let r = decode_ptype_inner(reader);
    match r {
        Err(e) => {
            reader.restore(cp);
            Err(e)
        },
        Ok(v) => Ok(v),
    }
}

/// The body of `decode_ptype`, without the rollback on failure.
fn decode_ptype_inner(reader: &mut H263Reader) -> (r: Result<
    (PictureOption, Option<(SourceFormat, PictureTypeCode)>),
    Error,
>)
    requires
        old(reader).wf(),
    ensures
        final(reader).wf(),
        final(reader).bytes() == old(reader).bytes(),
        match r {
            Ok((options, rest)) => match rest {
                Some((format, ptype)) => format != SourceFormat::Reserved ==> (ptype
                    == PictureTypeCode::IFrame || ptype == PictureTypeCode::PFrame || ptype
                    == PictureTypeCode::PbFrame),
                None => true,
            },
            Err(_) => true,
        },
{
    let mut options = PictureOption::empty();
    let high_ptype_bits = match reader.read_u8() {
        Ok(v) => v,
        Err(e) => {
            return Err(e);
        },
    };
    if high_ptype_bits & 0xC0 != 0x80 {
        return Err(Error::InvalidBitstream);
    }
    if high_ptype_bits & 0x20 != 0 {
        options = options.with(USE_SPLIT_SCREEN);
    }
    if high_ptype_bits & 0x10 != 0 {
        options = options.with(USE_DOCUMENT_CAMERA);
    }
    if high_ptype_bits & 0x08 != 0 {
        options = options.with(RELEASE_FULL_PICTURE_FREEZE);
    }
    let format_bits = high_ptype_bits & 0x07;
    let source_format = if format_bits == 0 {
        return Err(Error::InvalidBitstream);
    } else if format_bits == 1 {
        SourceFormat::SubQcif
    } else if format_bits == 2 {
        SourceFormat::QuarterCif
    } else if format_bits == 3 {
        SourceFormat::FullCif
    } else if format_bits == 4 {
        SourceFormat::FourCif
    } else if format_bits == 5 {
        SourceFormat::SixteenCif
    } else if format_bits == 6 {
        SourceFormat::Reserved
    } else {
        return Ok((options, None));
    };
    let low_ptype_bits = match reader.read_bits(5) {
        Ok(v) => v,
        Err(e) => {
            return Err(e);
        },
    };
    let mut ptype = if low_ptype_bits & 0x10 != 0 {
        PictureTypeCode::IFrame
    } else {
        PictureTypeCode::PFrame
    };
    if low_ptype_bits & 0x08 != 0 {
        options = options.with(UNRESTRICTED_MOTION_VECTORS);
    }
    if low_ptype_bits & 0x04 != 0 {
        options = options.with(SYNTAX_BASED_ARITHMETIC_CODING);
    }
    if low_ptype_bits & 0x02 != 0 {
        options = options.with(ADVANCED_PREDICTION);
    }
    if low_ptype_bits & 0x01 != 0 {
        ptype = PictureTypeCode::PbFrame;
    }
    Ok((options, Some((source_format, ptype))))
}

/// Decode a `PLUSPTYPE` record: the `UFEP` field, the `OPPTYPE` options
/// where present, and the mandatory `MPPTYPE`.
///
/// The previous picture's options carry forward into the result whenever
/// the record holds no `OPPTYPE`. The returned follower set names the
/// fields that the record announces. The final flag says whether an
/// `OPPTYPE` was present.
fn decode_plusptype(
    reader: &mut H263Reader,
    decoder_options: DecoderOption,
    previous_picture_options: PictureOption,
) -> (r: Result<(PictureOption, Option<SourceFormat>, PictureTypeCode, u8, bool), Error>)
    requires
        old(reader).wf(),
    ensures
        final(reader).wf(),
        final(reader).bytes() == old(reader).bytes(),
        r is Err ==> final(reader).pos() == old(reader).pos(),
        r matches Ok((options, _, _, _, has_opptype)) ==> (has_opptype || options.bits
            & OPPTYPE_OPTIONS == previous_picture_options.bits & OPPTYPE_OPTIONS),
        // A `PLUSPTYPE` whose `UFEP` bits are zero and whose `MPPTYPE`
        // ends in the bits 001 parses, with no `OPPTYPE` present.
        (old(reader).pos() + 12 <= old(reader).total_bits() && stream_value(
            old(reader).bytes(),
            old(reader).pos() as int,
            3,
        ) == 0 && stream_value(old(reader).bytes(), old(reader).pos() as int + 3, 9) % 8 == 1)
            ==> (r matches Ok((_, _, _, _, has_opptype)) && !has_opptype && final(reader).pos()
            == old(reader).pos() + 12),
{
    let cp = reader.checkpoint();
    let r = decode_plusptype_inner(reader, decoder_options, previous_picture_options);
    match r {
        Err(e) => {
            reader.restore(cp);
            Err(e)
        },
        Ok(v) => Ok(v),
    }
}

/// The body of `decode_plusptype`, without the rollback on failure.
fn decode_plusptype_inner(
    reader: &mut H263Reader,
    decoder_options: DecoderOption,
    previous_picture_options: PictureOption,
) -> (r: Result<(PictureOption, Option<SourceFormat>, PictureTypeCode, u8, bool), Error>)
    requires
        old(reader).wf(),
    ensures
        final(reader).wf(),
        final(reader).bytes() == old(reader).bytes(),
        r matches Ok((options, _, _, _, has_opptype)) ==> (has_opptype || options.bits
            & OPPTYPE_OPTIONS == previous_picture_options.bits & OPPTYPE_OPTIONS),
        // A `PLUSPTYPE` whose `UFEP` bits are zero and whose `MPPTYPE`
        // ends in the bits 001 parses, with no `OPPTYPE` present.
        (old(reader).pos() + 12 <= old(reader).total_bits() && stream_value(
            old(reader).bytes(),
            old(reader).pos() as int,
            3,
        ) == 0 && stream_value(old(reader).bytes(), old(reader).pos() as int + 3, 9) % 8 == 1)
            ==> (r matches Ok((_, _, _, _, has_opptype)) && !has_opptype && final(reader).pos()
            == old(reader).pos() + 12),
{
    let ghost bytes0 = old(reader).bytes();
    let ghost pos0 = old(reader).pos() as int;
    let ufep = match reader.read_bits(3) {
        Ok(v) => v,
        Err(e) => {
            return Err(e);
        },
    };
    let has_opptype = if ufep == 0 {
        false
    } else if ufep == 1 {
        true
    } else {
        return Err(Error::InvalidBitstream);
    };
    let mut options = PictureOption::empty();
    let mut followers: u8 = 0;
    let mut source_format: Option<SourceFormat> = None;
    if has_opptype {
        let opptype = match reader.read_bits(18) {
            Ok(v) => v,
            Err(e) => {
                return Err(e);
            },
        };
        // OPPTYPE must end in the bits 1000 as per H.263 5.1.4.2.
        if (opptype & 0xF) != 0x8 {
            return Err(Error::InvalidBitstream);
        }
        let format_bits = (opptype & 0x38000) >> 15u32;
        source_format = if format_bits == 0 {
            Some(SourceFormat::Reserved)
        } else if format_bits == 1 {
            Some(SourceFormat::SubQcif)
        } else if format_bits == 2 {
            Some(SourceFormat::QuarterCif)
        } else if format_bits == 3 {
            Some(SourceFormat::FullCif)
        } else if format_bits == 4 {
            Some(SourceFormat::FourCif)
        } else if format_bits == 5 {
            Some(SourceFormat::SixteenCif)
        } else if format_bits == 6 {
            followers = followers | FOLLOWER_CUSTOM_FORMAT;
            None
        } else {
            Some(SourceFormat::Reserved)
        };
        if opptype & 0x04000 != 0 {
            followers = followers | FOLLOWER_CUSTOM_CLOCK;
        }
        if opptype & 0x02000 != 0 {
            options = options.with(UNRESTRICTED_MOTION_VECTORS);
            followers = followers | FOLLOWER_MOTION_VECTOR_RANGE;
        }
        if opptype & 0x01000 != 0 {
            options = options.with(SYNTAX_BASED_ARITHMETIC_CODING);
        }
        if opptype & 0x00800 != 0 {
            options = options.with(ADVANCED_PREDICTION);
        }
        if opptype & 0x00400 != 0 {
            options = options.with(ADVANCED_INTRA_CODING);
        }
        if opptype & 0x00200 != 0 {
            options = options.with(DEBLOCKING_FILTER);
        }
        if opptype & 0x00100 != 0 {
            options = options.with(SLICE_STRUCTURED);
            followers = followers | FOLLOWER_SLICE_STRUCTURED_SUBMODE;
        }
        if opptype & 0x00080 != 0 {
            options = options.with(REFERENCE_PICTURE_SELECTION);
            followers = followers | FOLLOWER_REFERENCE_PICTURE_SELECTION_MODE;
        }
        if opptype & 0x00040 != 0 {
            options = options.with(INDEPENDENT_SEGMENT_DECODING);
        }
        if opptype & 0x00020 != 0 {
            options = options.with(ALTERNATIVE_INTER_VLC);
        }
        if opptype & 0x00010 != 0 {
            options = options.with(MODIFIED_QUANTIZATION);
        }
        if decoder_options.contains(USE_SCALABILITY_MODE) {
            followers = followers | FOLLOWER_REFERENCE_LAYER_NUMBER;
        }
    } else {
        options = PictureOption::from_bits(previous_picture_options.bits & OPPTYPE_OPTIONS);
    }
    let mpptype = match reader.read_bits(9) {
        Ok(v) => v,
        Err(e) => {
            return Err(e);
        },
    };
    proof {
        let m = mpptype;
        assert(m & 0x007 == m % 8) by (bit_vector);
    }
    // MPPTYPE must end in the bits 001 as per H.263 5.1.4.3.
    if mpptype & 0x007 != 0x1 {
        return Err(Error::InvalidBitstream);
    }
    let type_bits = (mpptype & 0x1C0) >> 6u32;
    let picture_type = if type_bits == 0 {
        PictureTypeCode::IFrame
    } else if type_bits == 1 {
        PictureTypeCode::PFrame
    } else if type_bits == 2 {
        PictureTypeCode::ImprovedPbFrame
    } else if type_bits == 3 {
        PictureTypeCode::BFrame
    } else if type_bits == 4 {
        PictureTypeCode::EiFrame
    } else if type_bits == 5 {
        PictureTypeCode::EpFrame
    } else {
        proof {
            crate::reader::lemma_stream_value_bound(
                reader.bytes(),
                reader.pos() as int - 9,
                9,
            );
        }
        PictureTypeCode::Reserved((type_bits & 0x7) as u8)
    };
    let mpp1: u32 = if mpptype & 0x020 != 0 {
        REFERENCE_PICTURE_RESAMPLING
    } else {
        0
    };
    let mpp2: u32 = if mpptype & 0x010 != 0 {
        REDUCED_RESOLUTION_UPDATE
    } else {
        0
    };
    let mpp3: u32 = if mpptype & 0x008 != 0 {
        ROUNDING_TYPE_ONE
    } else {
        0
    };
    options = options.with(mpp1).with(mpp2).with(mpp3);
    proof {
        if !has_opptype {
            // Only the three MPPTYPE bits were added to the carried-over
            // options, and they lie outside the OPPTYPE mask.
            let p = previous_picture_options.bits;
            let o = options.bits;
            assert(o & OPPTYPE_OPTIONS == p & OPPTYPE_OPTIONS) by (bit_vector)
                requires
                    o == (((p & OPPTYPE_OPTIONS) | mpp1) | mpp2) | mpp3 && (mpp1 == 0 || mpp1
                        == 0x2000u32) && (mpp2 == 0 || mpp2 == 0x4000u32) && (mpp3 == 0 || mpp3
                        == 0x8000u32),
            ;
        }
    }
    Ok((options, source_format, picture_type, followers, has_opptype))
}

/// The source format a fixed Sorenson selector names: selectors 2 to 4
/// are the CIF family, 5 and 6 the two fixed custom sizes, 7 reserved.
pub open spec fn sorenson_fixed_format(sel: nat) -> SourceFormat {
    if sel == 2 {
        SourceFormat::FullCif
    } else if sel == 3 {
        SourceFormat::QuarterCif
    } else if sel == 4 {
        SourceFormat::SubQcif
    } else if sel == 5 {
        SourceFormat::Extended(
            CustomPictureFormat {
                pixel_aspect_ratio: PixelAspectRatio::Square,
                picture_width_indication: 320,
                picture_height_indication: 240,
            },
        )
    } else if sel == 6 {
        SourceFormat::Extended(
            CustomPictureFormat {
                pixel_aspect_ratio: PixelAspectRatio::Square,
                picture_width_indication: 160,
                picture_height_indication: 120,
            },
        )
    } else {
        SourceFormat::Reserved
    }
}

/// The picture type the two Sorenson type bits name.
pub open spec fn sorenson_type_of(t: nat) -> PictureTypeCode {
    if t == 0 {
        PictureTypeCode::IFrame
    } else if t == 1 {
        PictureTypeCode::PFrame
    } else if t == 2 {
        PictureTypeCode::DisposablePFrame
    } else {
        PictureTypeCode::Reserved(3)
    }
}

/// What the Sorenson `PTYPE` record at `pos` decodes to — the source
/// format, the picture type, and the bit position past the record — or
/// nothing when the buffered bits end inside it. The custom selectors 0
/// and 1 carry explicit dimensions in two following 8- or 16-bit fields.
pub open spec fn sorenson_ptype_at(bytes: Seq<u8>, pos: int) -> Option<
    (SourceFormat, PictureTypeCode, int),
> {
    if pos + 3 > bytes.len() * 8 {
        None
    } else {
        let sel = stream_value(bytes, pos, 3);
        if sel == 0 {
            if pos + 21 <= bytes.len() * 8 {
                Some(
                    (
                        SourceFormat::Extended(
                            CustomPictureFormat {
                                pixel_aspect_ratio: PixelAspectRatio::Square,
                                picture_width_indication: stream_value(bytes, pos + 3, 8) as u16,
                                picture_height_indication: stream_value(bytes, pos + 11, 8) as u16,
                            },
                        ),
                        sorenson_type_of(stream_value(bytes, pos + 19, 2)),
                        pos + 21,
                    ),
                )
            } else {
                None
            }
        } else if sel == 1 {
            if pos + 37 <= bytes.len() * 8 {
                Some(
                    (
                        SourceFormat::Extended(
                            CustomPictureFormat {
                                pixel_aspect_ratio: PixelAspectRatio::Square,
                                picture_width_indication: stream_value(bytes, pos + 3, 16) as u16,
                                picture_height_indication: stream_value(
                                    bytes,
                                    pos + 19,
                                    16,
                                ) as u16,
                            },
                        ),
                        sorenson_type_of(stream_value(bytes, pos + 35, 2)),
                        pos + 37,
                    ),
                )
            } else {
                None
            }
        } else {
            if pos + 5 <= bytes.len() * 8 {
                Some(
                    (
                        sorenson_fixed_format(sel),
                        sorenson_type_of(stream_value(bytes, pos + 3, 2)),
                        pos + 5,
                    ),
                )
            } else {
                None
            }
        }
    }
}

/// What the whole Sorenson Spark picture header at `pos` decodes to —
/// the temporal reference, source format, picture type, quantizer, the
/// extra-information bytes, and the bit position past the header — or
/// nothing when the buffered bits end inside it.
pub open spec fn sorenson_header_at(bytes: Seq<u8>, pos: int) -> Option<
    (nat, SourceFormat, PictureTypeCode, nat, Seq<u8>, int),
> {
    if pos + 8 > bytes.len() * 8 {
        None
    } else {
        match sorenson_ptype_at(bytes, pos + 8) {
            None => None,
            Some((sf, pt, p1)) => if p1 + 5 > bytes.len() * 8 {
                None
            } else {
                match pei_chain(bytes, p1 + 5) {
                    None => None,
                    Some((extra, end)) => Some(
                        (
                            stream_value(bytes, pos, 8),
                            sf,
                            pt,
                            stream_value(bytes, p1, 5),
                            extra,
                            end,
                        ),
                    ),
                }
            },
        }
    }
}

/// Decode the Sorenson Spark equivalent of `PTYPE`: a three-bit source
/// format (two shapes of which carry explicit dimensions), a two-bit
/// picture type, and the advisory deblocker request.
fn decode_sorenson_ptype(reader: &mut H263Reader) -> (r: Result<
    (SourceFormat, PictureTypeCode, PictureOption),
    Error,
>)
    requires
        old(reader).wf(),
    ensures
        final(reader).wf(),
        final(reader).bytes() == old(reader).bytes(),
        match r {
            Ok((format, ptype, options)) => (ptype == PictureTypeCode::IFrame || ptype
                == PictureTypeCode::PFrame || ptype == PictureTypeCode::DisposablePFrame || ptype
                matches PictureTypeCode::Reserved(_)) && options.bits == USE_DEBLOCKER,
            Err(_) => final(reader).pos() == old(reader).pos(),
        },
        // The record decodes exactly per `sorenson_ptype_at`: success
        // with the named format, type and end position whenever the bits
        // suffice, the end of the stream otherwise.
        match sorenson_ptype_at(old(reader).bytes(), old(reader).pos() as int) {
            Some((sf, st, send)) => r matches Ok((format, ptype, _)) && format == sf && ptype
                == st && final(reader).pos() == send,
            None => r == Result::<(SourceFormat, PictureTypeCode, PictureOption), Error>::Err(
                Error::EndOfStream,
            ),
        },
{
    let cp = reader.checkpoint();
    let r = decode_sorenson_ptype_inner(reader);
    match r {
        Err(e) => {
            reader.restore(cp);
            Err(e)
        },
        Ok(v) => Ok(v),
    }
}

/// The body of `decode_sorenson_ptype`, without the rollback on failure.
fn decode_sorenson_ptype_inner(reader: &mut H263Reader) -> (r: Result<
    (SourceFormat, PictureTypeCode, PictureOption),
    Error,
>)
    requires
        old(reader).wf(),
    ensures
        final(reader).wf(),
        final(reader).bytes() == old(reader).bytes(),
        match r {
            Ok((format, ptype, options)) => (ptype == PictureTypeCode::IFrame || ptype
                == PictureTypeCode::PFrame || ptype == PictureTypeCode::DisposablePFrame || ptype
                matches PictureTypeCode::Reserved(_)) && options.bits == USE_DEBLOCKER,
            Err(_) => true,
        },
        // The record decodes exactly per `sorenson_ptype_at`: success
        // with the named format, type and end position whenever the bits
        // suffice, the end of the stream otherwise.
        match sorenson_ptype_at(old(reader).bytes(), old(reader).pos() as int) {
            Some((sf, st, send)) => r matches Ok((format, ptype, _)) && format == sf && ptype
                == st && final(reader).pos() == send,
            None => r == Result::<(SourceFormat, PictureTypeCode, PictureOption), Error>::Err(
                Error::EndOfStream,
            ),
        },
{
    let format_bits = match reader.read_bits(3) {
        Ok(v) => v,
        Err(e) => {
            return Err(e);
        },
    };
    let (mut source_format, bit_count): (Option<SourceFormat>, u32) = if format_bits == 0 {
        (None, 8)
    } else if format_bits == 1 {
        (None, 16)
    } else if format_bits == 2 {
        (Some(SourceFormat::FullCif), 0)
    } else if format_bits == 3 {
        (Some(SourceFormat::QuarterCif), 0)
    } else if format_bits == 4 {
        (Some(SourceFormat::SubQcif), 0)
    } else if format_bits == 5 {
        (
            Some(
                SourceFormat::Extended(
                    CustomPictureFormat {
                        pixel_aspect_ratio: PixelAspectRatio::Square,
                        picture_width_indication: 320,
                        picture_height_indication: 240,
                    },
                ),
            ),
            0,
        )
    } else if format_bits == 6 {
        (
            Some(
                SourceFormat::Extended(
                    CustomPictureFormat {
                        pixel_aspect_ratio: PixelAspectRatio::Square,
                        picture_width_indication: 160,
                        picture_height_indication: 120,
                    },
                ),
            ),
            0,
        )
    } else {
        (Some(SourceFormat::Reserved), 0)
    };
    if source_format.is_none() {
        let custom_width = match reader.read_bits(bit_count) {
            Ok(v) => v,
            Err(e) => {
                return Err(e);
            },
        };
        let custom_height = match reader.read_bits(bit_count) {
            Ok(v) => v,
            Err(e) => {
                return Err(e);
            },
        };
        proof {
            crate::reader::lemma_stream_value_bound(
                reader.bytes(),
                reader.pos() as int - 2 * bit_count,
                bit_count as nat,
            );
            crate::reader::lemma_stream_value_bound(
                reader.bytes(),
                reader.pos() as int - bit_count,
                bit_count as nat,
            );
            vstd::arithmetic::power2::lemma2_to64();
        }
        source_format = Some(
            SourceFormat::Extended(
                CustomPictureFormat {
                    pixel_aspect_ratio: PixelAspectRatio::Square,
                    picture_width_indication: custom_width as u16,
                    picture_height_indication: custom_height as u16,
                },
            ),
        );
    }
    let type_bits = match reader.read_bits(2) {
        Ok(v) => v,
        Err(e) => {
            return Err(e);
        },
    };
    let picture_type = if type_bits == 0 {
        PictureTypeCode::IFrame
    } else if type_bits == 1 {
        PictureTypeCode::PFrame
    } else if type_bits == 2 {
        PictureTypeCode::DisposablePFrame
    } else {
        PictureTypeCode::Reserved(3)
    };
    let options = PictureOption::from_bits(USE_DEBLOCKER);
    let format = match source_format {
        Some(f) => f,
        None => {
            return Err(Error::InternalDecoderError);
        },
    };
    Ok((format, picture_type, options))
}

/// Decode a `CPM` bit and, when set, the two `PSBI` sub-bitstream bits.
fn decode_cpm_and_psbi(reader: &mut H263Reader) -> (r: Result<Option<u8>, Error>)
    requires
        old(reader).wf(),
    ensures
        final(reader).wf(),
        final(reader).bytes() == old(reader).bytes(),
        match r {
            Ok(Some(v)) => v < 4,
            Ok(None) => true,
            Err(_) => final(reader).pos() == old(reader).pos(),
        },
{
    let cp = reader.checkpoint();
    let cpm = match reader.read_bits(1) {
        Ok(v) => v,
        Err(e) => {
            return Err(e);
        },
    };
    if cpm != 0 {
        let psbi = match reader.read_bits(2) {
            Ok(v) => v,
            Err(e) => {
                reader.restore(cp);
                return Err(e);
            },
        };
        proof {
            crate::reader::lemma_stream_value_bound(
                reader.bytes(),
                reader.pos() as int - 2,
                2,
            );
            vstd::arithmetic::power2::lemma2_to64();
        }
        Ok(Some(psbi as u8))
    } else {
        Ok(None)
    }
}

/// Decode a 23-bit `CPFMT` custom picture format, including the extended
/// pixel aspect ratio bytes where signalled.
fn decode_cpfmt(reader: &mut H263Reader) -> (r: Result<CustomPictureFormat, Error>)
    requires
        old(reader).wf(),
    ensures
        final(reader).wf(),
        final(reader).bytes() == old(reader).bytes(),
        match r {
            Ok(cpf) => 4 <= cpf.picture_width_indication <= 2048 && cpf.picture_width_indication
                % 4 == 0 && cpf.picture_height_indication <= 1020 && cpf.picture_height_indication
                % 4 == 0,
            Err(_) => final(reader).pos() == old(reader).pos(),
        },
{
    let cp = reader.checkpoint();
    let r = decode_cpfmt_inner(reader);
    match r {
        Err(e) => {
            reader.restore(cp);
            Err(e)
        },
        Ok(v) => Ok(v),
    }
}

/// The body of `decode_cpfmt`, without the rollback on failure.
fn decode_cpfmt_inner(reader: &mut H263Reader) -> (r: Result<CustomPictureFormat, Error>)
    requires
        old(reader).wf(),
    ensures
        final(reader).wf(),
        final(reader).bytes() == old(reader).bytes(),
        match r {
            Ok(cpf) => 4 <= cpf.picture_width_indication <= 2048 && cpf.picture_width_indication
                % 4 == 0 && cpf.picture_height_indication <= 1020 && cpf.picture_height_indication
                % 4 == 0,
            Err(_) => true,
        },
{
    let cpfmt = match reader.read_bits(23) {
        Ok(v) => v,
        Err(e) => {
            return Err(e);
        },
    };
    if cpfmt & 0x000200 == 0 {
        return Err(Error::InvalidBitstream);
    }
    let par_bits = (cpfmt & 0x780000) >> 19u32;
    let pixel_aspect_ratio = if par_bits == 0 {
        return Err(Error::InvalidBitstream);
    } else if par_bits == 1 {
        PixelAspectRatio::Square
    } else if par_bits == 2 {
        PixelAspectRatio::Par12_11
    } else if par_bits == 3 {
        PixelAspectRatio::Par10_11
    } else if par_bits == 4 {
        PixelAspectRatio::Par16_11
    } else if par_bits == 5 {
        PixelAspectRatio::Par40_33
    } else if par_bits == 15 {
        let par_width = match reader.read_u8() {
            Ok(v) => v,
            Err(e) => {
                return Err(e);
            },
        };
        let par_height = match reader.read_u8() {
            Ok(v) => v,
            Err(e) => {
                return Err(e);
            },
        };
        if par_width == 0 || par_height == 0 {
            return Err(Error::InvalidBitstream);
        }
        PixelAspectRatio::Extended { par_width: par_width as u8, par_height: par_height as u8 }
    } else {
        proof {
            assert(((cpfmt & 0x780000) >> 19u32) < 16) by (bit_vector);
        }
        PixelAspectRatio::Reserved(par_bits as u8)
    };
    proof {
        assert(((cpfmt & 0x07FC00) >> 10u32) < 512 && (cpfmt & 0x0000FF) < 256) by (bit_vector);
    }
    let picture_width_indication = ((((cpfmt & 0x07FC00) >> 10u32) as u16) + 1) * 4;
    let picture_height_indication = ((cpfmt & 0x0000FF) as u16) * 4;
    Ok(
        CustomPictureFormat {
            pixel_aspect_ratio,
            picture_width_indication,
            picture_height_indication,
        },
    )
}

/// Decode an eight-bit `CPCFC` custom picture clock: the 1001-versus-1000
/// flag and the seven-bit clock divisor.
fn decode_cpcfc(reader: &mut H263Reader) -> (r: Result<CustomPictureClock, Error>)
    requires
        old(reader).wf(),
    ensures
        final(reader).wf(),
        final(reader).bytes() == old(reader).bytes(),
        match r {
            Ok(clock) => clock.divisor < 128,
            Err(_) => final(reader).pos() == old(reader).pos(),
        },
{
    let cpcfc = match reader.read_u8() {
        Ok(v) => v,
        Err(e) => {
            return Err(e);
        },
    };
    let b = cpcfc as u8;
    proof {
        assert(b & 0x7F < 128) by (bit_vector);
    }
    Ok(CustomPictureClock { times_1001: b & 0x80 != 0, divisor: b & 0x7F })
}

/// Decode the `UUI` motion vector range indication: a single one bit means
/// the standard range, the bits `01` the unlimited range, and anything
/// else is invalid.
fn decode_uui(reader: &mut H263Reader) -> (r: Result<MotionVectorRange, Error>)
    requires
        old(reader).wf(),
    ensures
        final(reader).wf(),
        final(reader).bytes() == old(reader).bytes(),
        match r {
            Ok(range) => range == MotionVectorRange::Standard || range
                == MotionVectorRange::Unlimited,
            Err(_) => final(reader).pos() == old(reader).pos(),
        },
{
    let cp = reader.checkpoint();
    let is_limited = match reader.read_bits(1) {
        Ok(v) => v,
        Err(e) => {
            return Err(e);
        },
    };
    if is_limited == 1 {
        return Ok(MotionVectorRange::Standard);
    }
    let is_unlimited = match reader.read_bits(1) {
        Ok(v) => v,
        Err(e) => {
            reader.restore(cp);
            return Err(e);
        },
    };
    if is_unlimited == 1 {
        return Ok(MotionVectorRange::Unlimited);
    }
    reader.restore(cp);
    Err(Error::InvalidBitstream)
}

/// Decode the two `SSS` slice-structured submode bits.
fn decode_sss(reader: &mut H263Reader) -> (r: Result<SliceSubmode, Error>)
    requires
        old(reader).wf(),
    ensures
        final(reader).wf(),
        final(reader).bytes() == old(reader).bytes(),
        match r {
            Ok(sss) => sss.bits < 4,
            Err(_) => final(reader).pos() == old(reader).pos(),
        },
{
    let sss_bits = match reader.read_bits(2) {
        Ok(v) => v,
        Err(e) => {
            return Err(e);
        },
    };
    proof {
        crate::reader::lemma_stream_value_bound(reader.bytes(), reader.pos() as int - 2, 2);
        vstd::arithmetic::power2::lemma2_to64();
    }
    Ok(SliceSubmode { bits: sss_bits as u8 })
}

/// Decode the `ELNUM` enhancement layer number and, where announced, the
/// `RLNUM` reference layer number.
fn decode_elnum_rlnum(reader: &mut H263Reader, followers: u8) -> (r: Result<
    ScalabilityLayer,
    Error,
>)
    requires
        old(reader).wf(),
    ensures
        final(reader).wf(),
        final(reader).bytes() == old(reader).bytes(),
        match r {
            Ok(layer) => layer.enhancement < 16 && (layer.reference matches Some(v) ==> v < 16),
            Err(_) => final(reader).pos() == old(reader).pos(),
        },
{
    let cp = reader.checkpoint();
    let enhancement = match reader.read_bits(4) {
        Ok(v) => v,
        Err(e) => {
            return Err(e);
        },
    };
    proof {
        crate::reader::lemma_stream_value_bound(reader.bytes(), reader.pos() as int - 4, 4);
        vstd::arithmetic::power2::lemma2_to64();
    }
    let reference = if followers & FOLLOWER_REFERENCE_LAYER_NUMBER != 0 {
        let v = match reader.read_bits(4) {
            Ok(v) => v,
            Err(e) => {
                reader.restore(cp);
                return Err(e);
            },
        };
        proof {
            crate::reader::lemma_stream_value_bound(
                reader.bytes(),
                reader.pos() as int - 4,
                4,
            );
            vstd::arithmetic::power2::lemma2_to64();
        }
        Some(v as u8)
    } else {
        None
    };
    Ok(ScalabilityLayer { enhancement: enhancement as u8, reference })
}

/// Decode the three `RPSMF` reference-picture-selection mode bits.
fn decode_rpsmf(reader: &mut H263Reader) -> (r: Result<ReferencePictureSelectionMode, Error>)
    requires
        old(reader).wf(),
    ensures
        final(reader).wf(),
        final(reader).bytes() == old(reader).bytes(),
        r is Err ==> final(reader).pos() == old(reader).pos(),
{
    let rpsmf_bits = match reader.read_bits(3) {
        Ok(v) => v,
        Err(e) => {
            return Err(e);
        },
    };
    let mut rpsmf: u8 = 0;
    if rpsmf_bits & 0x4 == 0 {
        rpsmf = rpsmf | RPSM_RESERVED;
    }
    if rpsmf_bits & 0x2 != 0 {
        rpsmf = rpsmf | RPSM_REQUEST_NEGATIVE_ACKNOWLEDGEMENT;
    }
    if rpsmf_bits & 0x1 != 0 {
        rpsmf = rpsmf | RPSM_REQUEST_ACKNOWLEDGEMENT;
    }
    Ok(ReferencePictureSelectionMode { bits: rpsmf })
}

/// Decode a `TRPI` flag and, when set, the ten-bit `TRP` temporal
/// reference for prediction.
fn decode_trpi(reader: &mut H263Reader) -> (r: Result<Option<u16>, Error>)
    requires
        old(reader).wf(),
    ensures
        final(reader).wf(),
        final(reader).bytes() == old(reader).bytes(),
        match r {
            Ok(Some(trp)) => trp < 1024,
            Ok(None) => true,
            Err(_) => final(reader).pos() == old(reader).pos(),
        },
{
    let cp = reader.checkpoint();
    let trpi = match reader.read_bits(1) {
        Ok(v) => v,
        Err(e) => {
            return Err(e);
        },
    };
    if trpi == 1 {
        let trp = match reader.read_bits(10) {
            Ok(v) => v,
            Err(e) => {
                reader.restore(cp);
                return Err(e);
            },
        };
        proof {
            crate::reader::lemma_stream_value_bound(
                reader.bytes(),
                reader.pos() as int - 10,
                10,
            );
            vstd::arithmetic::power2::lemma2_to64();
        }
        Ok(Some(trp as u16))
    } else {
        Ok(None)
    }
}

/// Decode a `BCI` backchannel indication. The only implemented shape is
/// the `01` code meaning that no backchannel message follows; a set `BCI`
/// bit is an unimplemented feature.
fn decode_bcm(reader: &mut H263Reader) -> (r: Result<Option<BackchannelMessage>, Error>)
    requires
        old(reader).wf(),
    ensures
        final(reader).wf(),
        final(reader).bytes() == old(reader).bytes(),
        match r {
            Ok(m) => m is None,
            Err(_) => final(reader).pos() == old(reader).pos(),
        },
{
    let cp = reader.checkpoint();
    let bci = match reader.read_bits(1) {
        Ok(v) => v,
        Err(e) => {
            return Err(e);
        },
    };
    if bci == 1 {
        reader.restore(cp);
        return Err(Error::UnimplementedDecoding);
    }
    let not_bci = match reader.read_bits(1) {
        Ok(v) => v,
        Err(e) => {
            reader.restore(cp);
            return Err(e);
        },
    };
    if not_bci == 1 {
        Ok(None)
    } else {
        // BCI must be `1` or `01`.
        reader.restore(cp);
        Err(Error::InvalidBitstream)
    }
}

/// Decode an `RPRP` reference-picture-resampling payload. Resampling is
/// not implemented, so any picture that requires one fails to decode.
fn decode_rprp(reader: &mut H263Reader) -> (r: Result<Option<ReferencePictureResampling>, Error>)
    requires
        old(reader).wf(),
    ensures
        final(reader).wf(),
        final(reader).bytes() == old(reader).bytes(),
        final(reader).pos() == old(reader).pos(),
        r is Err,
{
    Err(Error::UnimplementedDecoding)
}

/// Decode a `TRB` PB-frame reference count: five bits under a custom
/// picture clock, three otherwise.
fn decode_trb(reader: &mut H263Reader, has_custom_pclk: bool) -> (r: Result<u8, Error>)
    requires
        old(reader).wf(),
    ensures
        final(reader).wf(),
        final(reader).bytes() == old(reader).bytes(),
        match r {
            Ok(v) => v < 32,
            Err(_) => final(reader).pos() == old(reader).pos(),
        },
{
    let bits: u32 = if has_custom_pclk {
        5
    } else {
        3
    };
    let v = match reader.read_bits(bits) {
        Ok(v) => v,
        Err(e) => {
            return Err(e);
        },
    };
    proof {
        crate::reader::lemma_stream_value_bound(
            reader.bytes(),
            reader.pos() as int - bits as int,
            bits as nat,
        );
        vstd::arithmetic::power2::lemma2_to64();
    }
    Ok(v as u8)
}

/// Decode the two `DBQUANT` bits selecting the B-picture quantizer
/// fraction.
fn decode_dbquant(reader: &mut H263Reader) -> (r: Result<BPictureQuantizer, Error>)
    requires
        old(reader).wf(),
    ensures
        final(reader).wf(),
        final(reader).bytes() == old(reader).bytes(),
        r is Err ==> final(reader).pos() == old(reader).pos(),
{
    let v = match reader.read_bits(2) {
        Ok(v) => v,
        Err(e) => {
            return Err(e);
        },
    };
    proof {
        crate::reader::lemma_stream_value_bound(reader.bytes(), reader.pos() as int - 2, 2);
        vstd::arithmetic::power2::lemma2_to64();
    }
    if v == 0 {
        Ok(BPictureQuantizer::FiveFourths)
    } else if v == 1 {
        Ok(BPictureQuantizer::SixFourths)
    } else if v == 2 {
        Ok(BPictureQuantizer::SevenFourths)
    } else {
        Ok(BPictureQuantizer::EightFourths)
    }
}

/// The `PEI` extension chain at `pos` with the given fuel: the gathered
/// `PSUPP` bytes and the bit position past the chain, or nothing when
/// the buffered bits end inside it. The fuel only serves termination and
/// never runs out before the bits do.
pub open spec fn pei_chain_at(bytes: Seq<u8>, pos: int, fuel: nat) -> Option<(Seq<u8>, int)>
    decreases fuel,
{
    if pos + 1 > bytes.len() * 8 {
        None
    } else if !crate::reader::stream_bit(bytes, pos) {
        Some((Seq::empty(), pos + 1))
    } else if pos + 9 > bytes.len() * 8 {
        None
    } else if fuel == 0 {
        None
    } else {
        match pei_chain_at(bytes, pos + 9, (fuel - 1) as nat) {
            Some((rest, end)) => Some(
                (seq![(stream_value(bytes, pos + 1, 8) as u8)] + rest, end),
            ),
            None => None,
        }
    }
}

/// The `PEI` extension chain at `pos`: a byte of the chain takes nine
/// bits, so a fuel of the buffer's byte count always suffices.
pub open spec fn pei_chain(bytes: Seq<u8>, pos: int) -> Option<(Seq<u8>, int)> {
    pei_chain_at(bytes, pos, bytes.len())
}

/// Decode the `PEI` extension chain: each set `PEI` bit carries one more
/// `PSUPP` byte of extra information.
fn decode_pei(reader: &mut H263Reader) -> (r: Result<Vec<u8>, Error>)
    requires
        old(reader).wf(),
    ensures
        final(reader).wf(),
        final(reader).bytes() == old(reader).bytes(),
        match r {
            Ok(data) => pei_chain(old(reader).bytes(), old(reader).pos() as int) == Some(
                (data@, final(reader).pos() as int),
            ),
            Err(e) => e == Error::EndOfStream && pei_chain(
                old(reader).bytes(),
                old(reader).pos() as int,
            ) is None,
        },
{
    let ghost bytes = old(reader).bytes();
    let ghost pos0 = old(reader).pos() as int;
    let ghost total = old(reader).total_bits() as int;
    let mut data: Vec<u8> = Vec::new();
    let ghost fuel: nat = bytes.len();
    proof {
        assert(bytes.len() * 8 == total);
    }
    loop
        invariant_except_break
            pei_chain(bytes, pos0) == (match pei_chain_at(bytes, reader.pos() as int, fuel) {
                Some((rest, end)) => Some((data@ + rest, end)),
                None => None,
            }),
        invariant
            reader.wf(),
            reader.bytes() == bytes,
            bytes == old(reader).bytes(),
            pos0 == old(reader).pos() as int,
            total == bytes.len() * 8,
            pos0 <= reader.pos() <= total,
            9 * fuel >= total - reader.pos(),
        ensures
            reader.wf(),
            reader.bytes() == old(reader).bytes(),
            pei_chain(old(reader).bytes(), pos0) == Some((data@, reader.pos() as int)),
        decreases reader.total_bits() - reader.pos(),
    {
        let ghost pre = reader.pos() as int;
        let has_pei = match reader.read_bits(1) {
            Ok(v) => v,
            Err(e) => {
                return Err(e);
            },
        };
        proof {
            reveal_with_fuel(stream_value, 2);
        }
        if has_pei == 1 {
            let b = match reader.read_u8() {
                Ok(v) => v,
                Err(e) => {
                    return Err(e);
                },
            };
            proof {
                // A chain byte consumes nine bits, so the fuel cannot
                // have run out before the buffered bits did.
                assert(fuel > 0);
            }
            data.push(b as u8);
            proof {
                assert(data@ == data@.subrange(0, data@.len() - 1) + seq![b as u8]);
                let ghost_rest = pei_chain_at(bytes, reader.pos() as int, (fuel - 1) as nat);
                match ghost_rest {
                    Some((rest, end)) => {
                        assert((data@.subrange(0, data@.len() - 1) + (
                        seq![(stream_value(bytes, pre + 1, 8) as u8)] + rest)) =~= (data@ + rest));
                    },
                    None => {},
                }
                fuel = (fuel - 1) as nat;
            }
        } else {
            proof {
                assert(pei_chain_at(bytes, pre, fuel) == Some(
                    (Seq::<u8>::empty(), pre + 1),
                ));
                assert(data@ + Seq::<u8>::empty() =~= data@);
            }
            break ;
        }
    }
    Ok(data)
}

/// The invariants that hold of every successfully parsed Sorenson Spark
/// picture header: the deblocker advisory is the only option, the motion
/// vector range is unlimited, and no `PLUSPTYPE` machinery is involved.
pub open spec fn sorenson_picture_consistent(p: Picture) -> bool {
    &&& p.quantizer < 32
    &&& p.temporal_reference < 1024
    &&& p.version is Some
    &&& p.options.bits == USE_DEBLOCKER
    &&& p.motion_vector_range == Some(MotionVectorRange::Unlimited)
    &&& !p.has_plusptype
    &&& !p.has_opptype
}

/// The invariants that hold of every successfully parsed standard H.263
/// picture header: no version field, and PB fields exactly on PB-frames.
pub open spec fn standard_picture_consistent(p: Picture) -> bool {
    &&& p.quantizer < 32
    &&& p.temporal_reference < 1024
    &&& p.version is None
    &&& ((p.pb_reference is Some && p.pb_quantizer is Some) <==> (p.picture_type
        == PictureTypeCode::PbFrame || p.picture_type == PictureTypeCode::ImprovedPbFrame))
}

/// The invariants that hold of every successfully parsed picture header.
pub open spec fn decoded_picture_consistent(p: Picture, decoder_options: DecoderOption) -> bool {
    if decoder_options.bits & SORENSON_SPARK_BITSTREAM == SORENSON_SPARK_BITSTREAM {
        sorenson_picture_consistent(p)
    } else {
        standard_picture_consistent(p)
    }
}

/// Attempt to read a picture header from the bitstream.
///
/// If no valid start code lies at the current position this raises an
/// error. If the start code opens a group of blocks rather than a
/// picture, `None` is returned and the reader is left where it started,
/// signalling that the data should be parsed as a GOB.
///
/// `previous_picture` supplies the options carried forward from the last
/// decoded picture; pass `None` for the first picture of a bitstream. On
/// any error the reader is rolled back to where it started.
pub fn decode_picture(
    reader: &mut H263Reader,
    decoder_options: DecoderOption,
    previous_picture: Option<&Picture>,
) -> (r: Result<Option<Picture>, Error>)
    requires
        old(reader).wf(),
    ensures
        final(reader).wf(),
        final(reader).bytes() == old(reader).bytes(),
        match r {
            Ok(Some(p)) => decoded_picture_consistent(p, decoder_options),
            Ok(None) => final(reader).pos() == old(reader).pos(),
            Err(_) => final(reader).pos() == old(reader).pos(),
        },
        // A start code that opens a group of blocks is not a picture:
        // outside Sorenson mode, a first start code inside the stuffing
        // window followed by readable, nonzero group-number bits yields
        // `None`.
        (decoder_options.bits & SORENSON_SPARK_BITSTREAM != SORENSON_SPARK_BITSTREAM) ==> (forall|
            q: int,
        |
            (old(reader).pos() <= q <= old(reader).pos() + (8 - old(reader).pos() % 8) % 8 && (
            #[trigger] is_start_code_at(old(reader).bytes(), q)) && (forall|p: int|
                old(reader).pos() <= p < q ==> !(#[trigger] is_start_code_at(
                    old(reader).bytes(),
                    p,
                ))) && q + 22 <= old(reader).total_bits() && stream_value(
                old(reader).bytes(),
                q + 17,
                5,
            ) != 0) ==> (r matches Ok(v) && v is None)),
        // With no picture start code inside the stuffing window of a
        // sufficient buffer, nothing can be parsed here.
        ((old(reader).pos() + (8 - old(reader).pos() % 8) % 8 + 17 <= old(reader).total_bits())
            && (forall|p: int|
            old(reader).pos() <= p <= old(reader).pos() + (8 - old(reader).pos() % 8) % 8 ==> !(
            #[trigger] is_start_code_at(old(reader).bytes(), p)))) ==> r == Result::<
            Option<Picture>,
            Error,
        >::Err(Error::InvalidBitstream),
        // In Sorenson Spark mode the five bits standard H.263 uses as a
        // group number are the version, and the picture header follows
        // them exactly: every field and the final cursor position come
        // straight from the bits after the first start code in the
        // stuffing window, and too few buffered bits end the stream.
        (decoder_options.bits & SORENSON_SPARK_BITSTREAM == SORENSON_SPARK_BITSTREAM) ==> (forall|
            q: int,
        |
            (old(reader).pos() <= q <= old(reader).pos() + (8 - old(reader).pos() % 8) % 8 && (
            #[trigger] is_start_code_at(old(reader).bytes(), q)) && (forall|p: int|
                old(reader).pos() <= p < q ==> !(#[trigger] is_start_code_at(
                    old(reader).bytes(),
                    p,
                ))) && q + 22 <= old(reader).total_bits()) ==> (match sorenson_header_at(
                old(reader).bytes(),
                q + 22,
            ) {
                Some((tr, sf, pt, quant, extra, end)) => r matches Ok(v) && v matches Some(p)
                    && p.version == Some((stream_value(old(reader).bytes(), q + 17, 5) as u8))
                    && p.temporal_reference == tr && p.format == Some(sf) && p.picture_type == pt
                    && p.quantizer == quant && p.extra@ == extra && final(reader).pos() == end,
                None => r == Result::<Option<Picture>, Error>::Err(Error::EndOfStream),
            })),
{
    let cp = reader.checkpoint();
    let r = decode_picture_inner(reader, decoder_options, previous_picture);
    match r {
        Ok(Some(p)) => Ok(Some(p)),
        Ok(None) => {
            reader.restore(cp);
            Ok(None)
        },
        Err(e) => {
            reader.restore(cp);
            Err(e)
        },
    }
}

/// The body of `decode_picture`, without the rollback on `None` or on
/// failure.
#[verifier::rlimit(100)]
fn decode_picture_inner(
    reader: &mut H263Reader,
    decoder_options: DecoderOption,
    previous_picture: Option<&Picture>,
) -> (r: Result<Option<Picture>, Error>)
    requires
        old(reader).wf(),
    ensures
        final(reader).wf(),
        final(reader).bytes() == old(reader).bytes(),
        match r {
            Ok(Some(p)) => decoded_picture_consistent(p, decoder_options),
            _ => true,
        },
        // A start code that opens a group of blocks is not a picture:
        // outside Sorenson mode, a first start code inside the stuffing
        // window followed by readable, nonzero group-number bits yields
        // `None`.
        (decoder_options.bits & SORENSON_SPARK_BITSTREAM != SORENSON_SPARK_BITSTREAM) ==> (forall|
            q: int,
        |
            (old(reader).pos() <= q <= old(reader).pos() + (8 - old(reader).pos() % 8) % 8 && (
            #[trigger] is_start_code_at(old(reader).bytes(), q)) && (forall|p: int|
                old(reader).pos() <= p < q ==> !(#[trigger] is_start_code_at(
                    old(reader).bytes(),
                    p,
                ))) && q + 22 <= old(reader).total_bits() && stream_value(
                old(reader).bytes(),
                q + 17,
                5,
            ) != 0) ==> (r matches Ok(v) && v is None)),
        // With no picture start code inside the stuffing window of a
        // sufficient buffer, nothing can be parsed here.
        ((old(reader).pos() + (8 - old(reader).pos() % 8) % 8 + 17 <= old(reader).total_bits())
            && (forall|p: int|
            old(reader).pos() <= p <= old(reader).pos() + (8 - old(reader).pos() % 8) % 8 ==> !(
            #[trigger] is_start_code_at(old(reader).bytes(), p)))) ==> r == Result::<
            Option<Picture>,
            Error,
        >::Err(Error::InvalidBitstream),
        // In Sorenson Spark mode the five bits standard H.263 uses as a
        // group number are the version, and the picture header follows
        // them exactly: every field and the final cursor position come
        // straight from the bits after the first start code in the
        // stuffing window, and too few buffered bits end the stream.
        (decoder_options.bits & SORENSON_SPARK_BITSTREAM == SORENSON_SPARK_BITSTREAM) ==> (forall|
            q: int,
        |
            (old(reader).pos() <= q <= old(reader).pos() + (8 - old(reader).pos() % 8) % 8 && (
            #[trigger] is_start_code_at(old(reader).bytes(), q)) && (forall|p: int|
                old(reader).pos() <= p < q ==> !(#[trigger] is_start_code_at(
                    old(reader).bytes(),
                    p,
                ))) && q + 22 <= old(reader).total_bits()) ==> (match sorenson_header_at(
                old(reader).bytes(),
                q + 22,
            ) {
                Some((tr, sf, pt, quant, extra, end)) => r matches Ok(v) && v matches Some(p)
                    && p.version == Some((stream_value(old(reader).bytes(), q + 17, 5) as u8))
                    && p.temporal_reference == tr && p.format == Some(sf) && p.picture_type == pt
                    && p.quantizer == quant && p.extra@ == extra && final(reader).pos() == end,
                None => r == Result::<Option<Picture>, Error>::Err(Error::EndOfStream),
            })),
{
    let ghost bytes0 = old(reader).bytes();
    let ghost pos0 = old(reader).pos() as int;
    let ghost window0 = ((8 - old(reader).pos() % 8) % 8) as int;
    let skipped_bits = match reader.recognize_start_code(false) {
        Ok(Some(k)) => k,
        Ok(None) => {
            return Err(Error::InvalidBitstream);
        },
        Err(e) => {
            return Err(e);
        },
    };
    proof {
        // The recognised start code is the unique first one in the
        // stuffing window.
        let found = pos0 + skipped_bits as int;
        assert forall|q: int|
            pos0 <= q <= pos0 + window0 && (#[trigger] is_start_code_at(bytes0, q)) && (forall|
                p: int,
            |
                pos0 <= p < q ==> !(#[trigger] is_start_code_at(bytes0, p))) implies q
            == found by {
            if q < found {
                assert(!is_start_code_at(bytes0, q));
            } else if q > found {
                assert(!is_start_code_at(bytes0, found));
            }
        }
    }
    match reader.skip_bits(17 + skipped_bits) {
        Ok(()) => (),
        Err(e) => {
            return Err(e);
        },
    }
    let gob_id = match reader.read_bits(5) {
        Ok(v) => v,
        Err(e) => {
            return Err(e);
        },
    };
    proof {
        crate::reader::lemma_stream_value_bound(reader.bytes(), reader.pos() as int - 5, 5);
        vstd::arithmetic::power2::lemma2_to64();
    }
    if decoder_options.contains(SORENSON_SPARK_BITSTREAM) {
        let p = match decode_sorenson_picture(reader, gob_id as u8) {
            Ok(v) => v,
            Err(e) => {
                return Err(e);
            },
        };
        return Ok(Some(p));
    }
    if gob_id != 0 {
        return Ok(None);
    }
    proof {
        // The found start code is the first in the window and its group
        // number bits are zero, so no start code in the window carries a
        // nonzero group number.
        assert forall|q: int|
            (pos0 <= q <= pos0 + window0 && (#[trigger] is_start_code_at(bytes0, q)) && (forall|
                p: int,
            |
                pos0 <= p < q ==> !(#[trigger] is_start_code_at(bytes0, p))) && q + 22 <= old(
                reader,
            ).total_bits() && stream_value(bytes0, q + 17, 5) != 0) implies false by {
            let found = pos0 + skipped_bits as int;
            if q < found {
                assert(!is_start_code_at(bytes0, q));
            } else if q > found {
                assert(!is_start_code_at(bytes0, found));
            }
            assert(q == found);
            assert(stream_value(bytes0, found + 17, 5) == gob_id as nat);
        }
    }
    let p = match decode_standard_picture(reader, decoder_options, previous_picture) {
        Ok(v) => v,
        Err(e) => {
            return Err(e);
        },
    };
    Ok(Some(p))
}

/// Decode the remainder of a Sorenson Spark picture header, after the
/// start code; the five bits that standard H.263 uses as a GOB number are
/// its version field.
fn decode_sorenson_picture(reader: &mut H263Reader, version: u8) -> (r: Result<Picture, Error>)
    requires
        old(reader).wf(),
    ensures
        final(reader).wf(),
        final(reader).bytes() == old(reader).bytes(),
        match r {
            Ok(p) => sorenson_picture_consistent(p),
            Err(_) => true,
        },
        // The header decodes exactly per `sorenson_header_at`: success
        // with every field read from its bits whenever they suffice, the
        // end of the stream otherwise.
        match sorenson_header_at(old(reader).bytes(), old(reader).pos() as int) {
            Some((tr, sf, pt, quant, extra, end)) => r matches Ok(p) && p.version == Some(version)
                && p.temporal_reference == tr && p.format == Some(sf) && p.picture_type == pt
                && p.quantizer == quant && p.extra@ == extra && final(reader).pos() == end,
            None => r == Result::<Picture, Error>::Err(Error::EndOfStream),
        },
{
    let temporal_reference = match reader.read_u8() {
        Ok(v) => v,
        Err(e) => {
            return Err(e);
        },
    };
    let (source_format, picture_type, options) = match decode_sorenson_ptype(reader) {
        Ok(v) => v,
        Err(e) => {
            return Err(e);
        },
    };
    let quantizer = match reader.read_bits(5) {
        Ok(v) => v,
        Err(e) => {
            return Err(e);
        },
    };
    proof {
        crate::reader::lemma_stream_value_bound(
            reader.bytes(),
            reader.pos() as int - 5,
            5,
        );
        vstd::arithmetic::power2::lemma2_to64();
    }
    let extra = match decode_pei(reader) {
        Ok(v) => v,
        Err(e) => {
            return Err(e);
        },
    };
    return Ok(
        Picture {
                // Sorenson abuses the GOB ID as a version field.
                version: Some(version),
                temporal_reference: temporal_reference as u16,
                format: Some(source_format),
                options,
                has_plusptype: false,
                has_opptype: false,
                picture_type,
                quantizer: quantizer as u8,
                extra,
                // Sorenson is always unlimited.
                motion_vector_range: Some(MotionVectorRange::Unlimited),
                // The remaining modes are not used by Sorenson.
                slice_submode: None,
                scalability_layer: None,
                reference_picture_selection_mode: None,
                prediction_reference: None,
                backchannel_message: None,
                reference_picture_resampling: None,
                multiplex_bitstream: None,
                pb_reference: None,
                pb_quantizer: None,
            },
    )
}

/// The fields of a standard picture header up to and including the
/// temporal reference, before the follower fields.
struct HeaderPrefix {
    options: PictureOption,
    format: Option<SourceFormat>,
    picture_type: PictureTypeCode,
    followers: u8,
    has_plusptype: bool,
    has_opptype: bool,
    multiplex_bitstream: Option<Option<u8>>,
    picture_clock: Option<CustomPictureClock>,
    temporal_reference: u16,
}

/// Decode a standard picture header through `PTYPE` or `PLUSPTYPE`, the
/// custom format and clock, and the temporal reference.
#[verifier::rlimit(50)]
fn decode_standard_prefix(
    reader: &mut H263Reader,
    decoder_options: DecoderOption,
    previous_picture: Option<&Picture>,
) -> (r: Result<HeaderPrefix, Error>)
    requires
        old(reader).wf(),
    ensures
        final(reader).wf(),
        final(reader).bytes() == old(reader).bytes(),
        match r {
            Ok(p) => p.temporal_reference < 1024,
            Err(_) => true,
        },
{
    let low_tr = match reader.read_u8() {
        Ok(v) => v,
        Err(e) => {
            return Err(e);
        },
    };
    let (first_options, maybe_format_and_type) = match decode_ptype(reader) {
        Ok(v) => v,
        Err(e) => {
            return Err(e);
        },
    };
    let mut options = first_options;
    let mut multiplex_bitstream: Option<Option<u8>> = None;
    let (mut format, picture_type, followers, has_plusptype, has_opptype): (
        Option<SourceFormat>,
        PictureTypeCode,
        u8,
        bool,
        bool,
    ) = match maybe_format_and_type {
        Some((fmt, ptype)) => (Some(fmt), ptype, 0u8, false, false),
        None => {
            let previous_options = match previous_picture {
                Some(p) => p.options,
                None => PictureOption::empty(),
            };
            let (extra_options, maybe_format, ptype, followers, has_opptype) =
                match decode_plusptype(reader, decoder_options, previous_options) {
                Ok(v) => v,
                Err(e) => {
                    return Err(e);
                },
            };
            options = PictureOption::from_bits(options.bits | extra_options.bits);
            let mpb = match decode_cpm_and_psbi(reader) {
                Ok(v) => v,
                Err(e) => {
                    return Err(e);
                },
            };
            multiplex_bitstream = Some(mpb);
            (maybe_format, ptype, followers, true, has_opptype)
        },
    };
    if followers & FOLLOWER_CUSTOM_FORMAT != 0 {
        let cpf = match decode_cpfmt(reader) {
            Ok(v) => v,
            Err(e) => {
                return Err(e);
            },
        };
        format = Some(SourceFormat::Extended(cpf));
    }
    let picture_clock = if followers & FOLLOWER_CUSTOM_CLOCK != 0 {
        let clock = match decode_cpcfc(reader) {
            Ok(v) => v,
            Err(e) => {
                return Err(e);
            },
        };
        Some(clock)
    } else {
        None
    };
    let temporal_reference: u16 = if picture_clock.is_some() {
        let high_tr = match reader.read_bits(2) {
            Ok(v) => v,
            Err(e) => {
                return Err(e);
            },
        };
        proof {
            crate::reader::lemma_stream_value_bound(
                reader.bytes(),
                reader.pos() as int - 2,
                2,
            );
            vstd::arithmetic::power2::lemma2_to64();
        }
        let h16: u16 = high_tr as u16;
        let l16: u16 = low_tr as u8 as u16;
        proof {
            assert((h16 << 8u16) | l16 < 1024) by (bit_vector)
                requires
                    h16 < 4 && l16 < 256,
            ;
        }
        (h16 << 8u16) | l16
    } else {
        low_tr as u16
    };
    Ok(
        HeaderPrefix {
            options,
            format,
            picture_type,
            followers,
            has_plusptype,
            has_opptype,
            multiplex_bitstream,
            picture_clock,
            temporal_reference,
        },
    )
}

/// Decode the remainder of a standard H.263 picture header, after the
/// start code and a zero GOB number.
#[verifier::rlimit(100)]
fn decode_standard_picture(
    reader: &mut H263Reader,
    decoder_options: DecoderOption,
    previous_picture: Option<&Picture>,
) -> (r: Result<Picture, Error>)
    requires
        old(reader).wf(),
    ensures
        final(reader).wf(),
        final(reader).bytes() == old(reader).bytes(),
        match r {
            Ok(p) => standard_picture_consistent(p),
            Err(_) => true,
        },
{
    let prefix = match decode_standard_prefix(reader, decoder_options, previous_picture) {
        Ok(v) => v,
        Err(e) => {
            return Err(e);
        },
    };
    let options = prefix.options;
    let mut format = prefix.format;
    let picture_type = prefix.picture_type;
    let followers = prefix.followers;
    let has_plusptype = prefix.has_plusptype;
    let has_opptype = prefix.has_opptype;
    let multiplex_bitstream = prefix.multiplex_bitstream;
    let picture_clock = prefix.picture_clock;
    let temporal_reference = prefix.temporal_reference;
    let motion_vector_range = if followers & FOLLOWER_MOTION_VECTOR_RANGE != 0 {
        let range = match decode_uui(reader) {
            Ok(v) => v,
            Err(e) => {
                return Err(e);
            },
        };
        Some(range)
    } else {
        None
    };
    let slice_submode = if followers & FOLLOWER_SLICE_STRUCTURED_SUBMODE != 0 {
        let sss = match decode_sss(reader) {
            Ok(v) => v,
            Err(e) => {
                return Err(e);
            },
        };
        Some(sss)
    } else {
        None
    };
    let scalability_layer = if decoder_options.contains(USE_SCALABILITY_MODE) {
        let layer = match decode_elnum_rlnum(reader, followers) {
            Ok(v) => v,
            Err(e) => {
                return Err(e);
            },
        };
        Some(layer)
    } else {
        None
    };
    let reference_picture_selection_mode = if followers
        & FOLLOWER_REFERENCE_PICTURE_SELECTION_MODE != 0 {
        let rpsm = match decode_rpsmf(reader) {
            Ok(v) => v,
            Err(e) => {
                return Err(e);
            },
        };
        Some(rpsm)
    } else {
        None
    };
    let prediction_reference = if options.contains(REFERENCE_PICTURE_SELECTION) {
        match decode_trpi(reader) {
            Ok(v) => v,
            Err(e) => {
                return Err(e);
            },
        }
    } else {
        None
    };
    let backchannel_message = if options.contains(REFERENCE_PICTURE_SELECTION) {
        match decode_bcm(reader) {
            Ok(v) => v,
            Err(e) => {
                return Err(e);
            },
        }
    } else {
        None
    };
    let format_changed = match previous_picture {
        Some(p) => p.format != format,
        None => false,
    };
    let reference_picture_resampling = if options.contains(REFERENCE_PICTURE_RESAMPLING)
        || format_changed {
        match decode_rprp(reader) {
            Ok(v) => v,
            Err(e) => {
                return Err(e);
            },
        }
    } else {
        None
    };
    let quantizer = match reader.read_bits(5) {
        Ok(v) => v,
        Err(e) => {
            return Err(e);
        },
    };
    proof {
        crate::reader::lemma_stream_value_bound(reader.bytes(), reader.pos() as int - 5, 5);
        vstd::arithmetic::power2::lemma2_to64();
    }
    let multiplex_bitstream = match multiplex_bitstream {
        Some(mpb) => mpb,
        None => {
            match decode_cpm_and_psbi(reader) {
                Ok(v) => v,
                Err(e) => {
                    return Err(e);
                },
            }
        },
    };
    let (pb_reference, pb_quantizer) = if picture_type.is_any_pbframe() {
        let trb = match decode_trb(reader, picture_clock.is_some()) {
            Ok(v) => v,
            Err(e) => {
                return Err(e);
            },
        };
        let dbq = match decode_dbquant(reader) {
            Ok(v) => v,
            Err(e) => {
                return Err(e);
            },
        };
        (Some(trb), Some(dbq))
    } else {
        (None, None)
    };
    let extra = match decode_pei(reader) {
        Ok(v) => v,
        Err(e) => {
            return Err(e);
        },
    };
    Ok(
        Picture {
                version: None,
                temporal_reference,
                format,
                options,
                has_plusptype,
                has_opptype,
                picture_type,
                motion_vector_range,
                slice_submode,
                scalability_layer,
                reference_picture_selection_mode,
                prediction_reference,
                backchannel_message,
                reference_picture_resampling,
                quantizer: quantizer as u8,
                multiplex_bitstream,
                pb_reference,
                pb_quantizer,
                extra,
        },
    )
}

} // verus!
