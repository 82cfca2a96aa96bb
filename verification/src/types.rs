//! Parsed H.263 bitstream types.

use vstd::prelude::*;

verus! {

/// Truncating division (rounding toward zero), as the hardware performs it
/// on signed integers. `d` must be positive.
pub open spec fn tdiv(x: int, d: int) -> int
    recommends
        d > 0,
{
    if x >= 0 {
        x / d
    } else {
        -((-x) / d)
    }
}

/// Truncating division of an `i16` by a positive divisor.
pub fn div_i16(x: i16, d: i16) -> (r: i16)
    requires
        d > 0,
    ensures
        r as int == tdiv(x as int, d as int),
{
    proof {
        if x >= 0 {
            assert(x / d <= x) by (nonlinear_arith)
                requires x >= 0 && d > 0;
            assert(x / d >= 0) by (nonlinear_arith)
                requires x >= 0 && d > 0;
        } else {
            assert((-(x as int)) / (d as int) <= -(x as int)) by (nonlinear_arith)
                requires x < 0 && d > 0;
            assert((-(x as int)) / (d as int) >= 0) by (nonlinear_arith)
                requires x < 0 && d > 0;
        }
    }
    x.checked_div(d).unwrap()
}

/// The sign of an `i16`: `1`, `0` or `-1`.
pub open spec fn sign(x: int) -> int {
    if x > 0 {
        1
    } else if x < 0 {
        -1
    } else {
        0
    }
}

/// Clamp an integer into the inclusive range `[lo, hi]`.
pub open spec fn clamp(x: int, lo: int, hi: int) -> int
    recommends
        lo <= hi,
{
    if x < lo {
        lo
    } else if x > hi {
        hi
    } else {
        x
    }
}

/// Clamp an `i16` into the inclusive range `[lo, hi]`.
pub fn clamp_i16(x: i16, lo: i16, hi: i16) -> (r: i16)
    requires
        lo <= hi,
    ensures
        r as int == clamp(x as int, lo as int, hi as int),
{
    if x < lo {
        lo
    } else if x > hi {
        hi
    } else {
        x
    }
}

// All H.263 picture options configured by `PTYPE` and `OPPTYPE`, as bits of
// a `PictureOption` set.
pub const USE_SPLIT_SCREEN: u32 = 0x1;

pub const USE_DOCUMENT_CAMERA: u32 = 0x2;

pub const RELEASE_FULL_PICTURE_FREEZE: u32 = 0x4;

pub const UNRESTRICTED_MOTION_VECTORS: u32 = 0x8;

pub const SYNTAX_BASED_ARITHMETIC_CODING: u32 = 0x10;

pub const ADVANCED_PREDICTION: u32 = 0x20;

pub const ADVANCED_INTRA_CODING: u32 = 0x40;

pub const DEBLOCKING_FILTER: u32 = 0x80;

pub const SLICE_STRUCTURED: u32 = 0x100;

pub const REFERENCE_PICTURE_SELECTION: u32 = 0x200;

pub const INDEPENDENT_SEGMENT_DECODING: u32 = 0x400;

pub const ALTERNATIVE_INTER_VLC: u32 = 0x800;

pub const MODIFIED_QUANTIZATION: u32 = 0x1000;

pub const REFERENCE_PICTURE_RESAMPLING: u32 = 0x2000;

pub const REDUCED_RESOLUTION_UPDATE: u32 = 0x4000;

pub const ROUNDING_TYPE_ONE: u32 = 0x8000;

/// Advisory request for a deblocking filter; set only by Sorenson Spark
/// bitstreams.
pub const USE_DEBLOCKER: u32 = 0x10000;

/// The options that live in the `OPPTYPE` part of a `PLUSPTYPE` picture
/// header, and carry forward from picture to picture when absent.
pub const OPPTYPE_OPTIONS: u32 = UNRESTRICTED_MOTION_VECTORS | SYNTAX_BASED_ARITHMETIC_CODING
    | ADVANCED_PREDICTION | ADVANCED_INTRA_CODING | DEBLOCKING_FILTER | SLICE_STRUCTURED
    | REFERENCE_PICTURE_SELECTION | INDEPENDENT_SEGMENT_DECODING | ALTERNATIVE_INTER_VLC
    | MODIFIED_QUANTIZATION;

/// The options that live in the `MPPTYPE` part of a `PLUSPTYPE` picture
/// header.
pub const MPPTYPE_OPTIONS: u32 = REFERENCE_PICTURE_RESAMPLING | REDUCED_RESOLUTION_UPDATE
    | ROUNDING_TYPE_ONE;

/// A set of H.263 picture options.
///
/// Many of these options are specified in annexes to H.263 and are not
/// required to be supported in all decoders. The meaning of each picture
/// option should be referenced from ITU-T Recommendation H.263 (01/2005).
#[derive(Copy, Clone, Debug, PartialEq, Eq, Structural)]
pub struct PictureOption {
    pub bits: u32,
}

impl PictureOption {
    /// The empty option set.
    pub fn empty() -> (r: Self)
        ensures
            r.bits == 0,
    {
        PictureOption { bits: 0 }
    }

    /// An option set from raw bits.
    pub fn from_bits(bits: u32) -> (r: Self)
        ensures
            r.bits == bits,
    {
        PictureOption { bits }
    }

    /// Does this set contain every option of `mask`?
    pub fn contains(self, mask: u32) -> (r: bool)
        ensures
            r == (self.bits & mask == mask),
    {
        self.bits & mask == mask
    }

    /// This set with the options of `mask` added.
    pub fn with(self, mask: u32) -> (r: Self)
        ensures
            r.bits == (self.bits | mask),
    {
        PictureOption { bits: self.bits | mask }
    }
}

// Options which influence the decoding of a bitstream, as bits of a
// `DecoderOption` set.

/// Attempt to decode the video as a Sorenson Spark bitstream.
pub const SORENSON_SPARK_BITSTREAM: u8 = 0x1;

/// Whether the use of Annex O's Temporal, SNR, and Spatial Scalability mode
/// has been negotiated.
pub const USE_SCALABILITY_MODE: u8 = 0x2;

/// A set of options which influence the decoding of a bitstream.
#[derive(Copy, Clone, Debug, PartialEq, Eq, Structural)]
pub struct DecoderOption {
    pub bits: u8,
}

impl DecoderOption {
    /// The empty option set.
    pub fn empty() -> (r: Self)
        ensures
            r.bits == 0,
    {
        DecoderOption { bits: 0 }
    }

    /// An option set from raw bits.
    pub fn from_bits(bits: u8) -> (r: Self)
        ensures
            r.bits == bits,
    {
        DecoderOption { bits }
    }

    /// Does this set contain every option of `mask`?
    pub fn contains(self, mask: u8) -> (r: bool)
        ensures
            r == (self.bits & mask == mask),
    {
        self.bits & mask == mask
    }
}

/// ITU-T Recommendation H.263 (01/2005) 5.1.5-5.1.6 `CPFMT`, `EPAR`
///
/// This defines a "custom" picture format, outside of the standard CIF
/// options.
#[derive(Copy, Clone, Debug, PartialEq, Eq, Structural)]
pub struct CustomPictureFormat {
    /// The aspect ratio of a single pixel.
    pub pixel_aspect_ratio: PixelAspectRatio,

    /// The number of pixels per line.
    pub picture_width_indication: u16,

    /// The number of lines per image.
    pub picture_height_indication: u16,
}

/// The aspect ratio of the dots on each line.
///
/// The pixel aspect ratio does not determine anything about the structure of
/// the video data; it only determines how the picture should be stretched on
/// presentation.
#[derive(Copy, Clone, Debug, PartialEq, Eq, Structural)]
pub enum PixelAspectRatio {
    /// 1:1 pixel aspect ratio. Most common on modern displays.
    Square,

    /// 12:11 pixel aspect ratio. Noted as "CIF for 4:3 Picture" in H.263.
    Par12_11,

    /// 10:11 pixel aspect ratio. Noted as "525-type for 4:3 Picture".
    Par10_11,

    /// 16:11 pixel aspect ratio. Noted as "CIF stretched for 16:9 Picture".
    Par16_11,

    /// 40:33 pixel aspect ratio. Noted as "525-type stretched for 16:9
    /// Picture".
    Par40_33,

    /// One of the reserved PAR options, anchored to the lowest significant
    /// bit of the `u8`.
    Reserved(u8),

    /// An extended/custom pixel aspect ratio. A zero width or height is
    /// forbidden.
    Extended { par_width: u8, par_height: u8 },
}

/// The default resolution options available in H.263.
///
/// Most variants are multiples of the CIF (Common Interchange Format)
/// picture size, 352x288. The multiples refer to total pixel count: a
/// `FourCif` image is twice the width and height of a `FullCif` image.
#[derive(Copy, Clone, Debug, PartialEq, Eq, Structural)]
pub enum SourceFormat {
    /// 128x96 @ 30000/1001hz
    SubQcif,

    /// 176x144 @ 30000/1001hz
    QuarterCif,

    /// 352x288 @ 30000/1001hz
    FullCif,

    /// 704x576 @ 30000/1001hz
    FourCif,

    /// 1408x1152 @ 30000/1001hz
    SixteenCif,

    /// Reserved by the H.263 spec. Does not appear to be in use.
    Reserved,

    /// A custom source format with explicit dimensions.
    Extended(CustomPictureFormat),
}

impl SourceFormat {
    /// The pixel width and height of this source format, or `None` for the
    /// reserved format.
    pub fn into_width_and_height(self) -> (r: Option<(u16, u16)>)
        ensures
            r == self.spec_width_and_height(),
    {
        match self {
            SourceFormat::SubQcif => Some((128, 96)),
            SourceFormat::QuarterCif => Some((176, 144)),
            SourceFormat::FullCif => Some((352, 288)),
            SourceFormat::FourCif => Some((704, 576)),
            SourceFormat::SixteenCif => Some((1408, 1152)),
            SourceFormat::Reserved => None,
            SourceFormat::Extended(cpf) => Some(
                (cpf.picture_width_indication, cpf.picture_height_indication),
            ),
        }
    }

    /// What `into_width_and_height` returns.
    pub open spec fn spec_width_and_height(self) -> Option<(u16, u16)> {
        match self {
            SourceFormat::SubQcif => Some((128u16, 96u16)),
            SourceFormat::QuarterCif => Some((176u16, 144u16)),
            SourceFormat::FullCif => Some((352u16, 288u16)),
            SourceFormat::FourCif => Some((704u16, 576u16)),
            SourceFormat::SixteenCif => Some((1408u16, 1152u16)),
            SourceFormat::Reserved => None,
            SourceFormat::Extended(cpf) => Some(
                (cpf.picture_width_indication, cpf.picture_height_indication),
            ),
        }
    }
}

/// ITU-T Recommendation H.263 (01/2005) 5.1.7 `CPCFC`
///
/// The frame rate is 1,800,000hz divided by the effective divisor, which is
/// `divisor` times either 1000 or 1001 depending on `times_1001`.
#[derive(Copy, Clone, Debug, PartialEq, Eq, Structural)]
pub struct CustomPictureClock {
    /// `true` indicates a factor of 1001, `false` one of 1000.
    pub times_1001: bool,

    /// The divisor, itself stored divided by the constant factor.
    pub divisor: u8,
}

/// ITU-T Recommendation H.263 (01/2005) 5.1.9 `UUI`
///
/// Indicates the motion vector range limitations in force when
/// `UNRESTRICTED_MOTION_VECTORS` is enabled.
#[derive(Copy, Clone, Debug, PartialEq, Eq, Structural)]
pub enum MotionVectorRange {
    /// Component ranges extended to the limits prescribed in H.263
    /// (01/2005) D.1 and D.2.
    Extended,

    /// Component ranges limited only by the picture size.
    Unlimited,

    /// The standard component range.
    Standard,
}

// ITU-T Recommendation H.263 (01/2005) 5.1.9 `SSS` slice submode bits.
pub const RECTANGULAR_SLICES: u8 = 0x1;

pub const ARBITRARY_ORDER: u8 = 0x2;

/// ITU-T Recommendation H.263 (01/2005) 5.1.9 `SSS`
///
/// Indicates the slice configuration when slice-structured mode is enabled.
#[derive(Copy, Clone, Debug, PartialEq, Eq, Structural)]
pub struct SliceSubmode {
    pub bits: u8,
}

/// ITU-T Recommendation H.263 (01/2005) 5.1.11-5.1.12 `ELNUM`, `RLNUM`
///
/// Only present if Temporal, SNR, and Spatial Scalability is enabled.
#[derive(Copy, Clone, Debug, PartialEq, Eq, Structural)]
pub struct ScalabilityLayer {
    /// The 4-bit enhancement layer index.
    pub enhancement: u8,

    /// The 4-bit reference layer index, where declared.
    pub reference: Option<u8>,
}

// ITU-T Recommendation H.263 (01/2005) 5.1.13 `RPSMF` bits.
pub const RPSM_RESERVED: u8 = 0x1;

pub const RPSM_REQUEST_NEGATIVE_ACKNOWLEDGEMENT: u8 = 0x2;

pub const RPSM_REQUEST_ACKNOWLEDGEMENT: u8 = 0x4;

/// ITU-T Recommendation H.263 (01/2005) 5.1.13 `RPSMF`
///
/// Indicates what backchannel messages the encoder would like out of its
/// decoding partner.
#[derive(Copy, Clone, Debug, PartialEq, Eq, Structural)]
pub struct ReferencePictureSelectionMode {
    pub bits: u8,
}

/// ITU-T Recommendation H.263 (01/2005) N.4.2.1 `BT`
///
/// The backchanneler's decoding status of the opposing video stream.
#[derive(Copy, Clone, Debug, PartialEq, Eq, Structural)]
pub enum BackchannelMessageType {
    /// Positive acknowledgement of correct decoding.
    Acknowledge,

    /// Negative acknowledgement of erroneous or failed decoding.
    NegativeAcknowledge,

    /// Reserved message type.
    Reserved(u8),
}

/// ITU-T Recommendation H.263 (01/2005) N.4.2.2 `URF`
///
/// Whether the backchanneling decoder has reliable values for temporal
/// references, group-of-block numbers, or macroblock addresses.
#[derive(Copy, Clone, Debug, PartialEq, Eq, Structural)]
pub enum BackchannelReliability {
    Reliable,
    Unreliable,
}

/// ITU-T Recommendation H.263 (01/2005) N.4.2 `BCM`
///
/// Backchannel information that a decoder of a video stream sends in
/// response to an opposing video stream.
#[derive(Copy, Clone, Debug, PartialEq, Eq, Structural)]
pub struct BackchannelMessage {
    /// What message type is being back-channeled.
    pub message_type: BackchannelMessageType,

    /// Whether the backchanneler has reliable reference numbers.
    pub reliable: BackchannelReliability,

    /// The temporal reference of the picture being backchanneled.
    pub temporal_reference: u16,

    /// The enhancement layer being backchanneled, if any.
    pub enhancement_layer: Option<u8>,

    /// The sub-bitstream number being backchanneled, if any.
    pub sub_bitstream: Option<u8>,

    /// The GOB number or macroblock address being backchanneled, if any.
    pub gob_macroblock_address: Option<u16>,

    /// The temporal reference requested for retransmission (if NACK).
    pub requested_temporal_reference: Option<u16>,
}

/// ITU-T Recommendation H.263 (01/2005) P.2.1 `WDA`
#[derive(Copy, Clone, Debug, PartialEq, Eq, Structural)]
pub enum WarpingDisplacementAccuracy {
    /// Warping parameters quantized to half-pixel accuracy.
    HalfPixel,

    /// Warping parameters quantized to sixteenth-pixel accuracy.
    SixteenthPixel,
}

/// ITU-T Recommendation H.263 (01/2005) P.2 `RPRP`
///
/// The parameters necessary for reference-picture resampling.
#[derive(Copy, Clone, Debug, PartialEq, Eq)]
pub struct ReferencePictureResampling {
    pub accuracy: WarpingDisplacementAccuracy,

    /// The eight warping parameters, each encoded per table D.3 of H.263
    /// (01/2005), where transmitted.
    pub warps: Option<[u16; 8]>,
}

/// ITU-T Recommendation H.263 (01/2005), 5.1.23 `DBQUANT`
#[derive(Copy, Clone, Debug, PartialEq, Eq, Structural)]
pub enum BPictureQuantizer {
    /// B-quantizer is five-fourths.
    FiveFourths,

    /// B-quantizer is six-fourths.
    SixFourths,

    /// B-quantizer is seven-fourths.
    SevenFourths,

    /// B-quantizer is eight-fourths.
    EightFourths,
}

/// All available picture types in H.263.
///
/// A picture type indicates what reference frames should be used, if any,
/// to decode the image.
#[derive(Copy, Clone, Debug, PartialEq, Eq, Structural)]
pub enum PictureTypeCode {
    /// A full picture update that can be independently decoded.
    IFrame,

    /// A partial picture update that references a previously decoded frame.
    PFrame,

    /// PB frames.
    PbFrame,

    /// "Improved" PB frames.
    ImprovedPbFrame,

    /// A partial picture update that may reference future frames.
    BFrame,

    /// EI frames.
    EiFrame,

    /// EP frames.
    EpFrame,

    /// A reserved picture type code, anchored to the lowest significant bit
    /// of the `u8`.
    Reserved(u8),

    /// A P-frame the encoder promises not to reference later; exclusive to
    /// Sorenson Spark bitstreams.
    DisposablePFrame,
}

impl PictureTypeCode {
    /// Is this picture type either kind of PB frame?
    pub fn is_any_pbframe(self) -> (r: bool)
        ensures
            r == (self == PictureTypeCode::PbFrame || self == PictureTypeCode::ImprovedPbFrame),
    {
        matches!(self, PictureTypeCode::PbFrame | PictureTypeCode::ImprovedPbFrame)
    }

    /// Is this picture type the disposable kind of P-frame?
    pub fn is_disposable(self) -> (r: bool)
        ensures
            r == (self == PictureTypeCode::DisposablePFrame),
    {
        matches!(self, PictureTypeCode::DisposablePFrame)
    }
}

/// ITU-T Recommendation H.263 (01/2005) 5.1.2-5.1.4 `TR`, `PTYPE`,
/// `PLUSPTYPE` and 5.1.8 `ETR`.
///
/// A `Picture` configures the current frame's resolution, the use of any
/// optional H.263 features, and the intra-prediction mode used.
#[derive(Clone, Debug)]
pub struct Picture {
    /// The version code. Only Sorenson Spark bitstreams carry one.
    pub version: Option<u8>,

    /// The temporal reference index of this picture, 8 or 10 bits wide.
    pub temporal_reference: u16,

    /// The source format of the image, if this picture specifies one.
    pub format: Option<SourceFormat>,

    /// Options which are enabled (or were implicitly present) on this
    /// picture.
    pub options: PictureOption,

    /// Whether this picture was sent with a `PLUSPTYPE`.
    pub has_plusptype: bool,

    /// Whether this picture was sent with an `OPPTYPE`. Without one,
    /// several options carry forward from previous pictures.
    pub has_opptype: bool,

    /// The intra-prediction mode in use.
    pub picture_type: PictureTypeCode,

    /// The limits on motion vectors, present exactly when unrestricted
    /// motion vectors are enabled.
    pub motion_vector_range: Option<MotionVectorRange>,

    /// The slice-structured submodes in force, present exactly when
    /// `SLICE_STRUCTURED` is enabled.
    pub slice_submode: Option<SliceSubmode>,

    /// Which layer this picture is a member of, present only in
    /// scalability mode.
    pub scalability_layer: Option<ScalabilityLayer>,

    /// What backchannel signals the encoder is requesting.
    pub reference_picture_selection_mode: Option<ReferencePictureSelectionMode>,

    /// ITU-T Recommendation H.263 (01/2005) 5.1.14-5.1.15 `TRP`, `TRPI`:
    /// the temporal reference of the picture used to reconstruct this one.
    pub prediction_reference: Option<u16>,

    /// ITU-T Recommendation H.263 (01/2005) 5.1.16 `BCI`: backchannel
    /// message requests sent by the encoder.
    pub backchannel_message: Option<BackchannelMessage>,

    /// ITU-T Recommendation H.263 (01/2005) 5.1.18 `RPRP`: the parameters
    /// of reference-picture resampling mode.
    pub reference_picture_resampling: Option<ReferencePictureResampling>,

    /// ITU-T Recommendation H.263 (01/2005) 5.1.19 `PQUANT`: the quantizer
    /// factor in force for this picture until changed.
    pub quantizer: u8,

    /// ITU-T Recommendation H.263 (01/2005) 5.1.20-5.1.21 `CPM`, `PSBI`: a
    /// number from 0 to 3 indicating which multipoint sub-bitstream this
    /// picture is a member of, or `None` without continuous presence
    /// multipoint.
    pub multiplex_bitstream: Option<u8>,

    /// ITU-T Recommendation H.263 (01/2005) 5.1.22 `TRb`: the number of
    /// non-transmitted frames to the B half of the current PB frame.
    pub pb_reference: Option<u8>,

    /// ITU-T Recommendation H.263 (01/2005) 5.1.23 `DBQUANT`: the
    /// quantization factor for the B block of a PB frame.
    pub pb_quantizer: Option<BPictureQuantizer>,

    /// ITU-T Recommendation H.263 (01/2005) 5.1.24 `PEI`: extra
    /// information bytes attached to this picture.
    pub extra: Vec<u8>,
}

/// ITU-T Recommendation H.263 (01/2005), 5.2.x `GN`, `GSBI`, `GFID`,
/// `GQUANT`
///
/// Each picture is composed of one or more groups of blocks; the first is
/// implied and not transmitted. Sorenson bitstreams treat all pictures as a
/// single group of blocks.
#[derive(Copy, Clone, Debug, PartialEq, Eq, Structural)]
pub struct GroupOfBlocks {
    /// The GOB number, never 0; limited to 1-17 for standard CIF source
    /// formats and 1-24 for custom picture formats.
    pub group_number: u8,

    /// ITU-T Recommendation H.263 (01/2005) 5.2.4 `GSBI`: which multipoint
    /// sub-bitstream this group of blocks is a member of, if any.
    pub multiplex_bitstream: Option<u8>,

    /// ITU-T Recommendation H.263 (01/2005) 5.2.5 `GFID`.
    pub frame_id: u8,

    /// ITU-T Recommendation H.263 (01/2005) 5.2.6 `GQUANT`: the quantizer
    /// factor in force until later changed by another GOB or macroblock.
    pub quantizer: u8,
}

/// ITU-T Recommendation H.263 (01/2005), 5.3.2 `MCBPC` (block-type half)
#[derive(Copy, Clone, Debug, PartialEq, Eq, Structural)]
pub enum MacroblockType {
    /// Inter macroblock.
    Inter,

    /// Inter macroblock with a quantizer delta.
    InterQ,

    /// Inter macroblock with four motion vectors.
    Inter4V,

    /// Macroblock with `INTRADC` components.
    Intra,

    /// Macroblock with `INTRADC` components and a quantizer delta.
    IntraQ,

    /// Inter macroblock with a quantizer delta and four motion vectors.
    Inter4Vq,
}

impl MacroblockType {
    /// Is this an `INTER` macroblock?
    pub fn is_inter(self) -> (r: bool)
        ensures
            r == (self == MacroblockType::Inter || self == MacroblockType::InterQ || self
                == MacroblockType::Inter4V || self == MacroblockType::Inter4Vq),
    {
        matches!(
            self,
            MacroblockType::Inter
                | MacroblockType::InterQ
                | MacroblockType::Inter4V
                | MacroblockType::Inter4Vq
        )
    }

    /// Is this an `INTRA` macroblock?
    pub fn is_intra(self) -> (r: bool)
        ensures
            r == (self == MacroblockType::Intra || self == MacroblockType::IntraQ),
    {
        matches!(self, MacroblockType::Intra | MacroblockType::IntraQ)
    }

    /// Does this macroblock have four motion vectors?
    pub fn has_fourvec(self) -> (r: bool)
        ensures
            r == (self == MacroblockType::Inter4V || self == MacroblockType::Inter4Vq),
    {
        matches!(self, MacroblockType::Inter4V | MacroblockType::Inter4Vq)
    }

    /// Does this macroblock carry its own quantizer delta?
    pub fn has_quantizer(self) -> (r: bool)
        ensures
            r == (self == MacroblockType::InterQ || self == MacroblockType::IntraQ || self
                == MacroblockType::Inter4Vq),
    {
        matches!(self, MacroblockType::InterQ | MacroblockType::IntraQ | MacroblockType::Inter4Vq)
    }
}

/// ITU-T Recommendation H.263 (01/2005), 5.3.2 `MCBPC`, 5.3.5 `CBPY`
///
/// Coded block pattern bits that indicate which blocks of a macroblock
/// carry frequency components.
#[derive(Copy, Clone, Debug)]
pub struct CodedBlockPattern {
    pub codes_luma: [bool; 4],
    pub codes_chroma_b: bool,
    pub codes_chroma_r: bool,
}

/// Half-pixel motion vector components.
#[derive(Copy, Clone, Debug, PartialEq, Eq, Structural)]
pub struct HalfPel(pub i16);

// Motion vector component ranges, in half-pel units.
pub const STANDARD_RANGE: i16 = 32;

pub const EXTENDED_RANGE: i16 = 64;

pub const EXTENDED_RANGE_QUADCIF: i16 = 128;

pub const EXTENDED_RANGE_SIXTEENCIF: i16 = 256;

pub const EXTENDED_RANGE_BEYONDCIF: i16 = 512;

impl HalfPel {
    /// The count of half-pixels this component stands for.
    pub open spec fn value(self) -> int {
        self.0 as int
    }

    /// Construct a half-pel from a value that already counts half-pel
    /// units.
    pub fn from_unit(unit: i16) -> (r: Self)
        ensures
            r.value() == unit as int,
    {
        HalfPel(unit)
    }

    /// The zero component.
    pub fn zero() -> (r: Self)
        ensures
            r.value() == 0,
    {
        HalfPel(0)
    }

    /// The sum of two components.
    pub fn plus(self, rhs: Self) -> (r: Self)
        requires
            i16::MIN <= self.value() + rhs.value() <= i16::MAX,
        ensures
            r.value() == self.value() + rhs.value(),
    {
        HalfPel(self.0 + rhs.0)
    }

    /// Separate the half-pixel into lerp parameters: the offset of the
    /// top/left coordinate to sample from, and whether to interpolate with
    /// the pixel to the right or bottom.
    pub fn into_lerp_parameters(self) -> (r: (i16, bool))
        ensures
            r.0 as int == self.value() / 2,
            r.1 == (self.value() % 2 != 0),
    {
        let v: i16 = self.0;
        let whole = v >> 1u16;
        let frac = v & 1;
        proof {
            assert(whole as int == v as int / 2 && frac as int == v as int % 2) by (bit_vector)
                requires
                    whole == v >> 1u16 && frac == v & 1,
            ;
        }
        (whole, frac == 1)
    }

    /// Invert the half-pel around the restricted MVD component range.
    ///
    /// Given a half-pel decoded from the Vector column of H.263 (01/2005)
    /// table 14, this gives the equivalent entry from the Differences
    /// column of that table.
    pub fn invert(self) -> (r: Self)
        requires
            -32703 <= self.value() <= 32703,
        ensures
            r.value() == self.spec_invert(),
    {
        if self.0 > 0 {
            HalfPel(self.0 - 64)
        } else if self.0 < 0 {
            HalfPel(self.0 + 64)
        } else {
            self
        }
    }

    /// What `invert` returns.
    pub open spec fn spec_invert(self) -> int {
        if self.value() > 0 {
            self.value() - 64
        } else if self.value() < 0 {
            self.value() + 64
        } else {
            0
        }
    }

    /// Is this component within the restricted motion vector range
    /// `[-range, range)`?
    pub fn is_mv_within_range(self, range: HalfPel) -> (r: bool)
        ensures
            r == (-range.value() <= self.value() < range.value()),
    {
        -(range.0 as i32) <= self.0 as i32 && (self.0 as i32) < range.0 as i32
    }

    /// Is this component within the predictor range `(-range, range]`?
    pub fn is_predictor_within_range(self, range: HalfPel) -> (r: bool)
        ensures
            r == (-range.value() < self.value() <= range.value()),
    {
        -(range.0 as i32) < self.0 as i32 && (self.0 as i32) <= range.0 as i32
    }

    /// What `average_sum_of_mvs` returns: the sum of four motion vector
    /// components, divided by eight and rounded to half-pel accuracy by
    /// the fraction table `{0,1,2 -> 0; 14,15 -> +2; else -> +1}`.
    pub open spec fn spec_average_sum(self) -> int {
        let whole = 2 * (self.value() / 16);
        let frac = self.value() % 16;
        if frac <= 2 {
            whole
        } else if frac >= 14 {
            whole + 2
        } else {
            whole + 1
        }
    }

    /// Given the sum of four motion vector components, divide by eight and
    /// round per the table of H.263 6.1.1.
    pub fn average_sum_of_mvs(self) -> (r: Self)
        ensures
            r.value() == self.spec_average_sum(),
    {
        let v: i16 = self.0;
        let whole = (v >> 4u16) << 1u16;
        let frac = v & 0x0F;
        proof {
            assert(whole as int == 2 * (v as int / 16) && frac as int == v as int % 16 && 0 <= frac
                < 16 && i16::MIN <= 2 * (v as int / 16) < i16::MAX - 2) by (bit_vector)
                requires
                    whole == (v >> 4u16) << 1u16 && frac == v & 0x0F,
            ;
        }
        if frac <= 2 {
            HalfPel(whole)
        } else if frac >= 14 {
            HalfPel(whole + 2)
        } else {
            HalfPel(whole + 1)
        }
    }

    /// What `median_of` returns: the middle value of three.
    pub open spec fn spec_median(a: int, b: int, c: int) -> int {
        if a <= b {
            if b <= c {
                b
            } else if a <= c {
                c
            } else {
                a
            }
        } else {
            if a <= c {
                a
            } else if b <= c {
                c
            } else {
                b
            }
        }
    }

    /// Given this and two other values, the median value of the three.
    pub fn median_of(self, mhs: Self, rhs: Self) -> (r: Self)
        ensures
            r.value() == Self::spec_median(self.value(), mhs.value(), rhs.value()),
    {
        if self.0 > mhs.0 {
            if rhs.0 > mhs.0 {
                if rhs.0 > self.0 {
                    self
                } else {
                    rhs
                }
            } else {
                mhs
            }
        } else if mhs.0 > rhs.0 {
            if rhs.0 > self.0 {
                rhs
            } else {
                self
            }
        } else {
            mhs
        }
    }
}

/// The median of three half-pel components does not depend on the order of
/// its arguments, and the median of `(a, a, b)` is `a`.
pub proof fn lemma_median_symmetric(a: int, b: int, c: int)
    ensures
        HalfPel::spec_median(a, b, c) == HalfPel::spec_median(a, c, b),
        HalfPel::spec_median(a, b, c) == HalfPel::spec_median(b, a, c),
        HalfPel::spec_median(a, b, c) == HalfPel::spec_median(b, c, a),
        HalfPel::spec_median(a, b, c) == HalfPel::spec_median(c, a, b),
        HalfPel::spec_median(a, b, c) == HalfPel::spec_median(c, b, a),
        HalfPel::spec_median(a, a, b) == a,
{
}

/// Rounding the sum of four equal components `4 * v` halves `v` to chroma
/// scale: the result is `2 * (v / 4)`, plus one when `v` is not a multiple
/// of four.
pub proof fn lemma_average_of_equal_mvs(v: int)
    requires
        -8192 <= v < 8192,
    ensures
        HalfPel(((4 * v) as i16)).spec_average_sum() == 2 * (v / 4) + (
        if v % 4 == 0 {
            0int
        } else {
            1int
        }),
{
    let s = 4 * v;
    assert(HalfPel((s as i16)).value() == s);
    vstd::arithmetic::div_mod::lemma_fundamental_div_mod(v, 4);
    assert(s == 16 * (v / 4) + 4 * (v % 4)) by (nonlinear_arith)
        requires
            s == 4 * v && v == 4 * (v / 4) + v % 4,
    ;
    assert(0 <= v % 4 < 4);
    vstd::arithmetic::div_mod::lemma_fundamental_div_mod_converse(s, 16, v / 4, 4 * (v % 4));
}

/// A motion vector consisting of X and Y components.
#[derive(Copy, Clone, Debug, PartialEq, Eq, Structural)]
pub struct MotionVector(pub HalfPel, pub HalfPel);

impl MotionVector {
    /// The zero vector.
    pub fn zero() -> (r: Self)
        ensures
            r.0.value() == 0 && r.1.value() == 0,
    {
        MotionVector(HalfPel(0), HalfPel(0))
    }

    /// Build a vector from its two components.
    pub fn from_components(x: HalfPel, y: HalfPel) -> (r: Self)
        ensures
            r.0 == x && r.1 == y,
    {
        MotionVector(x, y)
    }

    /// The two components of the vector.
    pub fn into_components(self) -> (r: (HalfPel, HalfPel))
        ensures
            r.0 == self.0 && r.1 == self.1,
    {
        (self.0, self.1)
    }

    /// The component-wise sum of two vectors.
    pub fn plus(self, rhs: Self) -> (r: Self)
        requires
            i16::MIN <= self.0.value() + rhs.0.value() <= i16::MAX,
            i16::MIN <= self.1.value() + rhs.1.value() <= i16::MAX,
        ensures
            r.0.value() == self.0.value() + rhs.0.value(),
            r.1.value() == self.1.value() + rhs.1.value(),
    {
        MotionVector(self.0.plus(rhs.0), self.1.plus(rhs.1))
    }

    /// The lerp parameters of both components.
    pub fn into_lerp_parameters(self) -> (r: ((i16, bool), (i16, bool)))
        ensures
            r.0.0 as int == self.0.value() / 2,
            r.0.1 == (self.0.value() % 2 != 0),
            r.1.0 as int == self.1.value() / 2,
            r.1.1 == (self.1.value() % 2 != 0),
    {
        (self.0.into_lerp_parameters(), self.1.into_lerp_parameters())
    }

    /// Divide the sum of four vectors by eight, rounding each component per
    /// the table of H.263 6.1.1.
    pub fn average_sum_of_mvs(self) -> (r: Self)
        ensures
            r.0.value() == self.0.spec_average_sum(),
            r.1.value() == self.1.spec_average_sum(),
    {
        MotionVector(self.0.average_sum_of_mvs(), self.1.average_sum_of_mvs())
    }

    /// The component-wise median of three vectors.
    pub fn median_of(self, mhs: Self, rhs: Self) -> (r: Self)
        ensures
            r.0.value() == HalfPel::spec_median(self.0.value(), mhs.0.value(), rhs.0.value()),
            r.1.value() == HalfPel::spec_median(self.1.value(), mhs.1.value(), rhs.1.value()),
    {
        MotionVector(self.0.median_of(mhs.0, rhs.0), self.1.median_of(mhs.1, rhs.1))
    }
}

/// ITU-T Recommendation H.263 (01/2005) 5.4.1 `INTRADC`
///
/// The DC coefficient for intra blocks, coded as a fixed-length code.
#[derive(Copy, Clone, Debug, PartialEq, Eq, Structural)]
pub struct IntraDc(u8);

impl IntraDc {
    /// The raw fixed-length code held by this value.
    pub closed spec fn code(self) -> int {
        self.0 as int
    }

    /// What `into_level` returns for a code: `1024` for the code `255`,
    /// otherwise eight times the code.
    pub closed spec fn spec_level(self) -> int {
        if self.0 == 255 {
            1024
        } else {
            8 * (self.0 as int)
        }
    }

    /// Convert a fixed-level code into an `IntraDc` value.
    ///
    /// Yields `None` for the values that are not valid fixed-length codes
    /// per Table 15/H.263, namely 0 and 128.
    pub fn from_u8(value: u8) -> (r: Option<Self>)
        ensures
            value == 0 || value == 128 ==> r is None,
            value != 0 && value != 128 ==> (r matches Option::Some(dc) && dc.code() == value as int),
    {
        if value == 0 || value == 128 {
            None
        } else {
            Some(IntraDc(value))
        }
    }

    /// Convert a reconstruction level into an `IntraDc` value.
    ///
    /// Yields `None` for out-of-range or otherwise unrepresentable level
    /// constants: a valid level is a multiple of 8 in `[8, 2032]`.
    pub fn from_level(value: u16) -> (r: Option<Self>)
        ensures
            (value % 8 != 0 || value > 2032 || value < 8) ==> r is None,
            (value % 8 == 0 && 8 <= value <= 2032) ==> (r matches Option::Some(dc)
                && dc.spec_level() == (if value == 1024 { 1024int } else { value as int })),
    {
        if (value & 0x07) != 0 || value > 2032 || value < 8 {
            proof {
                assert(value & 0x07 == value % 8) by (bit_vector);
            }
            return None;
        }
        proof {
            assert(value & 0x07 == value % 8) by (bit_vector);
        }
        if value == 1024 {
            return Some(IntraDc(0xFF));
        }
        assert(value as int == 8 * (value as int / 8) + value as int % 8) by {
            vstd::arithmetic::div_mod::lemma_fundamental_div_mod(value as int, 8);
        }
        assert(value / 8 <= 254);
        Some(IntraDc((value / 8) as u8))
    }

    /// Retrieve the reconstruction level of the DC component.
    pub fn into_level(self) -> (r: i16)
        ensures
            r as int == self.spec_level(),
    {
        let c: u8 = self.0;
        if c == 0xFF {
            1024
        } else {
            proof {
                assert((c as i16) << 3u16 == 8 * (c as i16)) by (bit_vector)
                    requires
                        c != 0xFF,
                ;
            }
            (c as i16) << 3u16
        }
    }
}

/// For every `IntraDc` holding a valid fixed-length code (not 0 and not
/// 128), the reconstruction level is a multiple of 8 in `[8, 2032]`, and
/// the code 255 maps to the level 1024. The codes 0 and 128 are rejected
/// by `from_u8`.
pub proof fn lemma_intradc_levels(dc: IntraDc)
    requires
        dc.code() != 0,
        dc.code() != 128,
    ensures
        dc.spec_level() % 8 == 0,
        8 <= dc.spec_level() <= 2032,
        dc.code() == 255 ==> dc.spec_level() == 1024,
        dc.code() != 255 ==> dc.spec_level() == 8 * dc.code(),
{
}

/// ITU-T Recommendation H.263 (01/2005) 5.4.2 `TCOEF`
///
/// An IDCT coefficient stored in quantized, run-length encoded format.
/// Trailing zeroes are not coded; decoders pad the decompressed block data
/// with zeroes.
#[derive(Copy, Clone, Debug, PartialEq, Eq, Structural)]
pub struct TCoefficient {
    /// Whether the `TCOEF` was encoded using the shorter variable-length
    /// code for coefficients.
    pub is_short: bool,

    /// The number of zero coefficients preceding this one.
    pub run: u8,

    /// The non-zero value at the end of the current run.
    pub level: i16,
}

/// ITU-T Recommendation H.263 (01/2005) 5.4 "Block layer"
///
/// A block is the most basic unit of picture coding: a DC component for
/// INTRA blocks, plus the remaining coefficients stored as `TCOEF` events.
#[derive(Clone, Debug, PartialEq, Eq)]
pub struct Block {
    /// The DC component of the block, if present.
    pub intradc: Option<IntraDc>,

    /// All remaining block coefficients.
    pub tcoef: Vec<TCoefficient>,
}

/// ITU-T Recommendation H.263 (01/2005), 5.3 Macroblock layer
#[derive(Clone, Debug)]
pub enum Macroblock {
    /// A macroblock that isn't coded: it is replaced with its reference
    /// picture data. Only valid outside of I-pictures.
    Uncoded,

    /// Non-coding bits inserted to avoid a run of 16 consecutive zeroes.
    Stuffing,

    /// A coded macroblock containing picture data.
    Coded {
        /// The type of macroblock sent.
        mb_type: MacroblockType,

        /// The blocks within the macroblock that contain non-DC
        /// components.
        coded_block_pattern: CodedBlockPattern,

        /// The blocks that correspond to the B component of a PB frame.
        coded_block_pattern_b: Option<CodedBlockPattern>,

        /// ITU-T Recommendation H.263 (01/2005) 5.3.6 `DQUANT`.
        d_quantizer: Option<i8>,

        /// ITU-T Recommendation H.263 (01/2005) 5.3.7 `MVD`.
        motion_vector: Option<MotionVector>,

        /// ITU-T Recommendation H.263 (01/2005) 5.3.8 `MVD2-4`.
        addl_motion_vectors: Option<[MotionVector; 3]>,

        /// ITU-T Recommendation H.263 (01/2005) 5.3.9 `MVDB`.
        motion_vectors_b: Option<[MotionVector; 4]>,
    },
}

impl Macroblock {
    /// The macroblock type of this macroblock, or `None` for uncoded and
    /// stuffing macroblocks.
    pub fn macroblock_type(&self) -> (r: Option<MacroblockType>)
        ensures
            match self {
                Macroblock::Coded { mb_type, .. } => r == Some(*mb_type),
                _ => r is None,
            },
    {
        match self {
            Macroblock::Uncoded => None,
            Macroblock::Stuffing => None,
            Macroblock::Coded { mb_type, .. } => Some(*mb_type),
        }
    }
}

} // verus!
