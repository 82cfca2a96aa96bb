//! The decoder state machine: reference-picture bookkeeping, option
//! carry-forward, and the per-picture decode pipeline up to the inverse
//! transform.

use crate::block::decode_block;
use crate::decoded::DecodedPicture;
use crate::error::Error;
use crate::gather::gather;
use crate::gob::decode_gob;
use crate::macroblock::decode_macroblock;
use crate::mvd_pred::{mv_decode, predict_candidate};
use crate::picture::decode_picture;
use crate::reader::H263Reader;
use crate::rle::{inverse_rle, DecodedDctBlock};
use crate::types::{
    DecoderOption, Macroblock, MacroblockType, MotionVector, Picture, PictureOption,
    PictureTypeCode, SourceFormat, MPPTYPE_OPTIONS, OPPTYPE_OPTIONS, SORENSON_SPARK_BITSTREAM,
};
use std::collections::HashMap;
use vstd::prelude::*;

verus! {

/// A picture decoded as far as the verified integer pipeline can take it:
/// the prediction planes are filled in, and the dequantised coefficient
/// blocks await the inverse transform of their AC content.
pub struct PendingPicture {
    /// The picture, with motion-compensated prediction already gathered
    /// into its planes.
    pub picture: DecodedPicture,

    /// The in-force picture options that the picture was decoded with,
    /// for carrying forward on commit.
    pub running_options: PictureOption,

    /// The dequantised luma coefficient blocks, `2 * mb_per_line` to a
    /// row.
    pub luma_levels: Vec<DecodedDctBlock>,

    /// The dequantised blue-difference blocks, `mb_per_line` to a row.
    pub chroma_b_levels: Vec<DecodedDctBlock>,

    /// The dequantised red-difference blocks, `mb_per_line` to a row.
    pub chroma_r_levels: Vec<DecodedDctBlock>,

    /// The macroblock count per row of the picture.
    pub mb_per_line: usize,
}

/// All state necessary to decode a successive series of H.263 pictures.
pub struct H263State {
    /// External decoder options enabled on this decoder.
    decoder_options: DecoderOption,

    /// The temporal reference of the last decoded picture, or `None`
    /// before any has been decoded.
    last_picture: Option<u16>,

    /// The temporal reference of the implicit reference picture for the
    /// next decode; disposable frames do not update it.
    reference_picture: Option<u16>,

    /// All currently in-force picture options as of the last decoded
    /// frame.
    running_options: PictureOption,

    /// The previously decoded reference pictures, keyed by temporal
    /// reference.
    reference_states: HashMap<u16, DecodedPicture>,
}

impl H263State {
    /// The decoder options this state was created with.
    pub closed spec fn spec_decoder_options(self) -> DecoderOption {
        self.decoder_options
    }

    /// The temporal reference of the last decoded picture.
    pub closed spec fn spec_last_picture(self) -> Option<u16> {
        self.last_picture
    }

    /// The temporal reference of the reference picture.
    pub closed spec fn spec_reference_picture(self) -> Option<u16> {
        self.reference_picture
    }

    /// The picture options in force as of the last committed picture.
    pub closed spec fn spec_running_options(self) -> PictureOption {
        self.running_options
    }

    /// The retained picture map.
    pub closed spec fn spec_states(self) -> Map<u16, DecodedPicture> {
        self.reference_states@
    }

    /// The retention rule of the reference map: every retained picture is
    /// keyed by the last or the reference temporal reference (so the map
    /// holds at most two entries), and every retained picture is
    /// well-formed.
    pub open spec fn wf(self) -> bool {
        forall|k: u16|
            #[trigger] self.spec_states().contains_key(k) ==> ((self.spec_last_picture()
                == Some(k) || self.spec_reference_picture() == Some(k)) && self.spec_states()[
                k
            ].wf())
    }

    /// Construct a new decoder state.
    pub fn new(decoder_options: DecoderOption) -> (r: Self)
        ensures
            r.wf(),
            r.spec_decoder_options() == decoder_options,
            r.spec_last_picture() is None,
            r.spec_reference_picture() is None,
            r.spec_states() == Map::<u16, DecodedPicture>::empty(),
    {
        let r = H263State {
            decoder_options,
            last_picture: None,
            reference_picture: None,
            running_options: PictureOption::empty(),
            reference_states: HashMap::new(),
        };
        proof {
            assert(r.spec_states() =~= Map::<u16, DecodedPicture>::empty());
        }
        r
    }

    /// Is this decoder in Sorenson Spark mode?
    pub fn is_sorenson(&self) -> (r: bool)
        ensures
            r == (self.spec_decoder_options().bits & SORENSON_SPARK_BITSTREAM
                == SORENSON_SPARK_BITSTREAM),
    {
        self.decoder_options.contains(SORENSON_SPARK_BITSTREAM)
    }

    /// The last picture decoded in the bitstream, if any has been and it
    /// is still retained.
    pub fn get_last_picture(&self) -> (r: Option<&DecodedPicture>)
        requires
            self.wf(),
        ensures
            match r {
                Some(p) => self.spec_last_picture() matches Some(k) && self.spec_states().contains_key(
                    k,
                ) && *p == self.spec_states()[k],
                None => match self.spec_last_picture() {
                    Some(k) => !self.spec_states().contains_key(k),
                    None => true,
                },
            },
    {
        match self.last_picture {
            None => None,
            Some(tr) => self.reference_states.get(&tr),
        }
    }

    /// The implicit reference picture for the next decode, if one is
    /// retained.
    pub fn get_reference_picture(&self) -> (r: Option<&DecodedPicture>)
        requires
            self.wf(),
        ensures
            match r {
                Some(p) => self.spec_reference_picture() matches Some(k) && self.spec_states().contains_key(
                    k,
                ) && *p == self.spec_states()[k],
                None => match self.spec_reference_picture() {
                    Some(k) => !self.spec_states().contains_key(k),
                    None => true,
                },
            },
    {
        match self.reference_picture {
            None => None,
            Some(tr) => self.reference_states.get(&tr),
        }
    }

    /// Drop every retained picture that is neither the last nor the
    /// reference picture, re-establishing the retention rule.
    pub fn cleanup_buffers(&mut self)
        requires
            forall|k: u16|
                #[trigger] old(self).spec_states().contains_key(k) ==> old(self).spec_states()[
                    k
                ].wf(),
        ensures
            final(self).wf(),
            final(self).spec_decoder_options() == old(self).spec_decoder_options(),
            final(self).spec_last_picture() == old(self).spec_last_picture(),
            final(self).spec_reference_picture() == old(self).spec_reference_picture(),
            forall|k: u16|
                #[trigger] final(self).spec_states().contains_key(k) ==> old(self).spec_states().contains_key(k) && final(self).spec_states()[k] == old(self).spec_states()[k],
            forall|k: u16|
                (#[trigger] old(self).spec_states().contains_key(k) && (old(self).spec_last_picture() == Some(k) || old(self).spec_reference_picture() == Some(k)))
                    ==> final(self).spec_states().contains_key(k),
    {
        let last_entry: Option<(u16, DecodedPicture)> = match self.last_picture {
            Some(tr) => match self.reference_states.remove(&tr) {
                Some(p) => Some((tr, p)),
                None => None,
            },
            None => None,
        };
        let reference_entry: Option<(u16, DecodedPicture)> = match self.reference_picture {
            Some(tr) => match self.reference_states.remove(&tr) {
                Some(p) => Some((tr, p)),
                None => None,
            },
            None => None,
        };
        proof {
            assert(vstd::std_specs::hash::obeys_key_model::<u16>());
            assert(match last_entry {
                Some((k, p)) => old(self).spec_states().contains_key(k) && p == old(
                    self,
                ).spec_states()[k],
                None => true,
            });
        }
        self.reference_states = HashMap::new();
        proof {
            assert(self.spec_states() =~= Map::<u16, DecodedPicture>::empty());
        }
        if let Some((k, p)) = last_entry {
            self.reference_states.insert(k, p);
        }
        if let Some((k, p)) = reference_entry {
            self.reference_states.insert(k, p);
        }
    }

    /// Record a fully reconstructed picture: clear the reference on
    /// I-frames, advance the last and (for non-disposable pictures)
    /// reference temporal references, retain the picture, drop everything
    /// else, carry the in-force options forward, and commit the reader's
    /// consumed bytes.
    pub fn commit_picture(
        &mut self,
        reader: &mut H263Reader,
        picture: DecodedPicture,
        running_options: PictureOption,
    )
        requires
            old(self).wf(),
            old(reader).wf(),
            picture.wf(),
        ensures
            final(self).wf(),
            final(reader).wf(),
            final(self).spec_decoder_options() == old(self).spec_decoder_options(),
            final(self).spec_last_picture() == Some(picture.spec_header().temporal_reference),
            final(self).spec_states().contains_key(picture.spec_header().temporal_reference),
            final(self).spec_states()[picture.spec_header().temporal_reference] == picture,
            !picture.spec_header().picture_type.is_disposable_spec() ==> final(self).spec_reference_picture() == Some(picture.spec_header().temporal_reference),
            // A disposable picture is never predicted from: it leaves the
            // reference where it was.
            picture.spec_header().picture_type.is_disposable_spec() ==> final(self).spec_reference_picture() == old(self).spec_reference_picture(),
            final(self).spec_running_options() == running_options,
    {
        let is_iframe = matches!(picture.as_header().picture_type, PictureTypeCode::IFrame);
        if is_iframe {
            // You cannot backwards predict across I-frames.
            self.reference_picture = None;
        }
        let this_tr = picture.as_header().temporal_reference;
        self.last_picture = Some(this_tr);
        if !picture.as_header().picture_type.is_disposable() {
            self.reference_picture = Some(this_tr);
        }
        proof {
            assert(vstd::std_specs::hash::obeys_key_model::<u16>());
        }
        self.reference_states.insert(this_tr, picture);
        proof {
            assert(self.spec_states().contains_key(this_tr));
            assert forall|k: u16| #[trigger] self.spec_states().contains_key(k) implies
                self.spec_states()[k].wf() by {
                if k != this_tr {
                    assert(old(self).spec_states().contains_key(k));
                }
            }
        }
        self.cleanup_buffers();
        self.running_options = running_options;
        reader.commit();
    }
}



/// The effective in-force options for a picture, per the carry-forward
/// rule: an `OPPTYPE` refreshes everything; a bare `PLUSPTYPE` keeps the
/// previous `OPPTYPE` options; a plain `PTYPE` keeps the previous
/// `OPPTYPE` and `MPPTYPE` options.
pub open spec fn merged_running_options(header: Picture, previous: PictureOption) -> PictureOption {
    if header.has_plusptype && header.has_opptype {
        header.options
    } else if header.has_plusptype {
        PictureOption {
            bits: (header.options.bits & !OPPTYPE_OPTIONS) | (previous.bits & OPPTYPE_OPTIONS),
        }
    } else {
        PictureOption {
            bits: (header.options.bits & !OPPTYPE_OPTIONS & !MPPTYPE_OPTIONS) | (previous.bits & (
            OPPTYPE_OPTIONS | MPPTYPE_OPTIONS)),
        }
    }
}

/// The shape guarantees of a picture decoded up to the inverse
/// transform: plane geometry in whole macroblocks, and one coefficient
/// block per 8x8 tile of each plane.
pub open spec fn pending_picture_consistent(p: PendingPicture) -> bool {
    &&& p.picture.wf()
    &&& 1 <= p.mb_per_line <= 1024
    &&& p.picture.spec_luma_width() == 16 * p.mb_per_line
    &&& p.picture.spec_chroma_width() == 8 * p.mb_per_line
    &&& p.luma_levels@.len() * 64 == p.picture.spec_luma().len()
    &&& p.chroma_b_levels@.len() * 64 == p.picture.spec_chroma_b().len()
    &&& p.chroma_r_levels@.len() == p.chroma_b_levels@.len()
    &&& p.luma_levels@.len() <= 0x1000000
    &&& p.chroma_b_levels@.len() <= 0x1000000
}

/// A vector of `n` empty coefficient blocks.
fn zero_blocks(n: usize) -> (r: Vec<DecodedDctBlock>)
    ensures
        r@.len() == n,
{
    let mut v: Vec<DecodedDctBlock> = Vec::new();
    let mut i: usize = 0;
    while i < n
        invariant
            i <= n,
            v@.len() == i,
        decreases n - i,
    {
        v.push(DecodedDctBlock::Zero);
        i += 1;
    }
    v
}

impl H263State {
    /// Decode the next picture in the bitstream as far as the integer
    /// pipeline reaches: parse the picture header, resolve the format and
    /// the options in force, parse every macroblock with motion vector
    /// prediction and per-block inverse run-length expansion, recover
    /// from macroblock errors at GOB boundaries, and gather the
    /// motion-compensated prediction. The remaining step before the
    /// picture can be committed is the inverse transform of the returned
    /// coefficient blocks.
    ///
    /// On any error the reader is rolled back to where it started, and
    /// the decoder state is untouched (this method never changes it).
    #[verifier::rlimit(100)]
    pub fn begin_picture_decode(&self, reader: &mut H263Reader) -> (r: Result<
        PendingPicture,
        Error,
    >)
        requires
            self.wf(),
            old(reader).wf(),
        ensures
            final(reader).wf(),
            final(reader).bytes() == old(reader).bytes(),
            match r {
                Ok(p) => pending_picture_consistent(p) && p.running_options
                    == merged_running_options(
                    p.picture.spec_header(),
                    self.spec_running_options(),
                ),
                Err(_) => final(reader).pos() == old(reader).pos(),
            },
            // A successfully decoded picture never carries the reserved
            // source format, and its dimensions are positive.
            match r {
                Ok(p) => p.picture.spec_format().spec_width_and_height() matches Some(d) && d.0
                    >= 1 && d.1 >= 1,
                Err(_) => true,
            },
            // A first start code in the stuffing window that opens a group
            // of blocks (nonzero group number) is the middle of the
            // bitstream, not a picture.
            (self.spec_decoder_options().bits & SORENSON_SPARK_BITSTREAM
                != SORENSON_SPARK_BITSTREAM && crate::reader::window_opens_gob(
                old(reader).bytes(),
                old(reader).pos() as int,
                ((8 - old(reader).pos() % 8) % 8) as int,
                old(reader).total_bits() as int,
            )) ==> r == Result::<PendingPicture, Error>::Err(Error::MiddleOfBitstream),
    {
        let cp = reader.checkpoint();
        match self.begin_picture_decode_inner(reader) {
            Ok(p) => Ok(p),
            Err(e) => {
                reader.restore(cp);
                Err(e)
            },
        }
    }

    /// The body of `begin_picture_decode`, without the rollback on
    /// failure.
    #[verifier::rlimit(100)]
    fn begin_picture_decode_inner(&self, reader: &mut H263Reader) -> (r: Result<
        PendingPicture,
        Error,
    >)
        requires
            self.wf(),
            old(reader).wf(),
        ensures
            final(reader).wf(),
            final(reader).bytes() == old(reader).bytes(),
            match r {
                Ok(p) => pending_picture_consistent(p) && p.running_options
                    == merged_running_options(
                    p.picture.spec_header(),
                    self.spec_running_options(),
                ),
                Err(_) => true,
            },
            // A successfully decoded picture never carries the reserved
            // source format, and its dimensions are positive.
            match r {
                Ok(p) => p.picture.spec_format().spec_width_and_height() matches Some(d) && d.0
                    >= 1 && d.1 >= 1,
                Err(_) => true,
            },
            // A first start code in the stuffing window that opens a group
            // of blocks (nonzero group number) is the middle of the
            // bitstream, not a picture.
            (self.spec_decoder_options().bits & SORENSON_SPARK_BITSTREAM
                != SORENSON_SPARK_BITSTREAM && crate::reader::window_opens_gob(
                old(reader).bytes(),
                old(reader).pos() as int,
                ((8 - old(reader).pos() % 8) % 8) as int,
                old(reader).total_bits() as int,
            )) ==> r == Result::<PendingPicture, Error>::Err(Error::MiddleOfBitstream),
    {
        let prev_header: Option<&Picture> = match self.get_last_picture() {
            Some(p) => Some(p.as_header()),
            None => None,
        };
        let ghost not_gob = self.spec_decoder_options().bits & SORENSON_SPARK_BITSTREAM
            == SORENSON_SPARK_BITSTREAM || !crate::reader::window_opens_gob(
            old(reader).bytes(),
            old(reader).pos() as int,
            ((8 - old(reader).pos() % 8) % 8) as int,
            old(reader).total_bits() as int,
        );
        let next_picture = match decode_picture(reader, self.decoder_options, prev_header) {
            Ok(Some(p)) => p,
            Ok(None) => {
                return Err(Error::MiddleOfBitstream);
            },
            Err(e) => {
                return Err(e);
            },
        };
        proof {
            // A picture parsed here, so the window's first start code did
            // not open a group of blocks.
            assert(not_gob);
        }
        let next_running_options: PictureOption = if next_picture.has_plusptype
            && next_picture.has_opptype {
            next_picture.options
        } else if next_picture.has_plusptype {
            PictureOption::from_bits(
                (next_picture.options.bits & !OPPTYPE_OPTIONS) | (self.running_options.bits
                    & OPPTYPE_OPTIONS),
            )
        } else {
            PictureOption::from_bits(
                (next_picture.options.bits & !OPPTYPE_OPTIONS & !MPPTYPE_OPTIONS)
                    | (self.running_options.bits & (OPPTYPE_OPTIONS | MPPTYPE_OPTIONS)),
            )
        };
        let format: SourceFormat = match next_picture.format {
            Some(f) => f,
            None => {
                if matches!(next_picture.picture_type, PictureTypeCode::IFrame) {
                    return Err(Error::PictureFormatMissing);
                }
                match self.get_last_picture() {
                    Some(p) => p.format(),
                    None => {
                        return Err(Error::PictureFormatMissing);
                    },
                }
            },
        };
        let (width, height) = match format.into_width_and_height() {
            Some(d) => d,
            None => {
                return Err(Error::PictureFormatInvalid);
            },
        };
        if width == 0 || height == 0 {
            return Err(Error::PictureFormatInvalid);
        }
        let mb_per_line = (width as usize + 15) / 16;
        let mb_height = (height as usize + 15) / 16;
        // Pictures beyond 1024 macroblocks a side (16384 pixels, past
        // every standard format and reachable only through the
        // sixteen-bit custom sizes) are rejected rather than allocated.
        if mb_per_line > 1024 || mb_height > 1024 {
            return Err(Error::PictureFormatInvalid);
        }
        proof {
            assert(1 <= mb_per_line <= 1024);
            assert(1 <= mb_height <= 1024);
            assert(mb_per_line * mb_height <= 1048576 && (2 * mb_per_line) * (2 * mb_height)
                <= 4194304) by (nonlinear_arith)
                requires
                    1 <= mb_per_line <= 1024 && 1 <= mb_height <= 1024,
            ;
        }
        let dimensions = (mb_per_line * 16, mb_height * 16);
        let mb_total = mb_per_line * mb_height;
        let mut in_force_quantizer: u8 = if next_picture.quantizer == 0 {
            1
        } else {
            next_picture.quantizer
        };
        if in_force_quantizer > 31 {
            in_force_quantizer = 31;
        }
        let mut next_decoded_picture = DecodedPicture::new(next_picture, format, dimensions);
        proof {
            lemma_picture_geometry(mb_per_line as int, mb_height as int);
            next_decoded_picture.lemma_plane_views();
        }
        let luma_block_count = (2 * mb_per_line) * (2 * mb_height);
        let chroma_block_count = mb_per_line * mb_height;
        let mut luma_levels = zero_blocks(luma_block_count);
        let mut chroma_b_levels = zero_blocks(chroma_block_count);
        let mut chroma_r_levels = zero_blocks(chroma_block_count);
        let mut macroblock_types: Vec<MacroblockType> = Vec::new();
        let mut mvs: Vec<[MotionVector; 4]> = Vec::new();
        let mut window: Vec<[MotionVector; 4]> = Vec::new();
        let cap = reader.available_bits() + mb_total + 1;
        let mut iters: usize = 0;
        while iters < cap && macroblock_types.len() < mb_total
            invariant
                not_gob == (self.spec_decoder_options().bits & SORENSON_SPARK_BITSTREAM
                    == SORENSON_SPARK_BITSTREAM || !crate::reader::window_opens_gob(
                    old(reader).bytes(),
                    old(reader).pos() as int,
                    ((8 - old(reader).pos() % 8) % 8) as int,
                    old(reader).total_bits() as int,
                )),
                not_gob,
                self.wf(),
                reader.wf(),
                reader.bytes() == old(reader).bytes(),
                iters <= cap,
                1 <= mb_per_line <= 1024,
                1 <= mb_height <= 1024,
                mb_total == mb_per_line * mb_height,
                mb_total <= 1048576,
                cap <= 0x80000000 + 0x100001 + mb_total,
                1 <= in_force_quantizer <= 31,
                next_decoded_picture.wf(),
                next_decoded_picture.spec_luma_width() == 16 * mb_per_line,
                next_decoded_picture.spec_chroma_width() == 8 * mb_per_line,
                next_decoded_picture.spec_luma().len() == (16 * mb_per_line) * (16 * mb_height),
                next_decoded_picture.spec_chroma_b().len() == (8 * mb_per_line) * (8 * mb_height),
                next_decoded_picture.spec_chroma_r().len() == (8 * mb_per_line) * (8 * mb_height),
                luma_levels@.len() == (2 * mb_per_line) * (2 * mb_height),
                chroma_b_levels@.len() == mb_per_line * mb_height,
                chroma_r_levels@.len() == mb_per_line * mb_height,
                macroblock_types@.len() == mvs@.len(),
                macroblock_types@.len() <= mb_total,
                window@.len() <= macroblock_types@.len(),
                forall|k: int, b: int|
                    0 <= k < mvs@.len() && 0 <= b < 4 ==> crate::mvd_pred::mv_bounded(
                        #[trigger] mvs@[k]@[b],
                        4097,
                    ),
                forall|k: int, b: int|
                    0 <= k < window@.len() && 0 <= b < 4 ==> crate::mvd_pred::mv_bounded(
                        #[trigger] window@[k]@[b],
                        4097,
                    ),
            decreases cap - iters,
        {
            iters += 1;
            let mb = decode_macroblock(
                reader,
                next_decoded_picture.as_header(),
                next_running_options,
            );
            let mb_count = macroblock_types.len();
            proof {
                lemma_mb_layout(mb_count as int, mb_per_line as int, mb_height as int);
            }
            let pos = ((mb_count % mb_per_line) * 16, (mb_count / mb_per_line) * 16);
            let mut motion_vectors: [MotionVector; 4] = [
                MotionVector::zero(),
                MotionVector::zero(),
                MotionVector::zero(),
                MotionVector::zero(),
            ];
            let mb_type: MacroblockType = match mb {
                Ok(Macroblock::Stuffing) => {
                    continue ;
                },
                Ok(Macroblock::Uncoded) => {
                    if matches!(
                        next_decoded_picture.as_header().picture_type,
                        PictureTypeCode::IFrame
                    ) {
                        return Err(Error::UncodedIFrameBlocks);
                    }
                    MacroblockType::Inter
                },
                Ok(
                    Macroblock::Coded {
                        mb_type,
                        coded_block_pattern,
                        coded_block_pattern_b: _,
                        d_quantizer,
                        motion_vector,
                        addl_motion_vectors,
                        motion_vectors_b: _,
                    },
                ) => {
                    let quantizer: i16 = in_force_quantizer as i16 + (match d_quantizer {
                        Some(d) => d as i16,
                        None => 0,
                    });
                    in_force_quantizer = crate::types::clamp_i16(quantizer, 1, 31) as u8;
                    if mb_type.is_inter() {
                        let mv1 = match motion_vector {
                            Some(mv) => mv,
                            None => MotionVector::zero(),
                        };
                        proof {
                            assert forall|b: int| 0 <= b < 4 implies crate::mvd_pred::mv_bounded(
                                #[trigger] motion_vectors@[b],
                                4097,
                            ) by {}
                        }
                        let mpred1 = predict_candidate(&window, &motion_vectors, mb_per_line, 0);
                        proof {
                            lemma_window_median_bounded(window@, motion_vectors, mb_per_line
                                as int, 0);
                        }
                        let decoded1 = mv_decode(
                            &next_decoded_picture,
                            next_running_options,
                            mpred1,
                            mv1,
                        );
                        if !mv_small(decoded1) {
                            return Err(Error::InvalidMvd);
                        }
                        motion_vectors[0] = decoded1;
                        match addl_motion_vectors {
                            Some(addl) => {
                                proof {
                                    assert forall|b: int| 0 <= b < 4 implies
                                        crate::mvd_pred::mv_bounded(
                                        #[trigger] motion_vectors@[b],
                                        4097,
                                    ) by {}
                                }
                                let mpred2 = predict_candidate(
                                    &window,
                                    &motion_vectors,
                                    mb_per_line,
                                    1,
                                );
                                proof {
                                    lemma_window_median_bounded(window@, motion_vectors,
                                        mb_per_line as int, 1);
                                }
                                let decoded2 = mv_decode(
                                    &next_decoded_picture,
                                    next_running_options,
                                    mpred2,
                                    addl[0],
                                );
                                if !mv_small(decoded2) {
                                    return Err(Error::InvalidMvd);
                                }
                                motion_vectors[1] = decoded2;
                                proof {
                                    assert forall|b: int| 0 <= b < 4 implies
                                        crate::mvd_pred::mv_bounded(
                                        #[trigger] motion_vectors@[b],
                                        4097,
                                    ) by {}
                                }
                                let mpred3 = predict_candidate(
                                    &window,
                                    &motion_vectors,
                                    mb_per_line,
                                    2,
                                );
                                proof {
                                    lemma_window_median_bounded(window@, motion_vectors,
                                        mb_per_line as int, 2);
                                }
                                let decoded3 = mv_decode(
                                    &next_decoded_picture,
                                    next_running_options,
                                    mpred3,
                                    addl[1],
                                );
                                if !mv_small(decoded3) {
                                    return Err(Error::InvalidMvd);
                                }
                                motion_vectors[2] = decoded3;
                                proof {
                                    assert forall|b: int| 0 <= b < 4 implies
                                        crate::mvd_pred::mv_bounded(
                                        #[trigger] motion_vectors@[b],
                                        4097,
                                    ) by {}
                                }
                                let mpred4 = predict_candidate(
                                    &window,
                                    &motion_vectors,
                                    mb_per_line,
                                    3,
                                );
                                proof {
                                    lemma_window_median_bounded(window@, motion_vectors,
                                        mb_per_line as int, 3);
                                }
                                let decoded4 = mv_decode(
                                    &next_decoded_picture,
                                    next_running_options,
                                    mpred4,
                                    addl[2],
                                );
                                if !mv_small(decoded4) {
                                    return Err(Error::InvalidMvd);
                                }
                                motion_vectors[3] = decoded4;
                            },
                            None => {
                                motion_vectors[1] = decoded1;
                                motion_vectors[2] = decoded1;
                                motion_vectors[3] = decoded1;
                            },
                        }
                    }
                    let mut block_index: usize = 0;
                    while block_index < 6
                        invariant
                            not_gob == (self.spec_decoder_options().bits
                                & SORENSON_SPARK_BITSTREAM == SORENSON_SPARK_BITSTREAM
                                || !crate::reader::window_opens_gob(
                                old(reader).bytes(),
                                old(reader).pos() as int,
                                ((8 - old(reader).pos() % 8) % 8) as int,
                                old(reader).total_bits() as int,
                            )),
                            not_gob,
                            reader.wf(),
                            reader.bytes() == old(reader).bytes(),
                            block_index <= 6,
                            1 <= in_force_quantizer <= 31,
                            1 <= mb_per_line <= 1024,
                            1 <= mb_height <= 1024,
                            luma_levels@.len() == (2 * mb_per_line) * (2 * mb_height),
                            chroma_b_levels@.len() == mb_per_line * mb_height,
                            chroma_r_levels@.len() == mb_per_line * mb_height,
                            pos.0 == (mb_count % mb_per_line) * 16,
                            pos.1 == (mb_count / mb_per_line) * 16,
                            mb_count < mb_per_line * mb_height,
                            next_decoded_picture.wf(),
                        decreases 6 - block_index,
                    {
                        let coded: bool = if block_index == 0 {
                            coded_block_pattern.codes_luma[0]
                        } else if block_index == 1 {
                            coded_block_pattern.codes_luma[1]
                        } else if block_index == 2 {
                            coded_block_pattern.codes_luma[2]
                        } else if block_index == 3 {
                            coded_block_pattern.codes_luma[3]
                        } else if block_index == 4 {
                            coded_block_pattern.codes_chroma_b
                        } else {
                            coded_block_pattern.codes_chroma_r
                        };
                        let block = match decode_block(
                            reader,
                            next_running_options,
                            mb_type,
                            coded,
                        ) {
                            Ok(b) => b,
                            Err(e) => {
                                return Err(e);
                            },
                        };
                        proof {
                            lemma_mb_layout(
                                mb_count as int,
                                mb_per_line as int,
                                mb_height as int,
                            );
                        }
                        if block_index == 0 {
                            inverse_rle(
                                &block,
                                &mut luma_levels,
                                pos,
                                2 * mb_per_line,
                                in_force_quantizer,
                            );
                        } else if block_index == 1 {
                            inverse_rle(
                                &block,
                                &mut luma_levels,
                                (pos.0 + 8, pos.1),
                                2 * mb_per_line,
                                in_force_quantizer,
                            );
                        } else if block_index == 2 {
                            inverse_rle(
                                &block,
                                &mut luma_levels,
                                (pos.0, pos.1 + 8),
                                2 * mb_per_line,
                                in_force_quantizer,
                            );
                        } else if block_index == 3 {
                            inverse_rle(
                                &block,
                                &mut luma_levels,
                                (pos.0 + 8, pos.1 + 8),
                                2 * mb_per_line,
                                in_force_quantizer,
                            );
                        } else if block_index == 4 {
                            inverse_rle(
                                &block,
                                &mut chroma_b_levels,
                                (pos.0 / 2, pos.1 / 2),
                                mb_per_line,
                                in_force_quantizer,
                            );
                        } else {
                            inverse_rle(
                                &block,
                                &mut chroma_r_levels,
                                (pos.0 / 2, pos.1 / 2),
                                mb_per_line,
                                in_force_quantizer,
                            );
                        }
                        block_index += 1;
                    }
                    mb_type
                },
                Err(e) => {
                    if e.is_macroblock_error() && !self.is_sorenson() {
                        match decode_gob(reader, self.decoder_options) {
                            // Resynchronised to the end of the picture.
                            Ok(None) => {
                                break ;
                            },
                            // Resynchronised to the end of a GOB.
                            Ok(Some(gob)) => {
                                in_force_quantizer = if gob.quantizer == 0 {
                                    1
                                } else {
                                    gob.quantizer
                                };
                                if in_force_quantizer > 31 {
                                    in_force_quantizer = 31;
                                }
                                window = Vec::new();
                                continue ;
                            },
                            // EOF or GOB errors end the picture.
                            Err(inner) => {
                                if inner.is_eof_error() || inner.is_gob_error() {
                                    break ;
                                }
                                return Err(inner);
                            },
                        }
                    } else if e.is_eof_error() {
                        break ;
                    } else {
                        return Err(e);
                    }
                },
            };
            macroblock_types.push(mb_type);
            mvs.push(motion_vectors);
            window.push(motion_vectors);
        }
        // All macroblock and block data is read; gather the prediction.
        let reference_ok: bool = match self.get_reference_picture() {
            Some(rp) => rp.as_luma().len() == next_decoded_picture.as_luma().len()
                && rp.luma_samples_per_row() == next_decoded_picture.luma_samples_per_row()
                && rp.as_chroma_b().len() == next_decoded_picture.as_chroma_b().len()
                && rp.as_chroma_r().len() == next_decoded_picture.as_chroma_r().len()
                && rp.chroma_samples_per_row() == next_decoded_picture.chroma_samples_per_row(),
            None => false,
        };
        proof {
            lemma_gather_geometry(mb_per_line as int, mb_height as int, macroblock_types@.len()
                as int);
        }
        let gather_result = if reference_ok {
            gather(
                &macroblock_types,
                self.get_reference_picture(),
                &mvs,
                mb_per_line,
                &mut next_decoded_picture,
            )
        } else {
            gather(&macroblock_types, None, &mvs, mb_per_line, &mut next_decoded_picture)
        };
        match gather_result {
            Ok(()) => {},
            Err(e) => {
                return Err(e);
            },
        }
        proof {
            lemma_pending_geometry(mb_per_line as int, mb_height as int);
        }
        Ok(
            PendingPicture {
                picture: next_decoded_picture,
                running_options: next_running_options,
                luma_levels,
                chroma_b_levels,
                chroma_r_levels,
                mb_per_line,
            },
        )
    }
}

/// Whether both components of a decoded motion vector lie strictly
/// within 4096 half-pel units, the widest range any picture size allows.
fn mv_small(mv: MotionVector) -> (r: bool)
    ensures
        r == crate::mvd_pred::mv_bounded(mv, 4097),
{
    -4097 < mv.0.0 && mv.0.0 < 4097 && -4097 < mv.1.0 && mv.1.0 < 4097
}

/// The candidate predictors for a block are entries of the decoded
/// window, of the current macroblock, or zero, so their component-wise
/// median stays inside the decoded component bound.
proof fn lemma_window_median_bounded(
    window: Seq<[MotionVector; 4]>,
    cur: [MotionVector; 4],
    mb_per_line: int,
    index: int,
)
    requires
        mb_per_line >= 1,
        0 <= index < 4,
        forall|k: int, b: int|
            0 <= k < window.len() && 0 <= b < 4 ==> crate::mvd_pred::mv_bounded(
                #[trigger] window[k]@[b],
                4097,
            ),
        forall|b: int|
            0 <= b < 4 ==> crate::mvd_pred::mv_bounded(#[trigger] cur@[b], 4097),
    ensures
        ({
            let mv1 = crate::mvd_pred::spec_mv1(window, cur, mb_per_line, index);
            let mv2 = crate::mvd_pred::spec_mv2(window, cur, mb_per_line, index, mv1);
            let mv3 = crate::mvd_pred::spec_mv3(window, cur, mb_per_line, index, mv1);
            -4097 < crate::types::HalfPel::spec_median(
                mv1.0.value(),
                mv2.0.value(),
                mv3.0.value(),
            ) < 4097 && -4097 < crate::types::HalfPel::spec_median(
                mv1.1.value(),
                mv2.1.value(),
                mv3.1.value(),
            ) < 4097
        }),
{
    let mv1 = crate::mvd_pred::spec_mv1(window, cur, mb_per_line, index);
    let mv2 = crate::mvd_pred::spec_mv2(window, cur, mb_per_line, index, mv1);
    let mv3 = crate::mvd_pred::spec_mv3(window, cur, mb_per_line, index, mv1);
    assert(crate::mvd_pred::mv_bounded(mv1, 4097)) by {
        if index == 0 || index == 2 {
            if window.len() % mb_per_line as nat != 0 {
                assert(window.len() > 0) by {
                    if window.len() == 0 {
                        vstd::arithmetic::div_mod::lemma_small_mod(0, mb_per_line as nat);
                    }
                }
                assert(crate::mvd_pred::mv_bounded(window[window.len() - 1]@[index + 1], 4097));
            }
        } else {
            assert(crate::mvd_pred::mv_bounded(cur@[index - 1], 4097));
        }
    }
    assert(crate::mvd_pred::mv_bounded(mv2, 4097)) by {
        lemma_candidate_lookup_bounded(window, cur, mb_per_line, index);
    }
    assert(crate::mvd_pred::mv_bounded(mv3, 4097)) by {
        lemma_candidate_lookup_bounded(window, cur, mb_per_line, index);
    }
}

/// Every candidate lookup used by the second and third predictors is a
/// window entry, a current entry, or a fallback already in hand.
proof fn lemma_candidate_lookup_bounded(
    window: Seq<[MotionVector; 4]>,
    cur: [MotionVector; 4],
    mb_per_line: int,
    index: int,
)
    requires
        mb_per_line >= 1,
        0 <= index < 4,
        forall|k: int, b: int|
            0 <= k < window.len() && 0 <= b < 4 ==> crate::mvd_pred::mv_bounded(
                #[trigger] window[k]@[b],
                4097,
            ),
        forall|b: int|
            0 <= b < 4 ==> crate::mvd_pred::mv_bounded(#[trigger] cur@[b], 4097),
    ensures
        ({
            let mv1 = crate::mvd_pred::spec_mv1(window, cur, mb_per_line, index);
            crate::mvd_pred::mv_bounded(mv1, 4097) ==> (crate::mvd_pred::mv_bounded(
                crate::mvd_pred::spec_mv2(window, cur, mb_per_line, index, mv1),
                4097,
            ) && crate::mvd_pred::mv_bounded(
                crate::mvd_pred::spec_mv3(window, cur, mb_per_line, index, mv1),
                4097,
            ))
        }),
{
    let mv1 = crate::mvd_pred::spec_mv1(window, cur, mb_per_line, index);
    if crate::mvd_pred::mv_bounded(mv1, 4097) {
        let line = window.len() as int / mb_per_line;
        let col = window.len() % mb_per_line as nat;
        let last_line_mb = (if line >= 1 {
            line - 1
        } else {
            0
        }) * mb_per_line + col;
        if index == 0 || index == 1 {
            if line != 0 && 0 <= last_line_mb < window.len() {
                assert(crate::mvd_pred::mv_bounded(window[last_line_mb]@[index + 2], 4097));
            }
            if 0 <= last_line_mb + 1 < window.len() {
                assert(crate::mvd_pred::mv_bounded(window[last_line_mb + 1]@[2], 4097));
            }
        } else {
            assert(crate::mvd_pred::mv_bounded(cur@[0], 4097));
            assert(crate::mvd_pred::mv_bounded(cur@[1], 4097));
        }
    }
}

/// The luma and chroma planes of a macroblock-aligned picture measure
/// exact multiples of the macroblock grid.
proof fn lemma_picture_geometry(mbl: int, mbh: int)
    requires
        1 <= mbl <= 1024,
        1 <= mbh <= 1024,
    ensures
        (16 * mbl + 1) / 2 == 8 * mbl,
        (16 * mbh + 1) / 2 == 8 * mbh,
        (16 * mbl) * (16 * mbh) <= 0x10000000,
{
    vstd::arithmetic::div_mod::lemma_fundamental_div_mod_converse(16 * mbl + 1, 2, 8 * mbl, 1);
    vstd::arithmetic::div_mod::lemma_fundamental_div_mod_converse(16 * mbh + 1, 2, 8 * mbh, 1);
    assert((16 * mbl) * (16 * mbh) <= 16384 * 16384) by (nonlinear_arith)
        requires
            1 <= mbl <= 1024 && 1 <= mbh <= 1024,
    ;
}

/// Position arithmetic for the macroblock at index `count` of the grid.
proof fn lemma_mb_layout(count: int, mbl: int, mbh: int)
    requires
        1 <= mbl <= 1024,
        1 <= mbh <= 1024,
        0 <= count < mbl * mbh,
    ensures
        0 <= count % mbl < mbl,
        0 <= count / mbl < mbh,
        ((count % mbl) * 16) % 8 == 0,
        ((count / mbl) * 16) % 8 == 0,
        ((count % mbl) * 16) / 8 == (count % mbl) * 2,
        ((count / mbl) * 16) / 8 == (count / mbl) * 2,
        ((count % mbl) * 16 + 8) % 8 == 0,
        ((count / mbl) * 16 + 8) % 8 == 0,
        ((count % mbl) * 16 + 8) / 8 == (count % mbl) * 2 + 1,
        ((count / mbl) * 16 + 8) / 8 == (count / mbl) * 2 + 1,
        ((count % mbl) * 16) / 2 == (count % mbl) * 8,
        ((count / mbl) * 16) / 2 == (count / mbl) * 8,
        ((count % mbl) * 8) % 8 == 0,
        ((count / mbl) * 8) % 8 == 0,
        ((count % mbl) * 8) / 8 == count % mbl,
        ((count / mbl) * 8) / 8 == count / mbl,
        (count % mbl) * 2 + 1 < 2 * mbl,
        (count % mbl) * 2 + ((count / mbl) * 2) * (2 * mbl) < (2 * mbl) * (2 * mbh),
        (count % mbl) * 2 + 1 + ((count / mbl) * 2) * (2 * mbl) < (2 * mbl) * (2 * mbh),
        (count % mbl) * 2 + ((count / mbl) * 2 + 1) * (2 * mbl) < (2 * mbl) * (2 * mbh),
        (count % mbl) * 2 + 1 + ((count / mbl) * 2 + 1) * (2 * mbl) < (2 * mbl) * (2 * mbh),
        (count % mbl) + (count / mbl) * mbl < mbl * mbh,
{
    vstd::arithmetic::div_mod::lemma_fundamental_div_mod(count, mbl);
    let c = count % mbl;
    let l = count / mbl;
    assert(0 <= c < mbl);
    assert(0 <= l < mbh) by (nonlinear_arith)
        requires
            count == mbl * l + c && 0 <= c < mbl && 0 <= count < mbl * mbh,
    ;
    vstd::arithmetic::div_mod::lemma_fundamental_div_mod_converse(c * 16, 8, c * 2, 0);
    vstd::arithmetic::div_mod::lemma_fundamental_div_mod_converse(l * 16, 8, l * 2, 0);
    vstd::arithmetic::div_mod::lemma_fundamental_div_mod_converse(c * 16 + 8, 8, c * 2 + 1, 0);
    vstd::arithmetic::div_mod::lemma_fundamental_div_mod_converse(l * 16 + 8, 8, l * 2 + 1, 0);
    vstd::arithmetic::div_mod::lemma_fundamental_div_mod_converse(c * 16, 2, c * 8, 0);
    vstd::arithmetic::div_mod::lemma_fundamental_div_mod_converse(l * 16, 2, l * 8, 0);
    vstd::arithmetic::div_mod::lemma_fundamental_div_mod_converse(c * 8, 8, c, 0);
    vstd::arithmetic::div_mod::lemma_fundamental_div_mod_converse(l * 8, 8, l, 0);
    assert(c * 2 + 1 < 2 * mbl) by (nonlinear_arith)
        requires
            0 <= c < mbl,
    ;
    assert(c * 2 + (l * 2) * (2 * mbl) < (2 * mbl) * (2 * mbh) && c * 2 + 1 + (l * 2) * (2 * mbl)
        < (2 * mbl) * (2 * mbh) && c * 2 + (l * 2 + 1) * (2 * mbl) < (2 * mbl) * (2 * mbh) && c
        * 2 + 1 + (l * 2 + 1) * (2 * mbl) < (2 * mbl) * (2 * mbh)) by (nonlinear_arith)
        requires
            0 <= c < mbl && 0 <= l < mbh && 1 <= mbl && 1 <= mbh,
    ;
    assert(c + l * mbl < mbl * mbh) by (nonlinear_arith)
        requires
            0 <= c < mbl && 0 <= l < mbh && 1 <= mbl,
    ;
}

/// Geometry facts the gather step needs about a macroblock-aligned
/// picture.
proof fn lemma_gather_geometry(mbl: int, mbh: int, n: int)
    requires
        1 <= mbl <= 1024,
        1 <= mbh <= 1024,
        0 <= n <= mbl * mbh,
    ensures
        n * 256 <= (16 * mbl) * (16 * mbh),
        ((8 * mbl) * (8 * mbh)) * 4 == (16 * mbl) * (16 * mbh),
        (16 * mbl) * (16 * mbh) > 0,
        (8 * mbl) * (8 * mbh) > 0,
{
    assert((16 * mbl) * (16 * mbh) > 0 && (8 * mbl) * (8 * mbh) > 0) by (nonlinear_arith)
        requires
            1 <= mbl && 1 <= mbh,
    ;
    assert(n * 256 <= (mbl * mbh) * 256) by (nonlinear_arith)
        requires
            0 <= n <= mbl * mbh,
    ;
    assert((mbl * mbh) * 256 == (16 * mbl) * (16 * mbh)) by (nonlinear_arith);
    assert(((8 * mbl) * (8 * mbh)) * 4 == (16 * mbl) * (16 * mbh)) by (nonlinear_arith);
}

/// The block-count and plane-size relations of the pending picture.
proof fn lemma_pending_geometry(mbl: int, mbh: int)
    requires
        1 <= mbl <= 1024,
        1 <= mbh <= 1024,
    ensures
        ((2 * mbl) * (2 * mbh)) * 64 == (16 * mbl) * (16 * mbh),
        (mbl * mbh) * 64 == (8 * mbl) * (8 * mbh),
        (2 * mbl) * (2 * mbh) <= 0x1000000,
        mbl * mbh <= 0x1000000,
{
    assert(((2 * mbl) * (2 * mbh)) * 64 == (16 * mbl) * (16 * mbh)) by (nonlinear_arith);
    assert((mbl * mbh) * 64 == (8 * mbl) * (8 * mbh)) by (nonlinear_arith);
    assert((2 * mbl) * (2 * mbh) <= 0x1000000) by (nonlinear_arith)
        requires
            1 <= mbl <= 1024 && 1 <= mbh <= 1024,
    ;
    assert(mbl * mbh <= 0x1000000) by (nonlinear_arith)
        requires
            1 <= mbl <= 1024 && 1 <= mbh <= 1024,
    ;
}


/// Apply the inverse transform's integer stages to a pending picture:
/// the empty and DC-only coefficient blocks are reconstructed here, and
/// the blocks with AC content add the clipped residual vectors the host
/// computed from exactly those coefficient levels (one vector of 64
/// values per coefficient block, in block order).
pub fn apply_idct_residuals(
    pending: &mut PendingPicture,
    luma_residuals: &Vec<Vec<i16>>,
    chroma_b_residuals: &Vec<Vec<i16>>,
    chroma_r_residuals: &Vec<Vec<i16>>,
) -> (r: Result<(), Error>)
    requires
        pending_picture_consistent(*old(pending)),
        luma_residuals@.len() == old(pending).luma_levels@.len(),
        chroma_b_residuals@.len() == old(pending).chroma_b_levels@.len(),
        chroma_r_residuals@.len() == old(pending).chroma_r_levels@.len(),
    ensures
        pending_picture_consistent(*final(pending)),
        final(pending).running_options == old(pending).running_options,
        final(pending).picture.spec_header() == old(pending).picture.spec_header(),
        final(pending).mb_per_line == old(pending).mb_per_line,
        final(pending).luma_levels@ == old(pending).luma_levels@,
        final(pending).chroma_b_levels@ == old(pending).chroma_b_levels@,
        final(pending).chroma_r_levels@ == old(pending).chroma_r_levels@,
        // Success comes exactly when every channel's coefficient blocks
        // and residual vectors are fit for the write-back.
        r is Ok <==> (crate::idct::residuals_valid(
            old(pending).luma_levels@,
            luma_residuals@.map_values(|v: Vec<i16>| v@),
        ) && crate::idct::residuals_valid(
            old(pending).chroma_b_levels@,
            chroma_b_residuals@.map_values(|v: Vec<i16>| v@),
        ) && crate::idct::residuals_valid(
            old(pending).chroma_r_levels@,
            chroma_r_residuals@.map_values(|v: Vec<i16>| v@),
        )),
        r is Err ==> r == Result::<(), Error>::Err(Error::InternalDecoderError),
        // On success every sample of every plane is the integer
        // reconstruction of its owning coefficient block on top of the
        // gathered prediction.
        r is Ok ==> (forall|i: int|
            0 <= i < old(pending).picture.spec_luma().len()
                ==> #[trigger] final(pending).picture.spec_luma()[i] == crate::idct::idct_cell(
                old(pending).picture.spec_luma(),
                old(pending).luma_levels@,
                luma_residuals@.map_values(|v: Vec<i16>| v@),
                2 * old(pending).mb_per_line as int,
                i,
            )),
        r is Ok ==> (forall|i: int|
            0 <= i < old(pending).picture.spec_chroma_b().len()
                ==> #[trigger] final(pending).picture.spec_chroma_b()[i]
                == crate::idct::idct_cell(
                old(pending).picture.spec_chroma_b(),
                old(pending).chroma_b_levels@,
                chroma_b_residuals@.map_values(|v: Vec<i16>| v@),
                old(pending).mb_per_line as int,
                i,
            )),
        r is Ok ==> (forall|i: int|
            0 <= i < old(pending).picture.spec_chroma_r().len()
                ==> #[trigger] final(pending).picture.spec_chroma_r()[i]
                == crate::idct::idct_cell(
                old(pending).picture.spec_chroma_r(),
                old(pending).chroma_r_levels@,
                chroma_r_residuals@.map_values(|v: Vec<i16>| v@),
                old(pending).mb_per_line as int,
                i,
            )),
{
    proof {
        pending.picture.lemma_plane_views();
    }
    let blk_per_line = 2 * pending.mb_per_line;
    match crate::idct::idct_channel(
        &pending.luma_levels,
        luma_residuals,
        &mut pending.picture.luma,
        blk_per_line,
    ) {
        Ok(()) => (),
        Err(e) => {
            proof {
                pending.picture.lemma_plane_views();
            }
            return Err(e);
        },
    }
    proof {
        pending.picture.lemma_plane_views();
    }
    match crate::idct::idct_channel(
        &pending.chroma_b_levels,
        chroma_b_residuals,
        &mut pending.picture.chroma_b,
        pending.mb_per_line,
    ) {
        Ok(()) => (),
        Err(e) => {
            proof {
                pending.picture.lemma_plane_views();
            }
            return Err(e);
        },
    }
    proof {
        pending.picture.lemma_plane_views();
    }
    match crate::idct::idct_channel(
        &pending.chroma_r_levels,
        chroma_r_residuals,
        &mut pending.picture.chroma_r,
        pending.mb_per_line,
    ) {
        Ok(()) => (),
        Err(e) => {
            proof {
                pending.picture.lemma_plane_views();
            }
            return Err(e);
        },
    }
    proof {
        pending.picture.lemma_plane_views();
    }
    Ok(())
}

impl PictureTypeCode {
    /// Spec-level mirror of `is_disposable`.
    pub open spec fn is_disposable_spec(self) -> bool {
        self == PictureTypeCode::DisposablePFrame
    }
}

} // verus!
