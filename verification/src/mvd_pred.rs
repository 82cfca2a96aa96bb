//! Motion vector differential prediction and decoding: candidate
//! predictors over neighbouring macroblocks, and the sign-flip retry
//! around the restricted component range.

use crate::decoded::DecodedPicture;
use crate::types::{
    HalfPel, MotionVector, MotionVectorRange, PictureOption, EXTENDED_RANGE,
    EXTENDED_RANGE_BEYONDCIF, EXTENDED_RANGE_QUADCIF, EXTENDED_RANGE_SIXTEENCIF, STANDARD_RANGE,
    UNRESTRICTED_MOTION_VECTORS,
};
use vstd::prelude::*;

verus! {

/// Every component of the vector lies strictly within `bound` half-pel
/// units.
pub open spec fn mv_bounded(mv: MotionVector, bound: int) -> bool {
    -bound < mv.0.value() < bound && -bound < mv.1.value() < bound
}

/// The first candidate predictor: the previous vector in decoding order,
/// from the left-neighbour macroblock for the left blocks (zero at the
/// picture's left edge), from this macroblock for the right blocks.
pub open spec fn spec_mv1(
    pv: Seq<[MotionVector; 4]>,
    cur: [MotionVector; 4],
    mb_per_line: int,
    index: int,
) -> MotionVector
    recommends
        mb_per_line >= 1,
        0 <= index < 4,
{
    let col = pv.len() % mb_per_line as nat;
    if index == 0 || index == 2 {
        if col == 0 {
            MotionVector(HalfPel(0), HalfPel(0))
        } else {
            pv[pv.len() - 1]@[index + 1]
        }
    } else {
        cur@[index - 1]
    }
}

/// The second candidate predictor: a block of the macroblock above, or
/// the top blocks of this macroblock for the lower blocks.
pub open spec fn spec_mv2(
    pv: Seq<[MotionVector; 4]>,
    cur: [MotionVector; 4],
    mb_per_line: int,
    index: int,
    mv1: MotionVector,
) -> MotionVector
    recommends
        mb_per_line >= 1,
        0 <= index < 4,
{
    let line = pv.len() as int / mb_per_line;
    let col = pv.len() % mb_per_line as nat;
    let last_line_mb = (if line >= 1 {
        line - 1
    } else {
        0
    }) * mb_per_line + col;
    if index == 0 || index == 1 {
        if line == 0 {
            mv1
        } else if 0 <= last_line_mb < pv.len() {
            pv[last_line_mb]@[index + 2]
        } else {
            mv1
        }
    } else {
        cur@[0]
    }
}

/// The third candidate predictor: block 2 of the macroblock above and to
/// the right, with fallbacks at the edges.
pub open spec fn spec_mv3(
    pv: Seq<[MotionVector; 4]>,
    cur: [MotionVector; 4],
    mb_per_line: int,
    index: int,
    mv1: MotionVector,
) -> MotionVector
    recommends
        mb_per_line >= 1,
        0 <= index < 4,
{
    let line = pv.len() as int / mb_per_line;
    let col = pv.len() % mb_per_line as nat;
    let last_line_mb = (if line >= 1 {
        line - 1
    } else {
        0
    }) * mb_per_line + col;
    if index == 0 || index == 1 {
        if col == mb_per_line - 1 {
            MotionVector(HalfPel(0), HalfPel(0))
        } else if line == 0 {
            mv1
        } else if 0 <= last_line_mb + 1 < pv.len() {
            pv[last_line_mb + 1]@[2]
        } else {
            mv1
        }
    } else {
        cur@[1]
    }
}

/// Produce the candidate motion vector predictor for block `index` of the
/// current macroblock: the component-wise median of the three neighbour
/// candidates. `predictor_vectors` holds the already-decoded vectors of
/// the previous macroblocks since the last resynchronisation, and
/// `current_predictors` those of this macroblock's earlier blocks, which
/// must be decoded in block order.
pub fn predict_candidate(
    predictor_vectors: &Vec<[MotionVector; 4]>,
    current_predictors: &[MotionVector; 4],
    mb_per_line: usize,
    index: usize,
) -> (r: MotionVector)
    requires
        mb_per_line >= 1,
        index < 4,
        predictor_vectors@.len() + 1 < 0x1000000,
    ensures
        ({
            let mv1 = spec_mv1(predictor_vectors@, *current_predictors, mb_per_line as int,
                index as int);
            let mv2 = spec_mv2(predictor_vectors@, *current_predictors, mb_per_line as int,
                index as int, mv1);
            let mv3 = spec_mv3(predictor_vectors@, *current_predictors, mb_per_line as int,
                index as int, mv1);
            r.0.value() == HalfPel::spec_median(mv1.0.value(), mv2.0.value(), mv3.0.value())
                && r.1.value() == HalfPel::spec_median(mv1.1.value(), mv2.1.value(), mv3.1.value())
        }),
{
    let current_mb = predictor_vectors.len();
    let col_index = current_mb % mb_per_line;
    proof {
        if current_mb == 0 {
            vstd::arithmetic::div_mod::lemma_small_mod(0, mb_per_line as nat);
        }
    }
    let mv1_pred: MotionVector = if index == 0 || index == 2 {
        if col_index == 0 {
            MotionVector::zero()
        } else {
            predictor_vectors[current_mb - 1][index + 1]
        }
    } else {
        current_predictors[index - 1]
    };
    let line_index = current_mb / mb_per_line;
    proof {
        vstd::arithmetic::div_mod::lemma_fundamental_div_mod(current_mb as int, mb_per_line as int);
        if line_index >= 1 {
            assert((line_index as int - 1) * mb_per_line as int <= line_index as int
                * mb_per_line as int) by (nonlinear_arith)
                requires
                    mb_per_line as int >= 1,
            ;
            assert(line_index as int * mb_per_line as int <= current_mb as int) by (
            nonlinear_arith)
                requires
                    current_mb as int == mb_per_line as int * (line_index as int) + current_mb
                        as int % mb_per_line as int && current_mb as int % mb_per_line as int
                        >= 0,
            ;
        }
    }
    let last_line_mb = (if line_index >= 1 {
        line_index - 1
    } else {
        0
    }) * mb_per_line + col_index;
    let mv2_pred: MotionVector = if index == 0 || index == 1 {
        if line_index == 0 {
            mv1_pred
        } else if last_line_mb < predictor_vectors.len() {
            predictor_vectors[last_line_mb][index + 2]
        } else {
            mv1_pred
        }
    } else {
        current_predictors[0]
    };
    let mv3_pred: MotionVector = if index == 0 || index == 1 {
        if col_index == mb_per_line - 1 {
            MotionVector::zero()
        } else if line_index == 0 {
            mv1_pred
        } else if last_line_mb + 1 < predictor_vectors.len() {
            predictor_vectors[last_line_mb + 1][2]
        } else {
            mv1_pred
        }
    } else {
        current_predictors[1]
    };
    mv1_pred.median_of(mv2_pred, mv3_pred)
}

/// What `halfpel_decode` returns, given the picture context already
/// reduced to plain values: the decoded component, after the retry with
/// the inverted differential when the straight sum leaves the selected
/// range.
pub open spec fn spec_halfpel_decode(
    umv_no_plusptype: bool,
    umv_extended: bool,
    dims: Option<(u16, u16)>,
    is_x: bool,
    predictor: int,
    mvd: HalfPel,
) -> int {
    let out = mvd.value() + predictor;
    if umv_no_plusptype && -32 <= predictor < 32 {
        out
    } else {
        let range = spec_selected_range(umv_no_plusptype, umv_extended, dims, is_x);
        if -range <= out < range {
            out
        } else {
            mvd.spec_invert() + predictor
        }
    }
}

/// The component range in force: extended under unrestricted motion
/// vectors without `PLUSPTYPE`, picture-size-dependent under the extended
/// range mode, standard otherwise.
pub open spec fn spec_selected_range(
    umv_no_plusptype: bool,
    umv_extended: bool,
    dims: Option<(u16, u16)>,
    is_x: bool,
) -> int {
    if umv_no_plusptype {
        64
    } else if umv_extended {
        match dims {
            Some((w, h)) => if is_x {
                if w <= 352 {
                    64
                } else if w <= 704 {
                    128
                } else if w <= 1408 {
                    256
                } else {
                    512
                }
            } else {
                if h <= 288 {
                    64
                } else if h <= 576 {
                    128
                } else {
                    256
                }
            },
            None => 64,
        }
    } else {
        32
    }
}

/// Decode a single component of a motion vector against its predictor,
/// retrying with the inverted differential when the sum leaves the range
/// in force.
pub fn halfpel_decode(
    current_picture: &DecodedPicture,
    running_options: PictureOption,
    predictor: HalfPel,
    mvd: HalfPel,
    is_x: bool,
) -> (r: HalfPel)
    requires
        -8192 <= predictor.value() <= 8192,
        -8192 <= mvd.value() <= 8192,
    ensures
        ({
            let umv_no_plusptype = running_options.bits & UNRESTRICTED_MOTION_VECTORS
                == UNRESTRICTED_MOTION_VECTORS && !current_picture.spec_header().has_plusptype;
            let umv_extended = running_options.bits & UNRESTRICTED_MOTION_VECTORS
                == UNRESTRICTED_MOTION_VECTORS && current_picture.spec_header().motion_vector_range
                == Some(MotionVectorRange::Extended);
            r.value() == spec_halfpel_decode(
                umv_no_plusptype,
                umv_extended,
                current_picture.spec_format().spec_width_and_height(),
                is_x,
                predictor.value(),
                mvd,
            )
        }),
{
    let mut range: i16 = STANDARD_RANGE;
    let out = mvd.plus(predictor);
    let umv = running_options.contains(UNRESTRICTED_MOTION_VECTORS);
    if umv && !current_picture.as_header().has_plusptype {
        if predictor.is_mv_within_range(HalfPel::from_unit(STANDARD_RANGE)) {
            return out;
        } else {
            range = EXTENDED_RANGE;
        }
    } else if umv && matches!(
        current_picture.as_header().motion_vector_range,
        Some(MotionVectorRange::Extended)
    ) {
        let dims = current_picture.format().into_width_and_height();
        range = match dims {
            Some((w, h)) => if is_x {
                if w <= 352 {
                    EXTENDED_RANGE
                } else if w <= 704 {
                    EXTENDED_RANGE_QUADCIF
                } else if w <= 1408 {
                    EXTENDED_RANGE_SIXTEENCIF
                } else {
                    EXTENDED_RANGE_BEYONDCIF
                }
            } else {
                if h <= 288 {
                    EXTENDED_RANGE
                } else if h <= 576 {
                    EXTENDED_RANGE_QUADCIF
                } else {
                    EXTENDED_RANGE_SIXTEENCIF
                }
            },
            None => EXTENDED_RANGE,
        };
    }
    if !out.is_mv_within_range(HalfPel::from_unit(range)) {
        mvd.invert().plus(predictor)
    } else {
        out
    }
}

/// Given an encoded motion vector and its predictor, produce the decoded,
/// ready-to-use motion vector, one component at a time.
pub fn mv_decode(
    current_picture: &DecodedPicture,
    running_options: PictureOption,
    predictor: MotionVector,
    mvd: MotionVector,
) -> (r: MotionVector)
    requires
        mv_bounded(predictor, 8193),
        mv_bounded(mvd, 8193),
    ensures
        ({
            let umv_no_plusptype = running_options.bits & UNRESTRICTED_MOTION_VECTORS
                == UNRESTRICTED_MOTION_VECTORS && !current_picture.spec_header().has_plusptype;
            let umv_extended = running_options.bits & UNRESTRICTED_MOTION_VECTORS
                == UNRESTRICTED_MOTION_VECTORS && current_picture.spec_header().motion_vector_range
                == Some(MotionVectorRange::Extended);
            let dims = current_picture.spec_format().spec_width_and_height();
            r.0.value() == spec_halfpel_decode(
                umv_no_plusptype,
                umv_extended,
                dims,
                true,
                predictor.0.value(),
                mvd.0,
            ) && r.1.value() == spec_halfpel_decode(
                umv_no_plusptype,
                umv_extended,
                dims,
                false,
                predictor.1.value(),
                mvd.1,
            )
        }),
{
    let (mvx, mvy) = mvd.into_components();
    let (cpx, cpy) = predictor.into_components();
    let out_x = halfpel_decode(current_picture, running_options, cpx, mvx, true);
    let out_y = halfpel_decode(current_picture, running_options, cpy, mvy, false);
    MotionVector::from_components(out_x, out_y)
}

/// For the standard and the first extended component range, a decoded
/// component always lands inside the range: either the straight sum
/// `mvd + predictor` lies in `[-range, range)` and is the result, or the
/// sum with the inverted differential does and is the result. (For the
/// wider picture-size-dependent ranges the 64-unit inversion step is too
/// small to bring every escaping sum back, so the law is stated of the
/// ranges the inversion was built for.)
pub proof fn lemma_halfpel_decode_in_range(predictor: int, mvd: HalfPel, range: int)
    requires
        range == 32 || range == 64,
        -range <= predictor < range,
        -range <= mvd.value() < range,
    ensures
        ({
            let out = mvd.value() + predictor;
            let retry = mvd.spec_invert() + predictor;
            (-range <= out < range) || (-range <= retry < range)
        }),
{
}

} // verus!
