//! Group-of-blocks headers.

use crate::error::Error;
use crate::reader::{is_start_code_at, stream_value, H263Reader};
use crate::types::{DecoderOption, GroupOfBlocks};
use vstd::prelude::*;

verus! {

/// Attempt to read a GOB record from the bitstream.
///
/// If no valid start code is found at the current position this raises
/// `Error::InvalidGobHeader`. If the start code opens a picture (group
/// number 0) or a slice (group number 15) rather than a GOB, `None` is
/// returned and the reader is left where it started, signalling that the
/// data should be parsed as a picture. GOB payloads themselves are not
/// decoded, so any other group number is an unimplemented feature.
pub fn decode_gob(reader: &mut H263Reader, decoder_options: DecoderOption) -> (r: Result<
    Option<GroupOfBlocks>,
    Error,
>)
    requires
        old(reader).wf(),
    ensures
        final(reader).wf(),
        final(reader).bytes() == old(reader).bytes(),
        match r {
            Ok(None) => final(reader).pos() == old(reader).pos(),
            Ok(Some(g)) => false,
            Err(_) => final(reader).pos() == old(reader).pos(),
        },
        ({
            let bytes = old(reader).bytes();
            let pos = old(reader).pos() as int;
            let window = ((8 - old(reader).pos() % 8) % 8) as int;
            &&& (r == Result::<Option<GroupOfBlocks>, Error>::Err(Error::InvalidGobHeader)
                ==> forall|p: int|
                    pos <= p <= pos + window ==> !(#[trigger] is_start_code_at(bytes, p)))
            &&& (r matches Ok(None) ==> exists|p: int|
                pos <= p <= pos + window && #[trigger] is_start_code_at(bytes, p) && (
                stream_value(bytes, p + 17, 5) == 0 || stream_value(bytes, p + 17, 5) == 15))
            &&& (r == Result::<Option<GroupOfBlocks>, Error>::Err(Error::UnimplementedDecoding)
                ==> exists|p: int|
                    pos <= p <= pos + window && #[trigger] is_start_code_at(bytes, p)
                        && stream_value(bytes, p + 17, 5) != 0 && stream_value(bytes, p + 17, 5)
                        != 15)
            &&& ((pos + window + 17 <= old(reader).total_bits() && (forall|p: int|
                pos <= p <= pos + window ==> !(#[trigger] is_start_code_at(bytes, p)))) ==> r
                == Result::<Option<GroupOfBlocks>, Error>::Err(Error::InvalidGobHeader))
        }),
{
    let cp = reader.checkpoint();
    let r = decode_gob_inner(reader, decoder_options);
    match r {
        Ok(Some(g)) => Ok(Some(g)),
        Ok(None) => {
            reader.restore(cp);
            Ok(None)
        },
        Err(e) => {
            reader.restore(cp);
            Err(e)
        },
    }
}

/// The body of `decode_gob`, without the rollback on `None` or on
/// failure.
fn decode_gob_inner(reader: &mut H263Reader, _decoder_options: DecoderOption) -> (r: Result<
    Option<GroupOfBlocks>,
    Error,
>)
    requires
        old(reader).wf(),
    ensures
        final(reader).wf(),
        final(reader).bytes() == old(reader).bytes(),
        !(r matches Ok(Some(_))),
        ({
            let bytes = old(reader).bytes();
            let pos = old(reader).pos() as int;
            let window = ((8 - old(reader).pos() % 8) % 8) as int;
            &&& (r == Result::<Option<GroupOfBlocks>, Error>::Err(Error::InvalidGobHeader)
                ==> forall|p: int|
                    pos <= p <= pos + window ==> !(#[trigger] is_start_code_at(bytes, p)))
            &&& (r matches Ok(None) ==> exists|p: int|
                pos <= p <= pos + window && #[trigger] is_start_code_at(bytes, p) && (
                stream_value(bytes, p + 17, 5) == 0 || stream_value(bytes, p + 17, 5) == 15))
            &&& (r == Result::<Option<GroupOfBlocks>, Error>::Err(Error::UnimplementedDecoding)
                ==> exists|p: int|
                    pos <= p <= pos + window && #[trigger] is_start_code_at(bytes, p)
                        && stream_value(bytes, p + 17, 5) != 0 && stream_value(bytes, p + 17, 5)
                        != 15)
            &&& ((pos + window + 17 <= old(reader).total_bits() && (forall|p: int|
                pos <= p <= pos + window ==> !(#[trigger] is_start_code_at(bytes, p)))) ==> r
                == Result::<Option<GroupOfBlocks>, Error>::Err(Error::InvalidGobHeader))
        }),
{
    let ghost bytes = old(reader).bytes();
    let ghost pos = old(reader).pos() as int;
    let skipped_bits = match reader.recognize_start_code(false) {
        Ok(Some(k)) => k,
        Ok(None) => {
            return Err(Error::InvalidGobHeader);
        },
        Err(e) => {
            return Err(e);
        },
    };
    proof {
        assert(is_start_code_at(bytes, pos + skipped_bits as int));
    }
    match reader.skip_bits(17 + skipped_bits) {
        Ok(()) => (),
        Err(e) => {
            return Err(e);
        },
    }
    let gob_id = match reader.read_bits(5) {
        Ok(v) => v,
        Err(e) => {
            return Err(e);
        },
    };
    if gob_id == 0 || gob_id == 15 {
        return Ok(None);
    }
    Err(Error::UnimplementedDecoding)
}

} // verus!
