//! Variable-length-code tables and their decoding.

use crate::error::Error;
use crate::reader::{stream_bit, stream_value, H263Reader};
use vstd::prelude::*;

verus! {

/// A single entry in a VLC table.
#[derive(Copy, Clone, Debug)]
pub enum Entry<T> {
    /// A successful VLC parse, yielding the contained value.
    End(T),

    /// A fork in the table: read one more bit and continue at the first
    /// index when it is zero, at the second when it is one.
    Fork(usize, usize),
}

/// The outcome of walking a VLC table over a bit sequence, starting at
/// table slot `index` with the cursor at bit `pos`.
pub enum VlcOutcome<T> {
    /// The walk reached a terminal entry: the decoded value, and the bit
    /// position just past the consumed code.
    Value(T, int),

    /// The walk ran past the end of the bit sequence.
    OutOfBits,

    /// The walk left the table or exceeded its fuel: the table is not a
    /// well-formed decision DAG.
    BadTable,
}

/// Walk a VLC table over the bits of `bytes`, one fork per bit. The fuel
/// bounds the number of forks taken; a well-formed table (an acyclic graph
/// of at most `table.len()` slots) never exhausts a fuel of `table.len()`.
pub open spec fn vlc_walk<T>(
    table: Seq<Entry<T>>,
    bytes: Seq<u8>,
    pos: int,
    index: int,
    fuel: nat,
) -> VlcOutcome<T>
    decreases fuel,
{
    if 0 <= index < table.len() {
        match table[index] {
            Entry::End(t) => VlcOutcome::Value(t, pos),
            Entry::Fork(zero, one) => if pos + 1 > bytes.len() * 8 {
                VlcOutcome::OutOfBits
            } else if fuel == 0 {
                VlcOutcome::BadTable
            } else {
                vlc_walk(
                    table,
                    bytes,
                    pos + 1,
                    (if stream_bit(bytes, pos) {
                        one
                    } else {
                        zero
                    }) as int,
                    (fuel - 1) as nat,
                )
            },
        }
    } else {
        VlcOutcome::BadTable
    }
}


/// A successful table walk never moves the cursor backwards.
pub proof fn lemma_vlc_walk_advances<T>(
    table: Seq<Entry<T>>,
    bytes: Seq<u8>,
    pos: int,
    index: int,
    fuel: nat,
)
    ensures
        vlc_walk(table, bytes, pos, index, fuel) matches VlcOutcome::Value(t, p) ==> p >= pos,
    decreases fuel,
{
    if 0 <= index < table.len() {
        match table[index] {
            Entry::End(t) => {
            },
            Entry::Fork(zero, one) => {
                if pos + 1 <= bytes.len() * 8 && fuel > 0 {
                    lemma_vlc_walk_advances(
                        table,
                        bytes,
                        pos + 1,
                        (if stream_bit(bytes, pos) {
                            one
                        } else {
                            zero
                        }) as int,
                        (fuel - 1) as nat,
                    );
                }
            },
        }
    }
}


/// A successful table walk yields a value stored in one of the table's
/// terminal entries.
pub proof fn lemma_vlc_walk_yields_entry<T>(
    table: Seq<Entry<T>>,
    bytes: Seq<u8>,
    pos: int,
    index: int,
    fuel: nat,
)
    ensures
        vlc_walk(table, bytes, pos, index, fuel) matches VlcOutcome::Value(t, p) ==> exists|
            idx: int,
        | 0 <= idx < table.len() && #[trigger] table[idx] == Entry::End(t),
    decreases fuel,
{
    if 0 <= index < table.len() {
        match table[index] {
            Entry::End(t) => {
                assert(table[index] == Entry::End(t));
            },
            Entry::Fork(zero, one) => {
                if pos + 1 <= bytes.len() * 8 && fuel > 0 {
                    lemma_vlc_walk_yields_entry(
                        table,
                        bytes,
                        pos + 1,
                        (if stream_bit(bytes, pos) {
                            one
                        } else {
                            zero
                        }) as int,
                        (fuel - 1) as nat,
                    );
                }
            },
        }
    }
}

impl H263Reader {
    /// Read a variable-length code by walking a flattened decision table
    /// one bit at a time.
    ///
    /// All forks in the table must have valid indices, and the links must
    /// form a directed acyclic graph; an ill-formed table yields
    /// `Error::InternalDecoderError`. When an error is returned, the
    /// position of the bitstream is unspecified, unlike the fixed-length
    /// reads which leave it unchanged on failure.
    pub fn read_vlc<T: Copy>(&mut self, table: &Vec<Entry<T>>) -> (r: Result<T, Error>)
        requires
            old(self).wf(),
        ensures
            final(self).wf(),
            final(self).bytes() == old(self).bytes(),
            match r {
                Ok(t) => vlc_walk(
                    table@,
                    old(self).bytes(),
                    old(self).pos() as int,
                    0,
                    table@.len(),
                ) == VlcOutcome::<T>::Value(t, final(self).pos() as int),
                Err(e) => (e == Error::EndOfStream && vlc_walk(
                    table@,
                    old(self).bytes(),
                    old(self).pos() as int,
                    0,
                    table@.len(),
                ) == VlcOutcome::<T>::OutOfBits) || (e == Error::InternalDecoderError && vlc_walk(
                    table@,
                    old(self).bytes(),
                    old(self).pos() as int,
                    0,
                    table@.len(),
                ) == VlcOutcome::<T>::BadTable),
            },
    {
        let ghost fuel0 = table@.len();
        let mut index: usize = 0;
        let mut steps: usize = 0;
        loop
            invariant
                fuel0 == table@.len(),
                self.wf(),
                self.bytes() == old(self).bytes(),
                steps <= fuel0,
                vlc_walk(table@, old(self).bytes(), old(self).pos() as int, 0, fuel0) == vlc_walk(
                    table@,
                    self.bytes(),
                    self.pos() as int,
                    index as int,
                    (fuel0 - steps) as nat,
                ),
            decreases table@.len() - steps,
        {
            if index >= table.len() {
                return Err(Error::InternalDecoderError);
            }
            let entry = table[index];
            match entry {
                Entry::End(t) => {
                    return Ok(t);
                },
                Entry::Fork(zero, one) => {
                    let ghost pre = *self;
                    let bit = match self.read_bits(1) {
                        Ok(b) => b,
                        Err(_) => {
                            return Err(Error::EndOfStream);
                        },
                    };
                    proof {
                        // The one bit just read is the stream bit at the
                        // previous cursor position.
                        reveal_with_fuel(stream_value, 2);
                        assert(bit == 1 <==> stream_bit(pre.bytes(), pre.pos() as int));
                    }
                    if steps >= table.len() {
                        // The walk has taken as many forks as the table
                        // has slots without terminating: it must revisit a
                        // slot, so the table is not acyclic.
                        return Err(Error::InternalDecoderError);
                    }
                    index = if bit == 1 {
                        one
                    } else {
                        zero
                    };
                    steps = steps + 1;
                },
            }
        }
    }
}

} // verus!
