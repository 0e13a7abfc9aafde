//! Reading fixed-width fields from a byte slice without panicking.

use vstd::prelude::*;

use crate::bytes;
use crate::text;

verus! {

/// The reason a [`CheckedSliceReader`] operation could not be completed.
#[derive(Clone, Copy, Debug, PartialEq, Eq, Structural)]
pub enum SliceReadErrorKind {
    /// The requested starting position is outside the input slice.
    PositionOutOfBounds,
    /// Adding the requested length to the current position overflowed `usize`.
    LengthOverflow,
    /// The input ended before the requested field was complete.
    Truncated,
    /// A decoder required complete consumption but bytes remained.
    TrailingBytes,
}

/// Bounds failure returned by [`CheckedSliceReader`].
#[derive(Clone, Copy, Debug, PartialEq, Eq, Structural)]
pub struct SliceReadError {
    pub kind: SliceReadErrorKind,
    pub position: usize,
    pub requested: usize,
    pub remaining: usize,
}

impl SliceReadError {
    /// Classifies the failed operation.
    pub fn kind(self) -> (kind: SliceReadErrorKind)
        ensures
            kind == self.kind,
    {
        self.kind
    }

    /// Returns the byte position at which the operation failed.
    pub fn position(self) -> (position: usize)
        ensures
            position == self.position,
    {
        self.position
    }

    /// Returns the number of bytes requested by the failed operation.
    pub fn requested(self) -> (requested: usize)
        ensures
            requested == self.requested,
    {
        self.requested
    }

    /// Returns the number of bytes available at the failure position.
    pub fn remaining(self) -> (remaining: usize)
        ensures
            remaining == self.remaining,
    {
        self.remaining
    }

    /// The failure in words.
    pub open spec fn words(self) -> Seq<char> {
        let position = text::decimal_text(self.position as nat);
        let requested = text::decimal_text(self.requested as nat);
        let remaining = text::decimal_text(self.remaining as nat);
        match self.kind {
            SliceReadErrorKind::PositionOutOfBounds => "byte position "@ + position
                + " is outside the input"@,
            SliceReadErrorKind::LengthOverflow => "byte range at "@ + position + " with length "@
                + requested + " overflows"@,
            SliceReadErrorKind::Truncated => "byte range at "@ + position + " needs "@ + requested
                + " bytes but only "@ + remaining + " remain"@,
            SliceReadErrorKind::TrailingBytes => remaining
                + " trailing bytes remain at position "@ + position,
        }
    }

    /// Describes the failure in words.
    pub fn message(self) -> (message: String)
        ensures
            message@ == self.words(),
    {
        match self.kind {
            SliceReadErrorKind::PositionOutOfBounds => text::numbered_text(
                "byte position ",
                self.position as u128,
                " is outside the input",
            ),
            SliceReadErrorKind::LengthOverflow => {
                let mut out: String = text::numbered_text(
                    "byte range at ",
                    self.position as u128,
                    " with length ",
                );
                text::push_decimal(&mut out, self.requested as u128);
                out.append(" overflows");
                out
            },
            SliceReadErrorKind::Truncated => {
                let mut out: String = text::numbered_text(
                    "byte range at ",
                    self.position as u128,
                    " needs ",
                );
                text::push_decimal(&mut out, self.requested as u128);
                out.append(" bytes but only ");
                text::push_decimal(&mut out, self.remaining as u128);
                out.append(" remain");
                out
            },
            SliceReadErrorKind::TrailingBytes => {
                let mut out: String = text::decimal_string(self.remaining as u128);
                out.append(" trailing bytes remain at position ");
                text::push_decimal(&mut out, self.position as u128);
                out
            },
        }
    }
}

/// A forward-only reader that makes offset arithmetic and slice access
/// fallible. Its private position is advanced only after a successful read.
#[derive(Debug)]
pub struct CheckedSliceReader<'a> {
    bytes: &'a [u8],
    position: usize,
}

/// The input of a reader and how much of it has been read.
pub struct ReaderView {
    pub bytes: Seq<u8>,
    pub position: nat,
}

impl<'a> View for CheckedSliceReader<'a> {
    type V = ReaderView;

    closed spec fn view(&self) -> ReaderView {
        ReaderView { bytes: self.bytes@, position: self.position as nat }
    }
}

impl ReaderView {
    /// The bytes that have not been read.
    pub open spec fn left(self) -> int {
        self.bytes.len() - self.position
    }

    /// The reader after `len` more bytes.
    pub open spec fn advanced(self, len: nat) -> ReaderView {
        ReaderView { bytes: self.bytes, position: self.position + len }
    }

    /// The next `len` bytes.
    pub open spec fn next(self, len: nat) -> Seq<u8> {
        self.bytes.subrange(self.position as int, (self.position + len) as int)
    }

    /// No more has been read than there is.
    pub open spec fn in_bounds(self) -> bool {
        self.position <= self.bytes.len()
    }

    /// One read leads from this reader to the other: it took some bytes that there were,
    /// or it failed and took none.
    pub open spec fn steps_to(self, after: ReaderView) -> bool {
        after == self || exists|len: nat|
            self.read_error(len) is None && after == #[trigger] self.advanced(len)
    }

    /// Whatever is read, and whether or not it succeeds, a reader stays on its input,
    /// never goes back and never runs past the end.
    pub proof fn reads_go_forward(readers: Seq<ReaderView>, i: int, j: int)
        requires
            0 <= i <= j < readers.len(),
            readers[0].in_bounds(),
            forall|k: int| 0 < k < readers.len() ==> readers[k - 1].steps_to(#[trigger] readers[k]),
        ensures
            readers[j].in_bounds(),
            readers[j].bytes == readers[i].bytes,
            readers[i].position <= readers[j].position,
            readers[j].position + readers[j].left() == readers[j].bytes.len(),
        decreases j,
    {
        if j > 0 {
            assert(readers[j - 1].steps_to(readers[j]));
            if i < j {
                Self::reads_go_forward(readers, i, j - 1);
            } else {
                Self::reads_go_forward(readers, j - 1, j - 1);
            }
        }
    }

    /// Behind the rest of the input there is nothing: to read the rest once more gives no
    /// bytes and changes nothing.
    pub proof fn the_rest_is_read_once(self)
        requires
            self.in_bounds(),
        ensures
            ({
                let after = self.advanced(self.left() as nat);
                &&& self.next(self.left() as nat) == self.bytes.skip(self.position as int)
                &&& after.left() == 0
                &&& after.next(after.left() as nat) == Seq::<u8>::empty()
                &&& after.advanced(after.left() as nat) == after
            }),
    {
        let after = self.advanced(self.left() as nat);
        assert(self.next(self.left() as nat) =~= self.bytes.skip(self.position as int));
        assert(after.next(after.left() as nat) =~= Seq::<u8>::empty());
    }

    /// How a read of `len` bytes fails, if it does.
    pub open spec fn read_error(self, len: nat) -> Option<SliceReadError> {
        let failed = |kind: SliceReadErrorKind|
            SliceReadError {
                kind,
                position: self.position as usize,
                requested: len as usize,
                remaining: self.left() as usize,
            };
        if self.position + len > usize::MAX {
            Some(failed(SliceReadErrorKind::LengthOverflow))
        } else if self.position + len > self.bytes.len() {
            Some(failed(SliceReadErrorKind::Truncated))
        } else {
            None
        }
    }
}

impl<'a> CheckedSliceReader<'a> {
    #[verifier::type_invariant]
    spec fn within_input(self) -> bool {
        self.position <= self.bytes@.len() && self.bytes@.len() <= usize::MAX
    }

    /// Starts reading at the beginning of `bytes`.
    pub fn new(bytes: &'a [u8]) -> (reader: Self)
        ensures
            reader@ == (ReaderView { bytes: bytes@, position: 0 }),
    {
        let len: usize = bytes.len();
        assert(len == bytes@.len());
        CheckedSliceReader { bytes, position: 0 }
    }

    /// Starts reading at `position`, rejecting a position beyond the input.
    pub fn at(bytes: &'a [u8], position: usize) -> (result: Result<Self, SliceReadError>)
        ensures
            match result {
                Ok(reader) => position <= bytes@.len() && reader@ == (ReaderView {
                    bytes: bytes@,
                    position: position as nat,
                }),
                Err(error) => position > bytes@.len() && error == (SliceReadError {
                    kind: SliceReadErrorKind::PositionOutOfBounds,
                    position,
                    requested: 0,
                    remaining: 0,
                }),
            },
    {
        let len: usize = bytes.len();
        if position > len {
            return Err(
                SliceReadError {
                    kind: SliceReadErrorKind::PositionOutOfBounds,
                    position,
                    requested: 0,
                    remaining: 0,
                },
            );
        }
        Ok(CheckedSliceReader { bytes, position })
    }

    /// Returns the current byte position.
    pub fn position(&self) -> (position: usize)
        ensures
            position == self@.position,
            self@.in_bounds(),
    {
        proof {
            use_type_invariant(self);
        }
        self.position
    }

    /// Returns the unconsumed byte count.
    pub fn remaining(&self) -> (remaining: usize)
        ensures
            remaining == self@.left(),
            self@.position + remaining == self@.bytes.len(),
    {
        proof {
            use_type_invariant(self);
        }
        self.bytes.len() - self.position
    }

    /// Reads exactly `len` bytes and advances only on success.
    pub fn take(&mut self, len: usize) -> (result: Result<&'a [u8], SliceReadError>)
        ensures
            match result {
                Ok(taken) => old(self)@.read_error(len as nat) is None && taken@
                    == old(self)@.next(len as nat) && final(self)@ == old(self)@.advanced(
                    len as nat,
                ),
                Err(error) => old(self)@.read_error(len as nat) == Some(error) && final(self)@
                    == old(self)@,
            },
    {
        proof {
            use_type_invariant(&*self);
        }
        let remaining: usize = self.remaining();
        let end: usize = match self.position.checked_add(len) {
            Some(end) => end,
            None => {
                return Err(
                    SliceReadError {
                        kind: SliceReadErrorKind::LengthOverflow,
                        position: self.position,
                        requested: len,
                        remaining,
                    },
                );
            },
        };
        if end > self.bytes.len() {
            return Err(
                SliceReadError {
                    kind: SliceReadErrorKind::Truncated,
                    position: self.position,
                    requested: len,
                    remaining,
                },
            );
        }
        let value: &'a [u8] = vstd::slice::slice_subrange(self.bytes, self.position, end);
        self.position = end;
        Ok(value)
    }

    /// Reads the rest of the input.
    pub fn take_remaining(&mut self) -> (result: Result<&'a [u8], SliceReadError>)
        ensures
            old(self)@.in_bounds(),
            result is Ok,
            result->Ok_0@ == old(self)@.next(old(self)@.left() as nat),
            result->Ok_0@ == old(self)@.bytes.skip(old(self)@.position as int),
            final(self)@ == old(self)@.advanced(old(self)@.left() as nat),
            final(self)@.left() == 0,
    {
        proof {
            use_type_invariant(&*self);
        }
        let remaining: usize = self.remaining();
        proof {
            self@.the_rest_is_read_once();
        }
        self.take(remaining)
    }

    /// Reads one byte.
    pub fn read_u8(&mut self) -> (result: Result<u8, SliceReadError>)
        ensures
            match result {
                Ok(value) => old(self)@.read_error(1) is None && value == old(self)@.next(1)[0]
                    && final(self)@ == old(self)@.advanced(1),
                Err(error) => old(self)@.read_error(1) == Some(error) && final(self)@
                    == old(self)@,
            },
    {
        match self.take(1) {
            Ok(taken) => Ok(taken[0]),
            Err(error) => Err(error),
        }
    }

    /// Reads an exact-size byte array.
    pub fn read_array<const N: usize>(&mut self) -> (result: Result<[u8; N], SliceReadError>)
        ensures
            match result {
                Ok(value) => old(self)@.read_error(N as nat) is None && value@ == old(self)@.next(
                    N as nat,
                ) && final(self)@ == old(self)@.advanced(N as nat),
                Err(error) => old(self)@.read_error(N as nat) == Some(error) && final(self)@
                    == old(self)@,
            },
    {
        match self.take(N) {
            Ok(taken) => Ok(array_of_slice(taken)),
            Err(error) => Err(error),
        }
    }

    /// Reads a little-endian `u16`.
    pub fn read_u16_le(&mut self) -> (result: Result<u16, SliceReadError>)
        ensures
            match result {
                Ok(value) => old(self)@.read_error(2) is None && value == bytes::le_nat(
                    old(self)@.next(2),
                ) && final(self)@ == old(self)@.advanced(2),
                Err(error) => old(self)@.read_error(2) == Some(error) && final(self)@
                    == old(self)@,
            },
    {
        match self.take(2) {
            Ok(taken) => {
                proof {
                    bytes::lemma_pow256();
                    assert(taken@.subrange(0, 2) =~= taken@);
                }
                Ok(bytes::read_le(taken, 0, 2) as u16)
            },
            Err(error) => Err(error),
        }
    }

    /// Reads a big-endian `i16`.
    pub fn read_i16_be(&mut self) -> (result: Result<i16, SliceReadError>)
        ensures
            match result {
                Ok(value) => old(self)@.read_error(2) is None && value == bytes::signed_of(
                    bytes::be_nat(old(self)@.next(2)),
                    0x1_0000,
                ) && final(self)@ == old(self)@.advanced(2),
                Err(error) => old(self)@.read_error(2) == Some(error) && final(self)@
                    == old(self)@,
            },
    {
        match self.take(2) {
            Ok(taken) => {
                proof {
                    bytes::lemma_pow256();
                    assert(taken@.subrange(0, 2) =~= taken@);
                }
                Ok(bytes::i16_of_bits(bytes::read_be(taken, 0, 2) as u16))
            },
            Err(error) => Err(error),
        }
    }

    /// Reads a little-endian `u32`.
    pub fn read_u32_le(&mut self) -> (result: Result<u32, SliceReadError>)
        ensures
            match result {
                Ok(value) => old(self)@.read_error(4) is None && value == bytes::le_nat(
                    old(self)@.next(4),
                ) && final(self)@ == old(self)@.advanced(4),
                Err(error) => old(self)@.read_error(4) == Some(error) && final(self)@
                    == old(self)@,
            },
    {
        match self.take(4) {
            Ok(taken) => {
                proof {
                    bytes::lemma_pow256();
                    assert(taken@.subrange(0, 4) =~= taken@);
                }
                Ok(bytes::read_le(taken, 0, 4) as u32)
            },
            Err(error) => Err(error),
        }
    }

    /// Reads a big-endian `i32`.
    pub fn read_i32_be(&mut self) -> (result: Result<i32, SliceReadError>)
        ensures
            match result {
                Ok(value) => old(self)@.read_error(4) is None && value == bytes::signed_of(
                    bytes::be_nat(old(self)@.next(4)),
                    0x1_0000_0000,
                ) && final(self)@ == old(self)@.advanced(4),
                Err(error) => old(self)@.read_error(4) == Some(error) && final(self)@
                    == old(self)@,
            },
    {
        match self.take(4) {
            Ok(taken) => {
                proof {
                    bytes::lemma_pow256();
                    assert(taken@.subrange(0, 4) =~= taken@);
                }
                Ok(bytes::i32_of_bits(bytes::read_be(taken, 0, 4) as u32))
            },
            Err(error) => Err(error),
        }
    }

    /// Reads a little-endian `u64`.
    pub fn read_u64_le(&mut self) -> (result: Result<u64, SliceReadError>)
        ensures
            match result {
                Ok(value) => old(self)@.read_error(8) is None && value == bytes::le_nat(
                    old(self)@.next(8),
                ) && final(self)@ == old(self)@.advanced(8),
                Err(error) => old(self)@.read_error(8) == Some(error) && final(self)@
                    == old(self)@,
            },
    {
        match self.take(8) {
            Ok(taken) => {
                proof {
                    bytes::lemma_pow256();
                    assert(taken@.subrange(0, 8) =~= taken@);
                }
                Ok(bytes::read_le(taken, 0, 8))
            },
            Err(error) => Err(error),
        }
    }

    /// Requires that the input has been consumed exactly.
    pub fn finish(self) -> (result: Result<(), SliceReadError>)
        ensures
            match result {
                Ok(_) => self@.left() == 0,
                Err(error) => self@.left() > 0 && error == (SliceReadError {
                    kind: SliceReadErrorKind::TrailingBytes,
                    position: self@.position as usize,
                    requested: 0,
                    remaining: self@.left() as usize,
                }),
            },
    {
        let remaining: usize = self.remaining();
        if remaining == 0 {
            Ok(())
        } else {
            Err(
                SliceReadError {
                    kind: SliceReadErrorKind::TrailingBytes,
                    position: self.position,
                    requested: 0,
                    remaining,
                },
            )
        }
    }
}

/// Copies a slice into an array of the same length, through the standard library's
/// `<[u8; N] as TryFrom<&[u8]>>::try_from`, which succeeds where the lengths agree
/// and keeps the bytes.
#[verifier::external_body]
fn array_of_slice<const N: usize>(slice: &[u8]) -> (array: [u8; N])
    requires
        slice@.len() == N,
    ensures
        array@ == slice@,
{
    slice.try_into().unwrap()
}

impl<'a> Clone for CheckedSliceReader<'a> {
    fn clone(&self) -> (copy: Self)
        ensures
            copy@ == self@,
    {
        proof {
            use_type_invariant(self);
        }
        CheckedSliceReader { bytes: self.bytes, position: self.position }
    }
}

} // verus!
