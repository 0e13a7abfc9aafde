//! Checksums and zstd frames.

use vstd::prelude::*;

verus! {

/// The CRC-32 checksum that `crc32fast::hash` computes.
pub uninterp spec fn crc32(bytes: Seq<u8>) -> u32;

/// The frame that `zstd::bulk::compress` makes of some data at some level.
pub uninterp spec fn zstd_frame(data: Seq<u8>, level: i32) -> Seq<u8>;

/// What `zstd::bulk::decompress` makes of a frame, given the number of bytes that it may
/// fill: the data, or the reason why there is none.
pub uninterp spec fn decompressed(frame: Seq<u8>, capacity: nat) -> core::result::Result<
    Seq<u8>,
    Seq<char>,
>;

/// What `zstd::bulk::Decompressor::decompress` makes of a frame with the help of a
/// dictionary, given the number of bytes that it may fill and memory enough to load the
/// dictionary: the data, or the reason why there is none.
pub uninterp spec fn decompressed_with(
    frame: Seq<u8>,
    dictionary: Seq<u8>,
    capacity: nat,
) -> core::result::Result<Seq<u8>, Seq<char>>;

/// The outcome of a call, by the views of what it holds.
pub open spec fn outcome_view(
    outcome: core::result::Result<Vec<u8>, String>,
) -> core::result::Result<Seq<u8>, Seq<char>> {
    match outcome {
        Ok(bytes) => Ok(bytes@),
        Err(reason) => Err(reason@),
    }
}

/// What zstd says where it gets no memory to work in, and also of a dictionary that it
/// cannot load.
pub open spec fn no_memory() -> Seq<char> {
    "Allocation error : not enough memory"@
}

/// The outcome is the given one, or that zstd got no memory to work in.
pub open spec fn is_or_lacks_memory(
    outcome: core::result::Result<Vec<u8>, String>,
    given: core::result::Result<Seq<u8>, Seq<char>>,
) -> bool {
    outcome_view(outcome) == given || (outcome matches Err(reason) && reason@ == no_memory())
}

/// The frame gives back the data to whoever has room for it.
pub open spec fn reads_back(frame: Seq<u8>, data: Seq<u8>) -> bool {
    forall|capacity: nat|
        data.len() <= capacity && fits_buffer(capacity) ==> #[trigger] decompressed(frame, capacity)
            == Ok::<Seq<u8>, Seq<char>>(data)
}

/// The frame gives back the data to whoever has the dictionary and room for the data.
pub open spec fn reads_back_with(frame: Seq<u8>, dictionary: Seq<u8>, data: Seq<u8>) -> bool {
    forall|capacity: nat|
        data.len() <= capacity && fits_buffer(capacity) ==> #[trigger] decompressed_with(
            frame,
            dictionary,
            capacity,
        ) == Ok::<Seq<u8>, Seq<char>>(data)
}

/// The size of the largest frame that data of some length can need, as zstd's
/// `ZSTD_compressBound` has it. A buffer of that size is set aside for each frame.
pub open spec fn frame_bound(len: nat) -> nat {
    len + len / 256 + (if len < 131_072 {
        ((131_072 - len) / 2048) as nat
    } else {
        0
    })
}

/// A buffer of that many bytes is not beyond what a `Vec` can ever hold.
pub open spec fn fits_buffer(len: nat) -> bool {
    len <= isize::MAX
}

/// `crc32fast::hash` is a function of the bytes alone: the checksum has a name.
#[verifier::external_body]
pub(crate) fn checksum(bytes: &[u8]) -> (sum: u32)
    ensures
        sum == crc32(bytes@),
{
    crc32fast::hash(bytes)
}

/// `zstd::bulk::compress` makes a frame that depends on the data and the level alone and
/// that `zstd::bulk::decompress` turns back into the data. The buffer for the frame is
/// as large as any frame can need, so that the call fails only where zstd gets no memory
/// to work in. It panics where the buffer is beyond what a `Vec` can hold.
#[verifier::external_body]
pub(crate) fn compress(data: &[u8], level: i32) -> (result: core::result::Result<Vec<u8>, String>)
    requires
        fits_buffer(frame_bound(data@.len())),
    ensures
        match result {
            Ok(frame) => frame@ == zstd_frame(data@, level) && reads_back(frame@, data@),
            Err(reason) => reason@ == no_memory(),
        },
{
    zstd::bulk::compress(data, level).map_err(|error| error.to_string())
}

/// A call of [`compress`] with that data and level had that outcome.
pub open(crate) spec fn compressing_gave(
    data: Seq<u8>,
    level: i32,
    outcome: core::result::Result<Vec<u8>, String>,
) -> bool {
    exists|slice: &[u8]| slice@ == data && #[trigger] call_ensures(compress, (slice, level), outcome)
}

/// What compressing data at a level comes to: the frame, or no memory to work in.
pub open spec fn is_compressed(
    data: Seq<u8>,
    level: i32,
    outcome: core::result::Result<Vec<u8>, String>,
) -> bool {
    &&& compressing_gave(data, level, outcome)
    &&& match outcome {
        Ok(frame) => frame@ == zstd_frame(data, level) && reads_back(frame@, data),
        Err(reason) => reason@ == no_memory(),
    }
}

/// `zstd::bulk::decompress` is a function of the frame and of the room for the data
/// alone, reasons for failing included: beyond its context, without which it panics, it
/// sets no memory aside while it works. The outcome has a name. The data takes at most
/// the given number of bytes. It panics where the buffer that it sets aside is beyond
/// what a `Vec` can hold.
#[verifier::external_body]
pub(crate) fn decompress(frame: &[u8], capacity: usize) -> (result: core::result::Result<
    Vec<u8>,
    String,
>)
    requires
        fits_buffer(capacity as nat),
    ensures
        outcome_view(result) == decompressed(frame@, capacity as nat),
        result matches Ok(data) ==> data@.len() <= capacity,
{
    zstd::bulk::decompress(frame, capacity).map_err(|error| error.to_string())
}

/// `zstd::bulk::Compressor::compress`, with a dictionary loaded by
/// `zstd::bulk::Compressor::with_dictionary`, makes, where it succeeds, a frame that a
/// decompressor with the same dictionary turns back into the data. Which frame that is
/// may depend on where the dictionary lies in memory, so the frame has no name. The call
/// fails only where zstd gets no memory to work in or cannot load the dictionary, and
/// says the same of both. Which dictionaries it can load is left open. It panics where
/// the buffer that it sets aside is beyond what a `Vec` can hold.
#[verifier::external_body]
pub(crate) fn compress_with(data: &[u8], dictionary: &[u8], level: i32) -> (result:
    core::result::Result<Vec<u8>, String>)
    requires
        fits_buffer(frame_bound(data@.len())),
    ensures
        match result {
            Ok(frame) => reads_back_with(frame@, dictionary@, data@),
            Err(reason) => reason@ == no_memory(),
        },
{
    zstd::bulk::Compressor::with_dictionary(level, dictionary)
        .and_then(|mut compressor| compressor.compress(data))
        .map_err(|error| error.to_string())
}

/// A call of [`compress_with`] with that data, dictionary and level had that outcome.
pub open(crate) spec fn compressing_with_gave(
    data: Seq<u8>,
    dictionary: Seq<u8>,
    level: i32,
    outcome: core::result::Result<Vec<u8>, String>,
) -> bool {
    exists|slice: &[u8], loaded: &[u8]|
        slice@ == data && loaded@ == dictionary && #[trigger] call_ensures(
            compress_with,
            (slice, loaded, level),
            outcome,
        )
}

/// What compressing data with a dictionary at a level comes to: a frame that gives back
/// the data, or no memory to work in.
pub open spec fn is_compressed_with(
    data: Seq<u8>,
    dictionary: Seq<u8>,
    level: i32,
    outcome: core::result::Result<Vec<u8>, String>,
) -> bool {
    &&& compressing_with_gave(data, dictionary, level, outcome)
    &&& match outcome {
        Ok(frame) => reads_back_with(frame@, dictionary, data),
        Err(reason) => reason@ == no_memory(),
    }
}

/// `zstd::bulk::Decompressor::decompress`, with a dictionary loaded by
/// `zstd::bulk::Decompressor::with_dictionary`, is a function of the frame, the dictionary
/// and the room for the data, except that it fails where zstd gets no memory for the
/// dictionary. The outcome but for that has a name. The data takes at most the given
/// number of bytes. It panics where the buffer that it sets aside is beyond what a `Vec`
/// can hold.
#[verifier::external_body]
pub(crate) fn decompress_with(frame: &[u8], dictionary: &[u8], capacity: usize) -> (result:
    core::result::Result<Vec<u8>, String>)
    requires
        fits_buffer(capacity as nat),
    ensures
        is_or_lacks_memory(result, decompressed_with(frame@, dictionary@, capacity as nat)),
        result matches Ok(data) ==> data@.len() <= capacity,
{
    zstd::bulk::Decompressor::with_dictionary(dictionary)
        .and_then(|mut decompressor| decompressor.decompress(frame, capacity))
        .map_err(|error| error.to_string())
}

/// A call of [`decompress_with`] with that frame, dictionary and room had that outcome.
pub open(crate) spec fn decompressing_with_gave(
    frame: Seq<u8>,
    dictionary: Seq<u8>,
    capacity: usize,
    outcome: core::result::Result<Vec<u8>, String>,
) -> bool {
    exists|slice: &[u8], loaded: &[u8]|
        slice@ == frame && loaded@ == dictionary && #[trigger] call_ensures(
            decompress_with,
            (slice, loaded, capacity),
            outcome,
        )
}

/// What decompressing a frame with a dictionary comes to, given the room for the data:
/// what the frame, the dictionary and the room decide, or no memory to work in.
pub open spec fn is_decompressed_with(
    frame: Seq<u8>,
    dictionary: Seq<u8>,
    capacity: usize,
    outcome: core::result::Result<Vec<u8>, String>,
) -> bool {
    &&& decompressing_with_gave(frame, dictionary, capacity, outcome)
    &&& is_or_lacks_memory(outcome, decompressed_with(frame, dictionary, capacity as nat))
}

/// The bytes of all samples together.
pub open spec fn total_length(samples: Seq<Vec<u8>>) -> nat
    decreases samples.len(),
{
    if samples.len() == 0 {
        0
    } else {
        total_length(samples.drop_last()) + samples.last()@.len()
    }
}

/// `zstd::dict::from_samples` makes, where it succeeds, a dictionary of at most the given
/// size. It tries several candidates, compresses samples with each and keeps the one
/// whose frames are smallest; a candidate for which memory runs short is passed over, and
/// the frames may depend on where the candidate lies in memory. So the result rests on
/// the machine: it has no name, and when the call fails is left open. It panics where the
/// copy that it makes of the samples, or the buffer that it sets aside for the
/// dictionary, is beyond what a `Vec` can hold.
#[verifier::external_body]
pub(crate) fn train(samples: &[Vec<u8>], max_size: usize) -> (dictionary: Option<Vec<u8>>)
    requires
        fits_buffer(total_length(samples@)),
        fits_buffer(max_size as nat),
    ensures
        dictionary matches Some(dictionary) ==> dictionary@.len() <= max_size,
{
    zstd::dict::from_samples(samples, max_size).ok()
}

/// A call of [`train`] with those samples and that size gave that dictionary, or none.
pub open(crate) spec fn training_gave(
    samples: Seq<Vec<u8>>,
    max_size: usize,
    dictionary: Option<Vec<u8>>,
) -> bool {
    exists|slice: &[Vec<u8>]|
        slice@ == samples && #[trigger] call_ensures(train, (slice, max_size), dictionary)
}

} // verus!
