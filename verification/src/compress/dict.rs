//! Dictionary files, and the training of dictionaries.

use vstd::prelude::*;

use crate::bytes;
use crate::compress::codec;
use crate::compress::frames;
use crate::error::Result;
use crate::text;

verus! {

pub const DICT_FORMAT_VERSION: u8 = 1;

/// magic(4) + version(1) + dict_id(4) + table_id(4) + payload_len(4) + crc32(4)
pub const DICT_HEADER_LEN: usize = 21;

/// Cap trained dictionaries at ~110 KiB (zstd's customary maximum).
pub const MAX_DICT_BYTES: usize = 112_640;

/// Samples below which no dictionary is trained.
pub const MIN_TRAINING_SAMPLES: usize = 8;

/// The first bytes of a dictionary file.
pub open spec fn magic() -> Seq<u8> {
    seq![0x53u8, 0x47u8, 0x44u8, 0x43u8]
}

/// Train a zstd dictionary from page-image samples. `None` when the corpus is
/// too small for zstd (a freshly created or tiny table): callers proceed
/// dict-less; training failure is never a statement error. From enough samples, what
/// comes back is what zstd made of all of them, for a dictionary of the largest size.
///
/// At-rest value is page-size-dependent: on 8 KiB pages over 4 KiB blocks a
/// trained dictionary rarely changes the reclaimed block count (a compressible
/// page already fits one block, and hole punching cannot go below one block).
/// It begins to help only at 16/32 KiB builds, where a page can span several
/// 4 KiB blocks and the dictionary can drop the count.
pub fn train_dictionary(samples: &[Vec<u8>]) -> (dictionary: Option<Vec<u8>>)
    requires
        frames::fits_buffer(frames::total_length(samples@)),
    ensures
        if samples@.len() < MIN_TRAINING_SAMPLES {
            dictionary is None
        } else {
            frames::training_gave(samples@, MAX_DICT_BYTES, dictionary)
        },
        dictionary matches Some(dictionary) ==> dictionary@.len() <= MAX_DICT_BYTES,
{
    if samples.len() < MIN_TRAINING_SAMPLES {
        return None;
    }
    frames::train(samples, MAX_DICT_BYTES)
}

/// The bytes of a dictionary file. The length is kept in 32 bits.
pub open spec fn dict_file(dict_id: u32, table_id: u32, dictionary: Seq<u8>) -> Seq<u8> {
    magic() + seq![DICT_FORMAT_VERSION] + bytes::le_bytes(dict_id as nat, 4) + bytes::le_bytes(
        table_id as nat,
        4,
    ) + bytes::le_bytes(dictionary.len() % 0x1_0000_0000, 4) + bytes::le_bytes(
        frames::crc32(dictionary) as nat,
        4,
    ) + dictionary
}

/// Makes the bytes of a dictionary file.
pub fn encode_dict_file(dict_id: u32, table_id: u32, dictionary: &[u8]) -> (out: Vec<u8>)
    ensures
        out@ == dict_file(dict_id, table_id, dictionary@),
{
    let mut out: Vec<u8> = Vec::new();
    out.push(0x53);
    out.push(0x47);
    out.push(0x44);
    out.push(0x43);
    out.push(DICT_FORMAT_VERSION);
    assert(out@ =~= magic() + seq![DICT_FORMAT_VERSION]);
    bytes::push_le(&mut out, dict_id as u64, 4);
    bytes::push_le(&mut out, table_id as u64, 4);
    bytes::push_le(&mut out, dictionary.len() as u64 % 0x1_0000_0000, 4);
    bytes::push_le(&mut out, frames::checksum(dictionary) as u64, 4);
    out.extend_from_slice(dictionary);
    assert(out@ =~= dict_file(dict_id, table_id, dictionary@));
    out
}

/// What a dictionary file holds.
pub enum DictFileView {
    Holds { dict_id: u32, table_id: u32, dictionary: Seq<u8> },
    Damaged(Seq<char>),
}

/// The length of the dictionary that a file declares.
pub open spec fn declared_len(file: Seq<u8>) -> nat {
    bytes::le_nat(file.subrange(13, 17))
}

/// The dictionary in a file with the given name, or what is wrong with it.
pub open spec fn dictionary_in(file: Seq<u8>, path: Seq<char>) -> DictFileView {
    if file.len() < DICT_HEADER_LEN || file.subrange(0, 4) != magic() {
        DictFileView::Damaged("bad dictionary file "@ + path)
    } else if file[4] != DICT_FORMAT_VERSION {
        DictFileView::Damaged("unknown dict file version in "@ + path)
    } else if file.len() < DICT_HEADER_LEN + declared_len(file) {
        DictFileView::Damaged("dict file "@ + path + " truncated"@)
    } else {
        let dictionary = file.subrange(21, 21 + declared_len(file) as int);
        if frames::crc32(dictionary) != bytes::le_nat(file.subrange(17, 21)) {
            DictFileView::Damaged("dict file "@ + path + " CRC mismatch"@)
        } else {
            DictFileView::Holds {
                dict_id: bytes::le_nat(file.subrange(5, 9)) as u32,
                table_id: bytes::le_nat(file.subrange(9, 13)) as u32,
                dictionary,
            }
        }
    }
}

/// Reads a dictionary file: its identity, its table and the dictionary.
pub fn decode_dict_file(file: &[u8], path: &str) -> (result: Result<(u32, u32, Vec<u8>)>)
    ensures
        match result {
            Ok((dict_id, table_id, dictionary)) => dictionary_in(file@, path@) == (
            DictFileView::Holds { dict_id, table_id, dictionary: dictionary@ }),
            Err(error) => dictionary_in(file@, path@) matches DictFileView::Damaged(message)
                && error@ == codec::corruption(message),
        },
{
    let magical: bool = file.len() >= DICT_HEADER_LEN && file[0] == 0x53 && file[1] == 0x47
        && file[2] == 0x44 && file[3] == 0x43;
    proof {
        if file@.len() >= DICT_HEADER_LEN {
            let start = file@.subrange(0, 4);
            assert(start[0] == file@[0] && start[1] == file@[1] && start[2] == file@[2] && start[3]
                == file@[3]);
            if magical {
                assert(start =~= magic());
            }
        }
    }
    if !magical {
        return Err(codec::corrupt_with("bad dictionary file ", path));
    }
    if file[4] != DICT_FORMAT_VERSION {
        return Err(codec::corrupt_with("unknown dict file version in ", path));
    }
    proof {
        bytes::lemma_pow256();
    }
    let dict_id: u64 = bytes::read_le(file, 5, 4);
    let table_id: u64 = bytes::read_le(file, 9, 4);
    let len: u64 = bytes::read_le(file, 13, 4);
    let stored_crc: u64 = bytes::read_le(file, 17, 4);
    proof {
        bytes::lemma_le_nat_bound(file@.subrange(5, 9));
        bytes::lemma_le_nat_bound(file@.subrange(9, 13));
        bytes::lemma_le_nat_bound(file@.subrange(13, 17));
        bytes::lemma_le_nat_bound(file@.subrange(17, 21));
    }
    if len > (file.len() - DICT_HEADER_LEN) as u64 {
        return Err(codec::corrupt(&text::joined_text("dict file ", path, " truncated")));
    }
    let dictionary: &[u8] = vstd::slice::slice_subrange(
        file,
        DICT_HEADER_LEN,
        DICT_HEADER_LEN + len as usize,
    );
    if frames::checksum(dictionary) as u64 != stored_crc {
        return Err(codec::corrupt(&text::joined_text("dict file ", path, " CRC mismatch")));
    }
    let mut copy: Vec<u8> = Vec::new();
    copy.extend_from_slice(dictionary);
    assert(copy@ =~= dictionary@);
    Ok((dict_id as u32, table_id as u32, copy))
}

/// A dictionary whose length fits 32 bits is read back from its file.
pub proof fn dictionaries_read_back(
    dict_id: u32,
    table_id: u32,
    dictionary: Seq<u8>,
    path: Seq<char>,
)
    requires
        dictionary.len() < 0x1_0000_0000,
    ensures
        dictionary_in(dict_file(dict_id, table_id, dictionary), path) == (DictFileView::Holds {
            dict_id,
            table_id,
            dictionary,
        }),
{
    let file = dict_file(dict_id, table_id, dictionary);
    bytes::lemma_pow256();
    bytes::le_bytes_round_trip(dict_id as nat, 4);
    bytes::le_bytes_round_trip(table_id as nat, 4);
    bytes::le_bytes_round_trip(dictionary.len(), 4);
    bytes::le_bytes_round_trip(frames::crc32(dictionary) as nat, 4);
    assert(dictionary.len() % 0x1_0000_0000 == dictionary.len());
    assert(file.subrange(0, 4) =~= magic());
    assert(file[4] == DICT_FORMAT_VERSION);
    assert(file.subrange(5, 9) =~= bytes::le_bytes(dict_id as nat, 4));
    assert(file.subrange(9, 13) =~= bytes::le_bytes(table_id as nat, 4));
    assert(file.subrange(13, 17) =~= bytes::le_bytes(dictionary.len(), 4));
    assert(file.subrange(17, 21) =~= bytes::le_bytes(frames::crc32(dictionary) as nat, 4));
    assert(file.subrange(21, 21 + dictionary.len() as int) =~= dictionary);
}

} // verus!
