//! What a compressed page, value or dictionary must look like to be believed, and what
//! decides whether one is kept.

use vstd::prelude::*;

use crate::bytes;
use crate::compress::codec::{self, EnvelopeView};
use crate::compress::dict::{self, DictFileView};
use crate::compress::frames;
use crate::compress::registry::{self, FileCompression, RegistryView};
use crate::compress::training::{self, TrainingAction, TrainingEvent};
use crate::cancel::CancelReason;
use crate::error::Result;
use crate::ids::FileId;

verus! {

/// The number that two bytes spell, the smaller one first.
pub open spec fn two_bytes(bytes: Seq<u8>, start: int) -> int {
    bytes[start] + 256 * bytes[start + 1]
}

/// The number that four bytes spell, the smallest one first.
pub open spec fn four_bytes(bytes: Seq<u8>, start: int) -> int {
    two_bytes(bytes, start) + 65_536 * two_bytes(bytes, start + 2)
}

proof fn lemma_two_bytes(bytes: Seq<u8>, start: int)
    requires
        0 <= start,
        start + 2 <= bytes.len(),
    ensures
        bytes::le_nat(bytes.subrange(start, start + 2)) == two_bytes(bytes, start),
{
    let pair = bytes.subrange(start, start + 2);
    reveal_with_fuel(bytes::le_nat, 3);
    assert(pair.drop_first().drop_first().len() == 0);
    assert(pair.drop_first()[0] == bytes[start + 1]);
}

proof fn lemma_four_bytes(bytes: Seq<u8>, start: int)
    requires
        0 <= start,
        start + 4 <= bytes.len(),
    ensures
        bytes::le_nat(bytes.subrange(start, start + 4)) == four_bytes(bytes, start),
{
    let four = bytes.subrange(start, start + 4);
    let three = four.drop_first();
    let two = three.drop_first();
    let one = two.drop_first();
    reveal_with_fuel(bytes::le_nat, 5);
    assert(one.drop_first().len() == 0);
    assert(four[0] == bytes[start] && three[0] == bytes[start + 1] && two[0] == bytes[start + 2]
        && one[0] == bytes[start + 3]);
}

/// An envelope is believed exactly if it has the marker, the version 1, one of the codecs
/// 1 and 2, a whole payload, and the checksum of the payload. It then holds what stands
/// in its bytes.
pub proof fn envelopes_are_believed_if_whole(slot: Seq<u8>)
    ensures
        codec::envelope_in(slot) is Holds <==> {
            &&& slot.len() >= 18
            &&& slot[0] == 0x53 && slot[1] == 0x47 && slot[2] == 0x43 && slot[3] == 0x50
            &&& slot[4] == 0xFF && slot[5] == 0xFF
            &&& slot[6] == 1
            &&& slot[7] == 1 || slot[7] == 2
            &&& slot.len() >= 18 + two_bytes(slot, 12)
            &&& frames::crc32(slot.subrange(18, 18 + two_bytes(slot, 12))) == four_bytes(slot, 14)
        },
        codec::envelope_in(slot) matches EnvelopeView::Holds { codec, dict_id, payload } ==> codec
            == slot[7] && dict_id == four_bytes(slot, 8) && payload == slot.subrange(
            18,
            18 + two_bytes(slot, 12),
        ),
{
    if slot.len() >= 18 {
        lemma_two_bytes(slot, 12);
        lemma_four_bytes(slot, 14);
        lemma_four_bytes(slot, 8);
    }
    if slot.len() >= 6 {
        let start = slot.subrange(0, 6);
        assert(start[0] == slot[0] && start[1] == slot[1] && start[2] == slot[2] && start[3]
            == slot[3] && start[4] == slot[4] && start[5] == slot[5]);
        if slot[0] == 0x53 && slot[1] == 0x47 && slot[2] == 0x43 && slot[3] == 0x50 && slot[4]
            == 0xFF && slot[5] == 0xFF {
            assert(start =~= codec::marker());
        }
    }
}

/// A dictionary file is believed exactly if it has its first four bytes, the version that
/// is written, a whole dictionary, and the checksum of the dictionary. It then holds what
/// stands in its bytes, whatever the file is called.
pub proof fn dictionaries_are_believed_if_whole(file: Seq<u8>, path: Seq<char>)
    ensures
        dict::dictionary_in(file, path) is Holds <==> {
            &&& file.len() >= 21
            &&& file[0] == 0x53 && file[1] == 0x47 && file[2] == 0x44 && file[3] == 0x43
            &&& file[4] == 1
            &&& file.len() >= 21 + four_bytes(file, 13)
            &&& frames::crc32(file.subrange(21, 21 + four_bytes(file, 13))) == four_bytes(file, 17)
        },
        dict::dictionary_in(file, path) matches DictFileView::Holds {
            dict_id,
            table_id,
            dictionary,
        } ==> dict_id == four_bytes(file, 5) && table_id == four_bytes(file, 9) && dictionary
            == file.subrange(21, 21 + four_bytes(file, 13)),
{
    if file.len() >= 21 {
        lemma_four_bytes(file, 5);
        lemma_four_bytes(file, 9);
        lemma_four_bytes(file, 13);
        lemma_four_bytes(file, 17);
        let start = file.subrange(0, 4);
        assert(start[0] == file[0] && start[1] == file[1] && start[2] == file[2] && start[3]
            == file[3]);
        if file[0] == 0x53 && file[1] == 0x47 && file[2] == 0x44 && file[3] == 0x43 {
            assert(start =~= dict::magic());
        }
    }
}

/// Whatever is read has the length that was asked for; a payload that was not compressed
/// is the value itself.
pub proof fn what_is_read_has_the_length_asked_for(
    reader: RegistryView,
    codec: u8,
    page_dict: u32,
    value_dict: Option<u32>,
    payload: Seq<u8>,
    len: usize,
    found: Vec<u8>,
)
    ensures
        reader.is_decompressed_image(codec, page_dict, payload, len, Ok(found)) ==> found@.len()
            == len,
        reader.is_decompressed_value(codec, value_dict, payload, len, Ok(found)) ==> found@.len()
            == len && (codec == 0 ==> found@ == payload),
{
}

/// A payload of a page is compressed with zstd, and one of a value may be left as it is.
/// A dictionary is named exactly where one is used, and it must be known.
pub proof fn payloads_name_the_dictionary_they_need(
    reader: RegistryView,
    codec: u8,
    page_dict: u32,
    value_dict: Option<u32>,
)
    ensures
        reader.codec_problem(codec, page_dict) is None <==> codec == 1 || (codec == 2
            && reader.dicts.contains_key(page_dict)),
        reader.value_problem(codec, value_dict) is None <==> ((codec == 0 || codec == 1)
            && value_dict is None) || (codec == 2 && value_dict is Some && reader.dicts.contains_key(
            value_dict->0,
        )),
{
}

/// A file is compressed as it was configured to be: not at all where nothing was said,
/// with the dictionary that was named where it is known, and without one otherwise.
pub proof fn files_are_compressed_as_configured(
    writer: RegistryView,
    file_id: FileId,
    image: Seq<u8>,
    result: Result<Option<Vec<u8>>>,
)
    ensures
        (!writer.files.contains_key(file_id) || writer.files[file_id] is Uncompressed)
            && writer.is_stored_page(file_id, image, result) ==> result matches Ok(None),
        writer.files.contains_key(file_id) ==> (writer.files[file_id] matches FileCompression::Zstd {
            dict_id,
        } ==> writer.codec_of_file(file_id) == if dict_id is Some && writer.dicts.contains_key(
            dict_id->0,
        ) {
            (2u8, dict_id->0)
        } else {
            (1u8, 0u32)
        }),
{
}

/// A compressed page is kept exactly if it saves something together with its header, and
/// a compressed page image in the log exactly if it saves something; a failure to
/// compress is reported for a page and passed over in the log.
pub proof fn compression_must_pay(
    codec: u8,
    dict_id: u32,
    compressed: core::result::Result<Seq<u8>, Seq<char>>,
    image_len: nat,
    page: Result<Option<Vec<u8>>>,
    image: Option<(u8, u32, Vec<u8>)>,
)
    requires
        registry::is_page_outcome(codec, dict_id, compressed, image_len, page),
        registry::is_image_outcome(codec, dict_id, compressed, image_len, image),
    ensures
        compressed is Err ==> page is Err && image is None,
        compressed matches Ok(payload) ==> {
            &&& (page matches Ok(None)) <==> payload.len() + 18 >= image_len
            &&& page matches Ok(Some(out)) ==> out@.len() < image_len
            &&& image is None <==> payload.len() >= image_len
        },
{
    if let Ok(payload) = compressed {
        bytes::lemma_pow256();
        bytes::le_bytes_round_trip(dict_id as nat, 4);
        if payload.len() <= u16::MAX {
            bytes::le_bytes_round_trip(payload.len(), 2);
        }
        bytes::le_bytes_round_trip(frames::crc32(payload) as nat, 4);
    }
}

/// While a dictionary is trained a cancellation ends the statement wherever it would
/// wait. Otherwise it takes at least eight samples and the permit to start training, the
/// worker is waited for until it has finished or is gone, and what it has made is the
/// answer.
pub proof fn training_goes_step_by_step(
    event: TrainingEvent,
    request: Option<CancelReason>,
    action: TrainingAction,
)
    requires
        training::is_next_action(event, request, action),
    ensures
        action is Start <==> event is Permitted,
        action is Claim <==> request is None && (event is Busy || (event matches
            TrainingEvent::Wanted { samples } && samples >= 8)),
        action is Poll <==> request is None && (event is Started || event is Working),
        event matches TrainingEvent::Trained(dictionary) ==> action == TrainingAction::Finish(
            Ok(dictionary),
        ),
        event is Stopped || event is NotStarted ==> (action matches TrainingAction::Finish(answer)
            && answer is Err),
        request is None && (event matches TrainingEvent::Wanted { samples } && samples < 8)
            ==> action == TrainingAction::Finish(Ok(None)),
{
}

} // verus!
