//! What each file is compressed with, and the dictionaries that are known.

use std::collections::HashMap;

use vstd::prelude::*;

use crate::compress::codec::{
    self, decode_envelope, encode_envelope, is_envelope, EnvelopeView, CODEC_NONE, CODEC_ZSTD,
    CODEC_ZSTD_DICT, ENVELOPE_HEADER_LEN, LEVEL_AT_REST, LEVEL_WAL,
};
use crate::compress::frames;
use crate::error::{DbError, Result};
use crate::ids::FileId;
use crate::text;

verus! {

broadcast use vstd::std_specs::hash::group_hash_axioms;

/// A table file's at-rest compression config.
#[derive(Clone, Copy, Debug, PartialEq, Eq, Structural)]
pub enum FileCompression {
    Uncompressed,
    Zstd { dict_id: Option<u32> },
}

impl Default for FileCompression {
    fn default() -> (config: Self)
        ensures
            config == FileCompression::Uncompressed,
    {
        FileCompression::Uncompressed
    }
}

/// File configs plus dictionaries. A file with no entry reads/writes raw.
#[derive(Debug)]
pub struct CompressionRegistry {
    files: HashMap<FileId, FileCompression>,
    dicts: HashMap<u32, Vec<u8>>,
}

/// What the registry knows.
pub struct RegistryView {
    pub files: Map<FileId, FileCompression>,
    pub dicts: Map<u32, Seq<u8>>,
}

impl View for CompressionRegistry {
    type V = RegistryView;

    closed spec fn view(&self) -> RegistryView {
        RegistryView {
            files: self.files@,
            dicts: self.dicts@.map_values(|bytes: Vec<u8>| bytes@),
        }
    }
}

impl RegistryView {
    /// The config of a file: raw unless it was set.
    pub open spec fn config(self, file_id: FileId) -> FileCompression {
        if self.files.contains_key(file_id) {
            self.files[file_id]
        } else {
            FileCompression::Uncompressed
        }
    }

    /// The dictionary that a file's config names, if it is registered.
    pub open spec fn dict_of_file(self, file_id: FileId) -> Option<u32> {
        match self.config(file_id) {
            FileCompression::Zstd { dict_id: Some(id) } => if self.dicts.contains_key(id) {
                Some(id)
            } else {
                None
            },
            _ => None,
        }
    }

    /// The codec and the dictionary id that a file's pages are written with.
    pub open spec fn codec_of_file(self, file_id: FileId) -> (u8, u32) {
        match self.dict_of_file(file_id) {
            Some(id) => (CODEC_ZSTD_DICT, id),
            None => (CODEC_ZSTD, 0),
        }
    }

    /// What compressing an image with the file's dictionary comes to, or without one if
    /// the file has none.
    pub open spec fn is_compressed_for_file(
        self,
        file_id: FileId,
        image: Seq<u8>,
        level: i32,
        outcome: core::result::Result<Vec<u8>, String>,
    ) -> bool {
        match self.dict_of_file(file_id) {
            Some(id) => frames::is_compressed_with(image, self.dicts[id], level, outcome),
            None => frames::is_compressed(image, level, outcome),
        }
    }

    /// What compressing a page for its file comes to.
    pub open spec fn is_stored_page(
        self,
        file_id: FileId,
        image: Seq<u8>,
        result: Result<Option<Vec<u8>>>,
    ) -> bool {
        let (codec, dict_id) = self.codec_of_file(file_id);
        if self.config(file_id) == FileCompression::Uncompressed {
            result == Ok::<Option<Vec<u8>>, DbError>(None)
        } else {
            exists|outcome: core::result::Result<Vec<u8>, String>| #[trigger]
                self.is_compressed_for_file(file_id, image, LEVEL_AT_REST, outcome)
                    && is_page_outcome(
                    codec,
                    dict_id,
                    frames::outcome_view(outcome),
                    image.len(),
                    result,
                )
        }
    }

    /// What compressing a page image for the WAL comes to.
    pub open spec fn is_logged_image(
        self,
        file_id: FileId,
        image: Seq<u8>,
        result: Option<(u8, u32, Vec<u8>)>,
    ) -> bool {
        let (codec, dict_id) = self.codec_of_file(file_id);
        exists|outcome: core::result::Result<Vec<u8>, String>| #[trigger]
            self.is_compressed_for_file(file_id, image, LEVEL_WAL, outcome) && is_image_outcome(
                codec,
                dict_id,
                frames::outcome_view(outcome),
                image.len(),
                result,
            )
    }

    /// What compressing a value with a dictionary comes to.
    pub open spec fn is_compressed_value(
        self,
        dict_id: u32,
        raw: Seq<u8>,
        result: Result<Vec<u8>>,
    ) -> bool {
        if self.dicts.contains_key(dict_id) {
            exists|outcome: core::result::Result<Vec<u8>, String>| #[trigger]
                frames::is_compressed_with(raw, self.dicts[dict_id], LEVEL_AT_REST, outcome)
                    && codec::is_value_outcome(
                    frames::outcome_view(outcome),
                    "zstd dict value compress failed: "@,
                    result,
                )
        } else {
            result matches Err(error) && error@ == codec::corruption(unregistered(dict_id))
        }
    }

    /// What decompressing a payload to a known length with a dictionary comes to.
    pub open spec fn is_decompressed_with(
        self,
        dict_id: u32,
        payload: Seq<u8>,
        failure: Seq<char>,
        what: Seq<char>,
        expected_len: usize,
        result: Result<Vec<u8>>,
    ) -> bool {
        exists|outcome: core::result::Result<Vec<u8>, String>| #[trigger]
            frames::is_decompressed_with(payload, self.dicts[dict_id], expected_len, outcome)
                && is_decompressed_outcome(
                frames::outcome_view(outcome),
                failure,
                what,
                expected_len as nat,
                result,
            )
    }

    /// What decompressing a page image comes to.
    pub open spec fn is_decompressed_image(
        self,
        codec: u8,
        dict_id: u32,
        payload: Seq<u8>,
        expected_len: usize,
        result: Result<Vec<u8>>,
    ) -> bool {
        match self.codec_problem(codec, dict_id) {
            Some(message) => result matches Err(error) && error@ == codec::corruption(message),
            None => if codec == CODEC_ZSTD {
                is_decompressed_outcome(
                    frames::decompressed(payload, expected_len as nat),
                    "zstd decompress failed: "@,
                    "decompressed page is "@,
                    expected_len as nat,
                    result,
                )
            } else {
                self.is_decompressed_with(
                    dict_id,
                    payload,
                    "zstd dict decompress failed: "@,
                    "decompressed page is "@,
                    expected_len,
                    result,
                )
            },
        }
    }

    /// What reading a page slot comes to.
    pub open spec fn is_read_page(
        self,
        slot: Seq<u8>,
        expected_len: usize,
        result: Result<Option<Vec<u8>>>,
    ) -> bool {
        match codec::envelope_in(slot) {
            EnvelopeView::Damaged(message) => if codec::has_marker(slot) {
                result matches Err(error) && error@ == codec::corruption(message)
            } else {
                result == Ok::<Option<Vec<u8>>, DbError>(None)
            },
            EnvelopeView::Holds { codec, dict_id, payload } => match result {
                Ok(Some(image)) => self.is_decompressed_image(
                    codec,
                    dict_id,
                    payload,
                    expected_len,
                    Ok(image),
                ),
                Ok(None) => false,
                Err(error) => self.is_decompressed_image(
                    codec,
                    dict_id,
                    payload,
                    expected_len,
                    Err(error),
                ),
            },
        }
    }

    /// What decompressing a value comes to.
    pub open spec fn is_decompressed_value(
        self,
        codec: u8,
        dict_id: Option<u32>,
        payload: Seq<u8>,
        raw_len: usize,
        result: Result<Vec<u8>>,
    ) -> bool {
        match self.value_problem(codec, dict_id) {
            Some(message) => result matches Err(error) && error@ == codec::corruption(message),
            None => if codec == CODEC_NONE {
                is_decompressed_outcome(
                    Ok(payload),
                    ""@,
                    "decompressed value is "@,
                    raw_len as nat,
                    result,
                )
            } else if codec == CODEC_ZSTD {
                is_decompressed_outcome(
                    frames::decompressed(payload, raw_len as nat),
                    "zstd value decompress failed: "@,
                    "decompressed value is "@,
                    raw_len as nat,
                    result,
                )
            } else {
                self.is_decompressed_with(
                    dict_id->0,
                    payload,
                    "zstd dict value decompress failed: "@,
                    "decompressed value is "@,
                    raw_len,
                    result,
                )
            },
        }
    }

    /// Why a payload cannot be decompressed at all, if so.
    pub open spec fn codec_problem(self, codec: u8, dict_id: u32) -> Option<Seq<char>> {
        if codec == CODEC_ZSTD {
            None
        } else if codec == CODEC_ZSTD_DICT {
            if self.dicts.contains_key(dict_id) {
                None
            } else {
                Some(unregistered(dict_id))
            }
        } else {
            Some("unknown compression codec "@ + text::decimal_text(codec as nat))
        }
    }

    /// Why a value payload cannot be decompressed at all, if so.
    pub open spec fn value_problem(self, codec: u8, dict_id: Option<u32>) -> Option<Seq<char>> {
        if codec == CODEC_NONE {
            match dict_id {
                Some(id) => Some(
                    "raw value codec must not name dictionary "@ + text::decimal_text(id as nat),
                ),
                None => None,
            }
        } else if codec == CODEC_ZSTD {
            match dict_id {
                Some(id) => Some(
                    "zstd value codec must not name dictionary "@ + text::decimal_text(id as nat),
                ),
                None => None,
            }
        } else if codec == CODEC_ZSTD_DICT {
            match dict_id {
                Some(id) => if self.dicts.contains_key(id) {
                    None
                } else {
                    Some(unregistered(id))
                },
                None => Some("zstd-dict value codec missing dict id"@),
            }
        } else {
            Some("unknown value compression codec "@ + text::decimal_text(codec as nat))
        }
    }
}

/// What is said of a dictionary that is not known.
pub open spec fn unregistered(dict_id: u32) -> Seq<char> {
    "compression dictionary "@ + text::decimal_text(dict_id as nat) + " is not registered"@
}

fn not_registered(dict_id: u32) -> (error: DbError)
    ensures
        error@ == codec::corruption(unregistered(dict_id)),
{
    codec::corrupt(
        &text::numbered_text("compression dictionary ", dict_id as u128, " is not registered"),
    )
}

/// What becomes of a page image, given the outcome of compressing it: an envelope that is
/// smaller than the image, nothing, or an error.
pub open spec fn is_page_outcome(
    codec: u8,
    dict_id: u32,
    compressed: core::result::Result<Seq<u8>, Seq<char>>,
    image_len: nat,
    result: Result<Option<Vec<u8>>>,
) -> bool {
    match compressed {
        Err(reason) => result matches Err(error) && error@ == codec::corruption(
            "zstd compress failed: "@ + reason,
        ),
        Ok(payload) => if ENVELOPE_HEADER_LEN + payload.len() >= image_len {
            result == Ok::<Option<Vec<u8>>, DbError>(None)
        } else if payload.len() > u16::MAX {
            result matches Err(error) && error@ == codec::corruption(
                "envelope payload too large: "@ + text::decimal_text(payload.len()),
            )
        } else {
            result matches Ok(Some(out)) && out@ == codec::envelope_bytes(codec, dict_id, payload)
        },
    }
}

/// Decides what becomes of a page image, given the outcome of compressing it.
pub fn finish_page(
    codec: u8,
    dict_id: u32,
    compressed: core::result::Result<Vec<u8>, String>,
    image_len: usize,
) -> (result: Result<Option<Vec<u8>>>)
    requires
        codec::is_envelope_codec(codec),
    ensures
        is_page_outcome(
            codec,
            dict_id,
            frames::outcome_view(compressed),
            image_len as nat,
            result,
        ),
{
    match compressed {
        Err(reason) => Err(codec::corrupt_with("zstd compress failed: ", &reason)),
        Ok(payload) => {
            if image_len < ENVELOPE_HEADER_LEN || payload.len() >= image_len
                - ENVELOPE_HEADER_LEN {
                return Ok(None);
            }
            match encode_envelope(codec, dict_id, payload.as_slice()) {
                Ok(out) => Ok(Some(out)),
                Err(error) => Err(error),
            }
        },
    }
}

/// What becomes of a page image in the WAL, given the outcome of compressing it: the
/// payload where it is smaller than the image.
pub open spec fn is_image_outcome(
    codec: u8,
    dict_id: u32,
    compressed: core::result::Result<Seq<u8>, Seq<char>>,
    image_len: nat,
    result: Option<(u8, u32, Vec<u8>)>,
) -> bool {
    match compressed {
        Ok(payload) => if payload.len() >= image_len {
            result is None
        } else {
            result matches Some((found_codec, found_dict_id, found)) && found_codec == codec
                && found_dict_id == dict_id && found@ == payload
        },
        Err(_) => result is None,
    }
}

/// Decides what becomes of a page image in the WAL, given the outcome of compressing it.
pub fn finish_image(
    codec: u8,
    dict_id: u32,
    compressed: core::result::Result<Vec<u8>, String>,
    image_len: usize,
) -> (result: Option<(u8, u32, Vec<u8>)>)
    ensures
        is_image_outcome(
            codec,
            dict_id,
            frames::outcome_view(compressed),
            image_len as nat,
            result,
        ),
{
    match compressed {
        Ok(payload) => {
            if payload.len() >= image_len {
                None
            } else {
                Some((codec, dict_id, payload))
            }
        },
        Err(_) => None,
    }
}

/// What is returned, given the outcome of decompressing something of a known length.
pub open spec fn is_decompressed_outcome(
    outcome: core::result::Result<Seq<u8>, Seq<char>>,
    failure: Seq<char>,
    what: Seq<char>,
    expected_len: nat,
    result: Result<Vec<u8>>,
) -> bool {
    match outcome {
        Err(reason) => result matches Err(error) && error@ == codec::corruption(failure + reason),
        Ok(data) => if data.len() == expected_len {
            result matches Ok(found) && found@ == data
        } else {
            result matches Err(error) && error@ == codec::corruption(
                codec::wrong_length(what, data.len(), expected_len),
            )
        },
    }
}

/// Decides what is returned, given the outcome of decompressing something of a known
/// length.
pub fn finish_decompressed(
    outcome: core::result::Result<Vec<u8>, String>,
    failure: &str,
    what: &str,
    expected_len: usize,
) -> (result: Result<Vec<u8>>)
    ensures
        is_decompressed_outcome(
            frames::outcome_view(outcome),
            failure@,
            what@,
            expected_len as nat,
            result,
        ),
{
    let data: Vec<u8> = match codec::value_or_corrupt(outcome, failure) {
        Ok(data) => data,
        Err(error) => return Err(error),
    };
    match codec::ensure_len(what, data.as_slice(), expected_len) {
        Ok(()) => Ok(data),
        Err(error) => Err(error),
    }
}

impl Default for CompressionRegistry {
    fn default() -> (registry: Self)
        ensures
            registry@.files == Map::<FileId, FileCompression>::empty(),
            registry@.dicts == Map::<u32, Seq<u8>>::empty(),
    {
        CompressionRegistry::new()
    }
}

impl CompressionRegistry {
    pub fn new() -> (registry: Self)
        ensures
            registry@.files == Map::<FileId, FileCompression>::empty(),
            registry@.dicts == Map::<u32, Seq<u8>>::empty(),
    {
        let registry = CompressionRegistry { files: HashMap::new(), dicts: HashMap::new() };
        assert(registry@.dicts =~= Map::<u32, Seq<u8>>::empty());
        registry
    }

    pub fn set_file_config(&mut self, file_id: FileId, config: FileCompression)
        ensures
            final(self)@.files == old(self)@.files.insert(file_id, config),
            final(self)@.dicts == old(self)@.dicts,
    {
        let _ = self.files.insert(file_id, config);
    }

    pub fn file_config(&self, file_id: FileId) -> (config: FileCompression)
        ensures
            config == self@.config(file_id),
    {
        match self.files.get(&file_id) {
            Some(config) => *config,
            None => FileCompression::Uncompressed,
        }
    }

    pub fn register_dictionary(&mut self, dict_id: u32, bytes: &[u8]) -> (result: Result<()>)
        ensures
            final(self)@.files == old(self)@.files,
            match result {
                Ok(()) => dict_id != 0 && final(self)@.dicts == old(self)@.dicts.insert(
                    dict_id,
                    bytes@,
                ),
                Err(error) => dict_id == 0 && error@ == codec::corruption(
                    "dictionary id 0 is reserved"@,
                ) && final(self)@.dicts == old(self)@.dicts,
            },
    {
        if dict_id == 0 {
            return Err(codec::corrupt("dictionary id 0 is reserved"));
        }
        let mut copy: Vec<u8> = Vec::new();
        copy.extend_from_slice(bytes);
        assert(copy@ =~= bytes@);
        let _ = self.dicts.insert(dict_id, copy);
        assert(self@.dicts =~= old(self)@.dicts.insert(dict_id, bytes@));
        Ok(())
    }

    pub fn has_dictionary(&self, dict_id: u32) -> (known: bool)
        ensures
            known == self@.dicts.contains_key(dict_id),
    {
        self.dicts.contains_key(&dict_id)
    }

    fn dictionary(&self, dict_id: u32) -> (dictionary: Option<&Vec<u8>>)
        ensures
            match dictionary {
                Some(bytes) => self@.dicts.contains_key(dict_id) && self@.dicts[dict_id]
                    == bytes@,
                None => !self@.dicts.contains_key(dict_id),
            },
    {
        self.dicts.get(&dict_id)
    }

    /// Registered-and-resolvable dict for a file, if its config names one.
    fn dict_for_file(&self, file_id: FileId) -> (found: Option<(u32, &Vec<u8>)>)
        ensures
            match found {
                Some((id, bytes)) => self@.dict_of_file(file_id) == Some(id)
                    && self@.dicts.contains_key(id) && self@.dicts[id] == bytes@,
                None => self@.dict_of_file(file_id) is None,
            },
    {
        match self.file_config(file_id) {
            FileCompression::Zstd { dict_id: Some(id) } => match self.dictionary(id) {
                Some(dictionary) => Some((id, dictionary)),
                None => None,
            },
            _ => None,
        }
    }

    /// Compresses an image with the file's dictionary, if it has one.
    fn compress_for_file(&self, file_id: FileId, image: &[u8], level: i32) -> (outcome: (
        u8,
        u32,
        core::result::Result<Vec<u8>, String>,
    ))
        requires
            frames::fits_buffer(frames::frame_bound(image@.len())),
        ensures
            (outcome.0, outcome.1) == self@.codec_of_file(file_id),
            self@.is_compressed_for_file(file_id, image@, level, outcome.2),
    {
        match self.dict_for_file(file_id) {
            Some((id, dictionary)) => (
                CODEC_ZSTD_DICT,
                id,
                frames::compress_with(image, dictionary.as_slice(), level),
            ),
            None => (CODEC_ZSTD, 0, frames::compress(image, level)),
        }
    }

    /// At-rest encode per the file's config. `Ok(None)` = store the raw image
    /// (no compression is set, or the envelope is not smaller than the image).
    pub fn compress_page_at_rest(&self, file_id: FileId, image: &[u8]) -> (result: Result<
        Option<Vec<u8>>,
    >)
        requires
            self@.config(file_id) != FileCompression::Uncompressed ==> frames::fits_buffer(
                frames::frame_bound(image@.len()),
            ),
        ensures
            self@.is_stored_page(file_id, image@, result),
    {
        let config = self.file_config(file_id);
        if config == FileCompression::Uncompressed {
            return Ok(None);
        }
        let (codec, dict_id, compressed) = self.compress_for_file(file_id, image, LEVEL_AT_REST);
        finish_page(codec, dict_id, compressed, image.len())
    }

    /// Decode a page slot read from disk. `Ok(None)` = raw slot (not an
    /// envelope, including all-zero holes). `Err` = corrupt envelope,
    /// unresolvable dictionary, or wrong decompressed length.
    pub fn decompress_page(&self, slot: &[u8], expected_len: usize) -> (result: Result<
        Option<Vec<u8>>,
    >)
        requires
            codec::envelope_in(slot@) matches EnvelopeView::Holds { codec, dict_id, .. }
                ==> self@.codec_problem(codec, dict_id) is None ==> frames::fits_buffer(
                expected_len as nat,
            ),
        ensures
            self@.is_read_page(slot@, expected_len, result),
    {
        if !is_envelope(slot) {
            return Ok(None);
        }
        let envelope = match decode_envelope(slot) {
            Ok(envelope) => envelope,
            Err(error) => return Err(error),
        };
        match self.decompress_fpi(
            envelope.codec,
            envelope.dict_id,
            envelope.payload,
            expected_len,
        ) {
            Ok(image) => Ok(Some(image)),
            Err(error) => Err(error),
        }
    }

    /// UNCONDITIONAL WAL page image compression (zstd-1; a heap file's dict when it
    /// has one). `None` = emit the raw image (payload not smaller,
    /// or any internal failure: compression must never fail a write).
    pub fn compress_fpi(&self, file_id: FileId, image: &[u8]) -> (result: Option<
        (u8, u32, Vec<u8>),
    >)
        requires
            frames::fits_buffer(frames::frame_bound(image@.len())),
        ensures
            self@.is_logged_image(file_id, image@, result),
    {
        let (codec, dict_id, compressed) = self.compress_for_file(file_id, image, LEVEL_WAL);
        finish_image(codec, dict_id, compressed, image.len())
    }

    /// Compress a single TOAST value payload with the registered dictionary.
    ///
    /// The caller owns all policy decisions: this helper always returns the
    /// compressed bytes if zstd succeeds, even when the output is larger than
    /// the raw input.
    pub fn compress_value_zstd_dict(&self, dict_id: u32, raw: &[u8]) -> (result: Result<Vec<u8>>)
        requires
            self@.dicts.contains_key(dict_id) ==> frames::fits_buffer(
                frames::frame_bound(raw@.len()),
            ),
        ensures
            self@.is_compressed_value(dict_id, raw@, result),
    {
        let dictionary = match self.dictionary(dict_id) {
            Some(dictionary) => dictionary,
            None => return Err(not_registered(dict_id)),
        };
        let outcome = frames::compress_with(raw, dictionary.as_slice(), LEVEL_AT_REST);
        assert(frames::is_compressed_with(raw@, self@.dicts[dict_id], LEVEL_AT_REST, outcome));
        codec::value_or_corrupt(outcome, "zstd dict value compress failed: ")
    }

    /// Decompress a single TOAST value payload to exactly `raw_len` bytes.
    pub fn decompress_value(
        &self,
        codec: u8,
        dict_id: Option<u32>,
        payload: &[u8],
        raw_len: usize,
    ) -> (result: Result<Vec<u8>>)
        requires
            codec != CODEC_NONE && self@.value_problem(codec, dict_id) is None
                ==> frames::fits_buffer(raw_len as nat),
        ensures
            self@.is_decompressed_value(codec, dict_id, payload@, raw_len, result),
    {
        if codec == CODEC_NONE {
            if let Some(id) = dict_id {
                return Err(
                    codec::corrupt(
                        &text::numbered("raw value codec must not name dictionary ", id as u128),
                    ),
                );
            }
            return match codec::ensure_len("decompressed value is ", payload, raw_len) {
                Ok(()) => {
                    let mut value: Vec<u8> = Vec::new();
                    value.extend_from_slice(payload);
                    assert(value@ =~= payload@);
                    Ok(value)
                },
                Err(error) => Err(error),
            };
        }
        if codec == CODEC_ZSTD {
            if let Some(id) = dict_id {
                return Err(
                    codec::corrupt(
                        &text::numbered("zstd value codec must not name dictionary ", id as u128),
                    ),
                );
            }
            let outcome = frames::decompress(payload, raw_len);
            return finish_decompressed(
                outcome,
                "zstd value decompress failed: ",
                "decompressed value is ",
                raw_len,
            );
        }
        if codec == CODEC_ZSTD_DICT {
            let id: u32 = match dict_id {
                Some(id) => id,
                None => return Err(codec::corrupt("zstd-dict value codec missing dict id")),
            };
            let dictionary = match self.dictionary(id) {
                Some(dictionary) => dictionary,
                None => return Err(not_registered(id)),
            };
            let outcome = frames::decompress_with(payload, dictionary.as_slice(), raw_len);
            assert(frames::is_decompressed_with(payload@, self@.dicts[id], raw_len, outcome));
            return finish_decompressed(
                outcome,
                "zstd dict value decompress failed: ",
                "decompressed value is ",
                raw_len,
            );
        }
        Err(
            codec::corrupt(&text::numbered("unknown value compression codec ", codec as u128)),
        )
    }

    /// Decompress a compressed payload (WAL record or envelope body) back to
    /// exactly `expected_len` bytes.
    pub fn decompress_fpi(
        &self,
        codec: u8,
        dict_id: u32,
        payload: &[u8],
        expected_len: usize,
    ) -> (result: Result<Vec<u8>>)
        requires
            self@.codec_problem(codec, dict_id) is None ==> frames::fits_buffer(
                expected_len as nat,
            ),
        ensures
            self@.is_decompressed_image(codec, dict_id, payload@, expected_len, result),
    {
        if codec == CODEC_ZSTD {
            let outcome = frames::decompress(payload, expected_len);
            return finish_decompressed(
                outcome,
                "zstd decompress failed: ",
                "decompressed page is ",
                expected_len,
            );
        }
        if codec == CODEC_ZSTD_DICT {
            let dictionary = match self.dictionary(dict_id) {
                Some(dictionary) => dictionary,
                None => return Err(not_registered(dict_id)),
            };
            let outcome = frames::decompress_with(payload, dictionary.as_slice(), expected_len);
            assert(frames::is_decompressed_with(
                payload@,
                self@.dicts[dict_id],
                expected_len,
                outcome,
            ));
            return finish_decompressed(
                outcome,
                "zstd dict decompress failed: ",
                "decompressed page is ",
                expected_len,
            );
        }
        Err(codec::corrupt(&text::numbered("unknown compression codec ", codec as u128)))
    }
}

/// What was read is the data; with a dictionary it can also be that there was no memory
/// to load it.
pub open spec fn gives_back(
    codec: u8,
    failure: Seq<char>,
    data: Seq<u8>,
    restored: Result<Vec<u8>>,
) -> bool {
    match restored {
        Ok(found) => found@ == data,
        Err(error) => codec == CODEC_ZSTD_DICT && error@ == codec::corruption(
            failure + frames::no_memory(),
        ),
    }
}

/// A page that was written compressed is smaller than its image, is told from a raw page,
/// and gives back the image wherever it is read with the same dictionary, whatever stands
/// behind it in its slot. Only memory for the dictionary can be wanting.
pub proof fn stored_pages_read_back(
    writer: RegistryView,
    reader: RegistryView,
    file_id: FileId,
    image: Seq<u8>,
    written: Vec<u8>,
    rest: Seq<u8>,
    expected_len: usize,
    read: Result<Option<Vec<u8>>>,
)
    requires
        writer.is_stored_page(file_id, image, Ok(Some(written))),
        writer.dict_of_file(file_id) matches Some(id) ==> reader.dicts.contains_key(id)
            && reader.dicts[id] == writer.dicts[id],
        image.len() == expected_len,
        frames::fits_buffer(expected_len as nat),
        reader.is_read_page(written@ + rest, expected_len, read),
    ensures
        written@.len() < image.len(),
        codec::has_marker(written@ + rest),
        match read {
            Ok(Some(restored)) => restored@ == image,
            Ok(None) => false,
            Err(error) => gives_back(
                writer.codec_of_file(file_id).0,
                "zstd dict decompress failed: "@,
                image,
                Err(error),
            ),
        },
{
    let (codec, dict_id) = writer.codec_of_file(file_id);
    let outcome = choose|outcome: core::result::Result<Vec<u8>, String>| #[trigger]
        writer.is_compressed_for_file(file_id, image, LEVEL_AT_REST, outcome) && is_page_outcome(
            codec,
            dict_id,
            frames::outcome_view(outcome),
            image.len(),
            Ok(Some(written)),
        );
    codec::envelopes_read_back(codec, dict_id, outcome->Ok_0@, rest);
}

/// A page image that was compressed for the WAL is smaller than the image and gives it
/// back wherever it is decompressed with the same dictionary. Only memory for the
/// dictionary can be wanting.
pub proof fn logged_images_read_back(
    writer: RegistryView,
    reader: RegistryView,
    file_id: FileId,
    image: Seq<u8>,
    codec: u8,
    dict_id: u32,
    payload: Vec<u8>,
    expected_len: usize,
    restored: Result<Vec<u8>>,
)
    requires
        writer.is_logged_image(file_id, image, Some((codec, dict_id, payload))),
        writer.dict_of_file(file_id) matches Some(id) ==> reader.dicts.contains_key(id)
            && reader.dicts[id] == writer.dicts[id],
        image.len() == expected_len,
        frames::fits_buffer(expected_len as nat),
        reader.is_decompressed_image(codec, dict_id, payload@, expected_len, restored),
    ensures
        payload@.len() < image.len(),
        gives_back(codec, "zstd dict decompress failed: "@, image, restored),
{
}

/// A value that was compressed gives back what it was wherever it is decompressed.
pub proof fn values_read_back(
    reader: RegistryView,
    raw: Seq<u8>,
    payload: Vec<u8>,
    raw_len: usize,
    restored: Result<Vec<u8>>,
)
    requires
        codec::is_compressed_value(raw, Ok(payload)),
        raw.len() == raw_len,
        frames::fits_buffer(raw_len as nat),
        reader.is_decompressed_value(CODEC_ZSTD, None, payload@, raw_len, restored),
    ensures
        restored matches Ok(found) && found@ == raw,
{
}

/// A value that was compressed with a dictionary gives back what it was wherever it is
/// decompressed with the same dictionary. Only memory for the dictionary can be wanting.
pub proof fn values_with_dictionaries_read_back(
    writer: RegistryView,
    reader: RegistryView,
    dict_id: u32,
    raw: Seq<u8>,
    payload: Vec<u8>,
    raw_len: usize,
    restored: Result<Vec<u8>>,
)
    requires
        writer.is_compressed_value(dict_id, raw, Ok(payload)),
        reader.dicts.contains_key(dict_id),
        reader.dicts[dict_id] == writer.dicts[dict_id],
        raw.len() == raw_len,
        frames::fits_buffer(raw_len as nat),
        reader.is_decompressed_value(
            CODEC_ZSTD_DICT,
            Some(dict_id),
            payload@,
            raw_len,
            restored,
        ),
    ensures
        gives_back(CODEC_ZSTD_DICT, "zstd dict value decompress failed: "@, raw, restored),
{
}

} // verus!
