//! Compression codecs, the at-rest page envelope, per-table dictionaries, and the
//! registry of what each file is compressed with.

pub mod codec;
pub mod dict;
pub mod frames;
pub mod integrity;
pub mod registry;
pub mod training;

pub use codec::{
    compress_value_zstd, decode_envelope, encode_envelope, is_envelope, Envelope, CODEC_NONE,
    CODEC_ZSTD, CODEC_ZSTD_DICT, ENVELOPE_HEADER_LEN, ENVELOPE_MARKER, ENVELOPE_VERSION,
    LEVEL_AT_REST, LEVEL_WAL, TOAST_ZSTD_LEVEL,
};
pub use dict::train_dictionary;
pub use registry::{CompressionRegistry, FileCompression};
pub use training::{next_training_action, TrainingAction, TrainingEvent};
