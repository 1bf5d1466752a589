//! Decoding of VQA (Vector Quantized Animation) containers: chunk framing and
//! the ADPCM audio decompressor.
//!
//! The [`parser`] and [`scan`] modules walk a byte buffer and yield its
//! chunks. The [`audio`] module turns the payload of an audio chunk into
//! 16-bit samples.

pub mod audio;
pub mod error;
pub mod input;
pub mod parser;
pub mod scan;

pub use crate::error::ParseError;
pub use crate::parser::{
    cbf_chunk, finf_chunk, form_chunk, parse_tagged_chunk, snd2_chunk, vqa_header2, vqa_version,
    vqfr_chunk, CBFChunk, Chunk, FINFChunk, FormChunk, SND2Chunk, VQAFlags, VQAHeader, VQAVersion,
    VQFRChunk,
};
pub use crate::scan::{parse_all, scan_to_next};
