//! Recovers the audio stream wrapped inside an obfuscated music container.
//!
//! A container is decoded in memory: [`dump_file`] takes its bytes and
//! returns the audio with the extension of the file it belongs in. [`dump`]
//! tells a walk over files and directories which paths hold containers.

pub mod cipher;
pub mod container;
pub mod descramble;
pub mod error;
pub mod key_table;
pub mod mask;
pub mod metadata;
pub mod reader;
pub mod scan;

pub use container::{dump_file, read_crc32, read_image_data, read_ncm, seek_to_music, Dump};
pub use descramble::{descramble, descramble_chunk};
pub use error::DumpError;
pub use key_table::{convert_key_data, read_key_data, KeyTable};
pub use metadata::{convert_meta_data, read_meta_data, Metadata};
pub use reader::Reader;
pub use scan::{dump, DumpStep, PathKind};
