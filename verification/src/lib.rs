//! Codec for the asset registry of a cooked game archive.
//!
//! The registry is a blob that catalogues every cooked asset of a title. Its
//! format describes itself only by the order of its fields and by two
//! sentinel words. `decode` turns a buffer into an `AssetRegistry` and
//! `encode` turns an `AssetRegistry` into a buffer. Every decoder and encoder
//! is verified against a specification of the bytes, and the module `laws`
//! proves that the two directions undo each other.
//!
//! Beside the codec stand a few rules of the packaging of mods that need no
//! more than plain values: which assets of a registry are effect systems and
//! where their files go, how the imports of an asset are looked up, and in
//! which order the statements of a spliced function stand.

pub mod codec;
pub mod effects;
pub mod error;
pub mod imports;
pub mod index;
pub mod laws;
pub mod layout;
pub mod offsets;
pub mod pair;
pub mod platform;
pub mod reader;
pub mod record;
pub mod registry;
pub mod scalar;
pub mod seqs;
pub mod splice;
pub mod tables;
pub mod text;
pub mod wire;
pub mod writer;

pub use codec::{read_array, read_counted, write_array, write_counted, Readable, Standard, Writable};
pub use effects::{asset_files, content_path, find_effects, Effect, EffectKind};
pub use error::{DecodeError, Sentinel, MAGIC_END, MAGIC_START};
pub use imports::{find_import, find_import_inside, import_index, ImportNames};
pub use index::{NameIndex, NameIndexFlagged};
pub use pair::{Pair, Type};
pub use platform::{get_cooked_dir, Platform};
pub use reader::Reader;
pub use record::{Asset, AssetData, Dependencies};
pub use registry::{decode, encode, AssetRegistry};
pub use scalar::{BigEndian, Guid};
pub use splice::{plan_splice, Step};
pub use text::{Ansi, Text, Wide};
