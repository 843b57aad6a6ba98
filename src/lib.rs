//! Colon-delimited shorthand expansion (`:shrug:`), driven by a TOML ruleset
//! that is compiled into a lookup table and cached on disk, with a content
//! digest of the ruleset deciding when the cache must be rebuilt.
//!
//! The library performs no I/O: files are described by [`FileState`] values
//! and every write is left pending for the caller to carry out.

pub mod digest;
pub mod tracker;
pub mod table;
pub mod ruleset;
pub mod emote_map;
pub mod substitute;
pub mod emote;
mod text;

pub use digest::{blake2b_512, digest_hex, hex_of};
pub use tracker::{FileError, FileState, FileUtil};
pub use table::LookupTable;
pub use ruleset::{build_emote_map, compile, RulesetError, TomlItem};
pub use emote_map::{EmoteMap, LoadError};
pub use substitute::replace_tokens;
pub use emote::{Emote, EmoteError, Outcome, DEFAULT_CONFIG};
