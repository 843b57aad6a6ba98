//! A tracked file and, optionally, a sidecar holding the digest of its last
//! recorded contents. Files are values: the caller reads them in before use
//! and writes back whatever changed.
use vstd::prelude::*;

use crate::digest::{digest_hex, digest_of};

verus! {

/// What a file on disk holds, as far as this library is concerned.
#[derive(Clone, Debug, PartialEq, Eq)]
pub enum FileState {
    /// No file at the path.
    Absent,
    /// A file is there but could not be read as text.
    Unreadable,
    /// A file holding this text.
    Text(String),
}

/// Why a file could not be used.
#[derive(Clone, Copy, Debug, PartialEq, Eq)]
pub enum FileError {
    NotFound,
    Unreadable,
}

/// A file's text, or why there is none.
pub type Contents = Result<Seq<char>, FileError>;

/// Whether a file whose contents are `file` differs from the digest stored in
/// `sidecar`; stale when there is no sidecar or it holds no digest yet.
pub open spec fn stale_of(file: Contents, sidecar: Option<Contents>) -> Result<bool, FileError> {
    match sidecar {
        None => Ok(true),
        Some(Err(FileError::NotFound)) => Ok(true),
        Some(Err(e)) => Err(e),
        Some(Ok(h)) => match file {
            Ok(t) => Ok(digest_hex(t) != h),
            Err(e) => Err(e),
        },
    }
}

impl FileState {
    /// Reading the file: its text, or why there is none.
    pub open spec fn contents(self) -> Contents {
        match self {
            FileState::Absent => Err(FileError::NotFound),
            FileState::Unreadable => Err(FileError::Unreadable),
            FileState::Text(s) => Ok(s@),
        }
    }

    /// The file holds exactly the text `t`.
    pub open spec fn holds(self, t: Seq<char>) -> bool {
        self matches FileState::Text(s) && s@ == t
    }

    /// The digest of the file's text, or why there is none.
    pub open spec fn digest_spec(self) -> Result<Seq<char>, FileError> {
        match self.contents() {
            Ok(t) => Ok(digest_hex(t)),
            Err(e) => Err(e),
        }
    }

    pub fn read(&self) -> (r: Result<String, FileError>)
        ensures
            match r {
                Ok(s) => self.contents() == Ok::<Seq<char>, FileError>(s@),
                Err(e) => self.contents() == Err::<Seq<char>, FileError>(e),
            },
    {
        match self {
            FileState::Absent => Err(FileError::NotFound),
            FileState::Unreadable => Err(FileError::Unreadable),
            FileState::Text(s) => Ok(s.clone()),
        }
    }
}

/// A tracked file with an optional digest sidecar; without a sidecar the
/// file is always considered stale.
pub struct FileUtil {
    pub file: FileState,
    pub sidecar: Option<FileState>,
}

impl FileUtil {
    /// Whether the tracked file differs from the digest last stored for it.
    pub open spec fn stale_spec(&self) -> Result<bool, FileError> {
        stale_of(self.file.contents(), self.sidecar_contents())
    }

    /// The sidecar's contents, if there is a sidecar.
    pub open spec fn sidecar_contents(&self) -> Option<Contents> {
        match self.sidecar {
            None => None,
            Some(h) => Some(h.contents()),
        }
    }

    /// The tracker after storing the digest of the tracked file, or why it could not.
    pub open spec fn store_hash_spec(&self) -> Result<Option<Seq<char>>, FileError> {
        match self.sidecar {
            None => Ok(None),
            Some(_) => match self.file.digest_spec() {
                Ok(d) => Ok(Some(d)),
                Err(e) => Err(e),
            },
        }
    }

    /// A tracked file without a digest sidecar.
    pub fn new(file: FileState) -> (r: FileUtil)
        ensures
            r.file == file,
            r.sidecar is None,
    {
        FileUtil { file, sidecar: None }
    }

    /// A tracked file whose digest is kept in `sidecar`.
    pub fn new_hashed(file: FileState, sidecar: FileState) -> (r: FileUtil)
        ensures
            r.file == file,
            r.sidecar == Some(sidecar),
    {
        FileUtil { file, sidecar: Some(sidecar) }
    }

    /// True iff the tracked file is present.
    pub fn is_present(&self) -> (r: bool)
        ensures
            r == !(self.file is Absent),
    {
        !matches!(self.file, FileState::Absent)
    }

    /// The tracked file's full text.
    pub fn read(&self) -> (r: Result<String, FileError>)
        ensures
            match r {
                Ok(s) => self.file.contents() == Ok::<Seq<char>, FileError>(s@),
                Err(e) => self.file.contents() == Err::<Seq<char>, FileError>(e),
            },
    {
        self.file.read()
    }

    /// Records the digest of the tracked file in the sidecar; does nothing
    /// when there is no sidecar. On failure nothing changes.
    pub fn store_hash(&mut self) -> (r: Result<(), FileError>)
        ensures
            final(self).file == old(self).file,
            match old(self).store_hash_spec() {
                Ok(None) => r is Ok && final(self).sidecar == old(self).sidecar,
                Ok(Some(d)) => r is Ok && final(self).sidecar is Some && final(self).sidecar->0.holds(d),
                Err(e) => r == Err::<(), FileError>(e) && final(self).sidecar == old(self).sidecar,
            },
    {
        if self.sidecar.is_none() {
            return Ok(());
        }
        match self.file.read() {
            Ok(s) => {
                let d = digest_of(s.as_str());
                self.sidecar = Some(FileState::Text(d));
                Ok(())
            },
            Err(e) => Err(e),
        }
    }

    /// Replaces the tracked file's contents with `content` and records its
    /// digest, so that a file just written is never stale.
    pub fn write(&mut self, content: &str) -> (r: Result<(), FileError>)
        ensures
            r is Ok,
            final(self).file.holds(content@),
            match old(self).sidecar {
                None => final(self).sidecar is None,
                Some(_) => final(self).sidecar is Some && final(self).sidecar->0.holds(digest_hex(content@)),
            },
            final(self).stale_spec() == Ok::<bool, FileError>(old(self).sidecar is None),
    {
        self.file = FileState::Text(content.to_owned());
        self.store_hash()
    }

    /// Whether the tracked file has changed since its digest was last stored:
    /// always when there is no sidecar or no stored digest yet.
    pub fn is_stale(&self) -> (r: Result<bool, FileError>)
        ensures
            r == self.stale_spec(),
    {
        match &self.sidecar {
            None => Ok(true),
            Some(FileState::Absent) => Ok(true),
            Some(FileState::Unreadable) => Err(FileError::Unreadable),
            Some(FileState::Text(h)) => match self.file.read() {
                Ok(s) => {
                    let d = digest_of(s.as_str());
                    Ok(!(d == *h))
                },
                Err(e) => Err(e),
            },
        }
    }
}

} // verus!
