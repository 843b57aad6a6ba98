//! The lookup table together with the file it is persisted to, as a JSON object.
use vstd::prelude::*;

use crate::ruleset::{build_emote_map, ruleset_spec, RulesetError};
use crate::table::{keys_unique, map_of, LookupTable};
use crate::tracker::{Contents, FileError, FileState, FileUtil};

verus! {

/// The JSON text that a table serialises to.
pub uninterp spec fn json_text(m: Map<Seq<char>, Seq<char>>) -> Seq<char>;

/// The table that a JSON text deserialises to, if it is an object of strings.
pub uninterp spec fn json_map(text: Seq<char>) -> Option<Map<Seq<char>, Seq<char>>>;

/// Relies on `serde_json::to_string` of a `BTreeMap<String, String>`: a JSON
/// object of the pairs in key order, which cannot fail since every key is a string.
#[verifier::external_body]
fn to_json(pairs: &Vec<(String, String)>) -> (r: String)
    requires
        keys_unique(pairs@),
    ensures
        r@ == json_text(map_of(pairs@)),
{
    let m: std::collections::BTreeMap<&String, &String> = pairs.iter().map(|p| (&p.0, &p.1)).collect();
    serde_json::to_string(&m).expect("a map with string keys serialises")
}

/// Relies on `serde_json::from_str` into a `BTreeMap<String, String>`: the
/// object's pairs, each key once, or `None` when the text is no such object.
#[verifier::external_body]
fn from_json(text: &str) -> (r: Option<Vec<(String, String)>>)
    ensures
        match r {
            Some(v) => keys_unique(v@) && json_map(text@) == Some(map_of(v@)),
            None => json_map(text@) is None,
        },
{
    serde_json::from_str::<std::collections::BTreeMap<String, String>>(text).ok().map(
        |m| m.into_iter().collect(),
    )
}

/// Why a persisted table could not be loaded.
#[derive(Clone, Copy, Debug, PartialEq, Eq)]
pub enum LoadError {
    File(FileError),
    /// The file holds no JSON object of strings.
    Malformed,
}

/// What loading a persisted table whose file holds `c` gives.
pub open spec fn load_spec(c: Contents) -> Result<Map<Seq<char>, Seq<char>>, LoadError> {
    match c {
        Err(e) => Err(LoadError::File(e)),
        Ok(t) => match json_map(t) {
            None => Err(LoadError::Malformed),
            Some(m) => Ok(m),
        },
    }
}

/// The lookup table and the file it is persisted to.
pub struct EmoteMap {
    pub map: LookupTable,
    pub persist_file: FileUtil,
}

impl EmoteMap {
    /// The table is well-formed and its file has no digest sidecar.
    pub open spec fn wf(&self) -> bool {
        &&& self.map.wf()
        &&& self.persist_file.sidecar is None
    }

    /// The contents of the file the table is persisted to.
    pub open spec fn persisted(&self) -> Contents {
        self.persist_file.file.contents()
    }

    /// An empty table persisted to a file that holds `file`.
    pub fn new(file: FileState) -> (r: EmoteMap)
        ensures
            r.wf(),
            r.map@ == Map::<Seq<char>, Seq<char>>::empty(),
            r.persist_file.file == file,
    {
        EmoteMap { map: LookupTable::new(), persist_file: FileUtil::new(file) }
    }

    /// Replaces the table with the one the ruleset `text` compiles to; on
    /// error the table is left as it was.
    pub fn build(&mut self, text: &str) -> (r: Result<(), RulesetError>)
        requires
            old(self).wf(),
        ensures
            final(self).wf(),
            final(self).persist_file == old(self).persist_file,
            match ruleset_spec(text@) {
                Ok(m) => r is Ok && final(self).map@ == m,
                Err(e) => r == Err::<(), RulesetError>(e) && final(self).map@ == old(self).map@,
            },
    {
        match build_emote_map(text) {
            Ok(t) => {
                self.map = t;
                Ok(())
            },
            Err(e) => Err(e),
        }
    }

    /// Replaces the table with the one persisted in its file; on error the
    /// table is left as it was.
    pub fn load(&mut self) -> (r: Result<(), LoadError>)
        requires
            old(self).wf(),
        ensures
            final(self).wf(),
            final(self).persist_file == old(self).persist_file,
            match load_spec(old(self).persisted()) {
                Ok(m) => r is Ok && final(self).map@ == m,
                Err(e) => r == Err::<(), LoadError>(e) && final(self).map@ == old(self).map@,
            },
    {
        let text = match self.persist_file.read() {
            Ok(t) => t,
            Err(e) => return Err(LoadError::File(e)),
        };
        match from_json(text.as_str()) {
            Some(pairs) => {
                self.map = LookupTable::from_pairs(pairs);
                Ok(())
            },
            None => Err(LoadError::Malformed),
        }
    }

    /// The replacement for exactly `key`, if there is one.
    pub fn get(&self, key: &str) -> (r: Option<&String>)
        requires
            self.wf(),
        ensures
            r is Some <==> self.map@.contains_key(key@),
            r matches Some(v) ==> v@ == self.map@[key@],
    {
        self.map.get(key)
    }

    /// Writes the table, serialised, to its file.
    pub fn persist(&mut self)
        requires
            old(self).wf(),
        ensures
            final(self).wf(),
            final(self).map == old(self).map,
            final(self).persisted() == Ok::<Seq<char>, FileError>(json_text(old(self).map@)),
    {
        let pairs = self.map.to_pairs();
        let json = to_json(&pairs);
        let _ = self.persist_file.write(json.as_str());
    }

    /// True iff the table's file is present (its contents are not examined).
    pub fn has_been_persisted(&self) -> (r: bool)
        ensures
            r == !(self.persist_file.file is Absent),
    {
        self.persist_file.is_present()
    }
}

} // verus!
