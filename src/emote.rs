//! The cache orchestrator: makes sure a ruleset exists, then either loads the
//! persisted table or, when it is missing, stale or unreadable, rebuilds it
//! from the ruleset, persists it and records the ruleset's digest.
//!
//! Cache trouble is recovered from by rebuilding; ruleset trouble is an error.
use vstd::prelude::*;

use crate::digest::digest_hex;
use crate::emote_map::{json_map, json_text, load_spec, EmoteMap, LoadError};
use crate::ruleset::{ruleset_spec, RulesetError};
use crate::substitute::{replace_tokens, substitute};
use crate::tracker::{stale_of, Contents, FileError, FileState, FileUtil};

verus! {

/// The ruleset written when none exists yet.
pub const DEFAULT_CONFIG: &'static str = "[multi.shrug]
multi = \"¯\\\\_(ツ)_/¯\"
words = [\"shrug\"]

[multi.butterfly]
multi = \"ƸӜƷ\"
words = [\"butterfly\"]

[multi.tableflip]
multi = \"(╯°□°）╯︵ ┻━┻\"
words = [\"tableflip\", \"flip\"]

[multi.unflip]
multi = \"┬─┬ノ( º _ ºノ)\"
words = [\"unflip\"]

[multi.lenny]
multi = \"( ͡° ͜ʖ ͡°)\"
words = [\"lenny\"]

[multi.disapproval]
multi = \"ಠ_ಠ\"
words = [\"disapproval\", \"look\"]
";

/// How the table came to be.
#[derive(Clone, Copy, Debug, PartialEq, Eq)]
pub enum Outcome {
    /// Read back from the persisted table.
    Loaded,
    /// Compiled from the ruleset: the persisted table was missing or stale.
    Built,
    /// Compiled from the ruleset: the persisted table could not be loaded.
    Rebuilt,
}

/// Why no table could be had.
#[derive(Clone, Copy, Debug, PartialEq, Eq)]
pub enum EmoteError {
    /// The ruleset file, or the digest sidecar, could not be read.
    Config(FileError),
    /// The ruleset is malformed.
    Ruleset(RulesetError),
}

/// The ruleset's contents once a missing ruleset has been replaced by the default.
pub open spec fn bootstrap(config: Contents) -> Contents {
    if config == Err::<Seq<char>, FileError>(FileError::NotFound) {
        Ok(DEFAULT_CONFIG@)
    } else {
        config
    }
}

/// The sidecar's contents once a missing ruleset has been replaced by the default.
pub open spec fn bootstrap_sidecar(config: Contents, sidecar: Contents) -> Contents {
    if config == Err::<Seq<char>, FileError>(FileError::NotFound) {
        Ok(digest_hex(DEFAULT_CONFIG@))
    } else {
        sidecar
    }
}

/// Whether the table must be compiled from the ruleset rather than loaded.
pub open spec fn rebuild_needed(config: Contents, sidecar: Contents, cache: Contents) -> Result<bool, FileError> {
    if cache == Err::<Seq<char>, FileError>(FileError::NotFound) {
        Ok(true)
    } else {
        stale_of(config, Some(sidecar))
    }
}

/// The table that compiling the ruleset with contents `config` gives.
pub open spec fn build_spec(config: Contents) -> Result<Map<Seq<char>, Seq<char>>, EmoteError> {
    match config {
        Err(e) => Err(EmoteError::Config(e)),
        Ok(t) => match ruleset_spec(t) {
            Err(e) => Err(EmoteError::Ruleset(e)),
            Ok(m) => Ok(m),
        },
    }
}

/// The outcome of a resolution that starts from a ruleset, a digest sidecar
/// and a persisted table with the given contents, and the table it yields.
pub open spec fn resolve_spec(config: Contents, sidecar: Contents, cache: Contents) -> Result<
    (Outcome, Map<Seq<char>, Seq<char>>),
    EmoteError,
> {
    let c = bootstrap(config);
    let h = bootstrap_sidecar(config, sidecar);
    match rebuild_needed(c, h, cache) {
        Err(e) => Err(EmoteError::Config(e)),
        Ok(true) => match build_spec(c) {
            Err(e) => Err(e),
            Ok(m) => Ok((Outcome::Built, m)),
        },
        Ok(false) => match load_spec(cache) {
            Ok(m) => Ok((Outcome::Loaded, m)),
            Err(_) => match build_spec(c) {
                Err(e) => Err(e),
                Ok(m) => Ok((Outcome::Rebuilt, m)),
            },
        },
    }
}

/// The contents of the ruleset, the sidecar and the persisted table after a
/// successful resolution that started from the given contents.
pub open spec fn resolved_files(config: Contents, sidecar: Contents, cache: Contents) -> (Contents, Contents, Contents) {
    let c = bootstrap(config);
    match resolve_spec(config, sidecar, cache) {
        Ok((Outcome::Loaded, _)) => (c, bootstrap_sidecar(config, sidecar), cache),
        Ok((_, m)) => (c, Ok(digest_hex(c->Ok_0)), Ok(json_text(m))),
        Err(_) => (c, sidecar, cache),
    }
}

/// A ruleset with its digest sidecar, and the table compiled from it.
pub struct Emote {
    pub config_file: FileUtil,
    pub map: EmoteMap,
}

impl Emote {
    /// The table is well-formed and the ruleset has a digest sidecar.
    pub open spec fn wf(&self) -> bool {
        &&& self.map.wf()
        &&& self.config_file.sidecar is Some
    }

    /// The ruleset file's contents.
    pub open spec fn config(&self) -> Contents {
        self.config_file.file.contents()
    }

    /// The digest sidecar's contents.
    pub open spec fn sidecar(&self) -> Contents {
        self.config_file.sidecar->0.contents()
    }

    /// The persisted table's contents.
    pub open spec fn cache(&self) -> Contents {
        self.map.persisted()
    }

    /// A ruleset file, its digest sidecar and the persisted table, holding
    /// `config`, `config_hash` and `map_file`; the table starts empty.
    pub fn new(config: FileState, config_hash: FileState, map_file: FileState) -> (r: Emote)
        ensures
            r.wf(),
            r.config_file.file == config,
            r.config_file.sidecar == Some(config_hash),
            r.map.persist_file.file == map_file,
            r.map.map@ == Map::<Seq<char>, Seq<char>>::empty(),
    {
        Emote { config_file: FileUtil::new_hashed(config, config_hash), map: EmoteMap::new(map_file) }
    }

    /// Makes sure a ruleset exists, then resolves the table: loads it when the
    /// persisted table is present and the ruleset unchanged, else compiles and
    /// persists it and records the ruleset's digest.
    pub fn setup(&mut self) -> (r: Result<Outcome, EmoteError>)
        requires
            old(self).wf(),
        ensures
            final(self).wf(),
            match resolve_spec(old(self).config(), old(self).sidecar(), old(self).cache()) {
                Err(e) => r == Err::<Outcome, EmoteError>(e),
                Ok((o, m)) => {
                    &&& r == Ok::<Outcome, EmoteError>(o)
                    &&& final(self).map.map@ == m
                    &&& (final(self).config(), final(self).sidecar(), final(self).cache())
                        == resolved_files(old(self).config(), old(self).sidecar(), old(self).cache())
                },
            },
    {
        self.setup_config();
        self.load_and_cache_emotes()
    }

    /// Writes the default ruleset, and its digest, when no ruleset exists.
    pub fn setup_config(&mut self)
        requires
            old(self).wf(),
        ensures
            final(self).wf(),
            final(self).map == old(self).map,
            final(self).config() == bootstrap(old(self).config()),
            final(self).sidecar() == bootstrap_sidecar(old(self).config(), old(self).sidecar()),
    {
        if !self.config_file.is_present() {
            let _ = self.config_file.write(DEFAULT_CONFIG);
        }
    }

    /// Loads the persisted table, or compiles it when it is missing, stale or
    /// unreadable.
    pub fn load_and_cache_emotes(&mut self) -> (r: Result<Outcome, EmoteError>)
        requires
            old(self).wf(),
        ensures
            final(self).wf(),
            final(self).config() == old(self).config(),
            match rebuild_needed(old(self).config(), old(self).sidecar(), old(self).cache()) {
                Err(e) => r == Err::<Outcome, EmoteError>(EmoteError::Config(e)),
                Ok(needed) => {
                    let loaded = load_spec(old(self).cache());
                    if !needed && loaded is Ok {
                        &&& r == Ok::<Outcome, EmoteError>(Outcome::Loaded)
                        &&& final(self).map.map@ == loaded->Ok_0
                        &&& final(self).sidecar() == old(self).sidecar()
                        &&& final(self).cache() == old(self).cache()
                    } else {
                        Self::built(old(self).config(), *final(self), r, if needed { Outcome::Built } else { Outcome::Rebuilt })
                    }
                },
            },
    {
        let stale = if !self.map.has_been_persisted() {
            true
        } else {
            match self.config_file.is_stale() {
                Ok(b) => b,
                Err(e) => return Err(EmoteError::Config(e)),
            }
        };
        if stale {
            match self.build_and_cache_map() {
                Ok(()) => Ok(Outcome::Built),
                Err(e) => Err(e),
            }
        } else {
            match self.map.load() {
                Ok(()) => Ok(Outcome::Loaded),
                Err(_) => match self.build_and_cache_map() {
                    Ok(()) => Ok(Outcome::Rebuilt),
                    Err(e) => Err(e),
                },
            }
        }
    }

    /// What a rebuild from a ruleset holding `config` leaves behind, with result `r`.
    pub open spec fn built(config: Contents, after: Emote, r: Result<Outcome, EmoteError>, o: Outcome) -> bool {
        match build_spec(config) {
            Err(e) => r == Err::<Outcome, EmoteError>(e),
            Ok(m) => {
                &&& r == Ok::<Outcome, EmoteError>(o)
                &&& after.map.map@ == m
                &&& after.sidecar() == Ok::<Seq<char>, FileError>(digest_hex(config->Ok_0))
                &&& after.cache() == Ok::<Seq<char>, FileError>(json_text(m))
            },
        }
    }

    /// Compiles the ruleset, persists the table and records the ruleset's digest.
    pub fn build_and_cache_map(&mut self) -> (r: Result<(), EmoteError>)
        requires
            old(self).wf(),
        ensures
            final(self).wf(),
            final(self).config() == old(self).config(),
            match build_spec(old(self).config()) {
                Err(e) => r == Err::<(), EmoteError>(e),
                Ok(m) => {
                    &&& r is Ok
                    &&& final(self).map.map@ == m
                    &&& final(self).sidecar() == Ok::<Seq<char>, FileError>(digest_hex(old(self).config()->Ok_0))
                    &&& final(self).cache() == Ok::<Seq<char>, FileError>(json_text(m))
                },
            },
    {
        let text = match self.config_file.read() {
            Ok(t) => t,
            Err(e) => return Err(EmoteError::Config(e)),
        };
        match self.map.build(text.as_str()) {
            Ok(()) => {},
            Err(e) => return Err(EmoteError::Ruleset(e)),
        }
        self.map.persist();
        let _ = self.config_file.store_hash();
        Ok(())
    }

    /// The replacement for exactly `key`, if there is one.
    pub fn get(&self, key: &str) -> (r: Option<&String>)
        requires
            self.wf(),
        ensures
            r is Some <==> self.map.map@.contains_key(key@),
            r matches Some(v) ==> v@ == self.map.map@[key@],
    {
        self.map.get(key)
    }

    /// `s` with every `:word:` token whose word is in the table replaced.
    pub fn replace(&self, s: &str) -> (r: String)
        requires
            self.wf(),
        ensures
            r@ == substitute(self.map.map@, s@),
    {
        replace_tokens(&self.map.map, s)
    }
}

/// A successful resolution leaves files from which the next resolution loads
/// the table instead of compiling it, and gets the same table, provided that,
/// where the first one compiled the table, the persisted text reads back as
/// the table it was written from.
pub proof fn lemma_second_resolution_loads(config: Contents, sidecar: Contents, cache: Contents)
    requires
        resolve_spec(config, sidecar, cache) matches Ok((o, m)) && (o != Outcome::Loaded ==> json_map(
            json_text(m),
        ) == Some(m)),
    ensures
        ({
            let (c1, h1, m1) = resolved_files(config, sidecar, cache);
            &&& resolve_spec(c1, h1, m1) == Ok::<(Outcome, Map<Seq<char>, Seq<char>>), EmoteError>(
                (Outcome::Loaded, resolve_spec(config, sidecar, cache)->Ok_0.1),
            )
            &&& resolved_files(c1, h1, m1) == (c1, h1, m1)
        }),
{
}

/// Once the ruleset's text changes to one with another digest, the next
/// resolution compiles the table from the new text.
pub proof fn lemma_changed_ruleset_rebuilds(config: Contents, sidecar: Contents, cache: Contents, text: Seq<char>)
    requires
        resolve_spec(config, sidecar, cache) is Ok,
        digest_hex(text) != digest_hex(resolved_files(config, sidecar, cache).0->Ok_0),
    ensures
        ({
            let (_, h1, m1) = resolved_files(config, sidecar, cache);
            resolve_spec(Ok(text), h1, m1) == match ruleset_spec(text) {
                Ok(m) => Ok::<(Outcome, Map<Seq<char>, Seq<char>>), EmoteError>((Outcome::Built, m)),
                Err(e) => Err(EmoteError::Ruleset(e)),
            }
        }),
{
}

/// A persisted table that cannot be loaded, beside a digest that matches the
/// ruleset, is rebuilt from a valid ruleset rather than reported.
pub proof fn lemma_corrupt_cache_rebuilds(text: Seq<char>, cache: Contents)
    requires
        ruleset_spec(text) is Ok,
        cache != Err::<Seq<char>, FileError>(FileError::NotFound),
        load_spec(cache) is Err,
    ensures
        resolve_spec(Ok(text), Ok(digest_hex(text)), cache) == Ok::<(Outcome, Map<Seq<char>, Seq<char>>), EmoteError>(
            (Outcome::Rebuilt, ruleset_spec(text)->Ok_0),
        ),
        resolved_files(Ok(text), Ok(digest_hex(text)), cache) == (
            Ok::<Seq<char>, FileError>(text),
            Ok::<Seq<char>, FileError>(digest_hex(text)),
            Ok::<Seq<char>, FileError>(json_text(ruleset_spec(text)->Ok_0)),
        ),
{
}

/// With no ruleset, no sidecar and no persisted table, a resolution writes the
/// default ruleset, compiles it, persists the table and records the digest.
pub proof fn lemma_bootstrap()
    ensures
        ({
            let nf = Err::<Seq<char>, FileError>(FileError::NotFound);
            match ruleset_spec(DEFAULT_CONFIG@) {
                Ok(m) => {
                    &&& resolve_spec(nf, nf, nf) == Ok::<(Outcome, Map<Seq<char>, Seq<char>>), EmoteError>(
                        (Outcome::Built, m),
                    )
                    &&& resolved_files(nf, nf, nf) == (
                        Ok::<Seq<char>, FileError>(DEFAULT_CONFIG@),
                        Ok::<Seq<char>, FileError>(digest_hex(DEFAULT_CONFIG@)),
                        Ok::<Seq<char>, FileError>(json_text(m)),
                    )
                },
                Err(e) => resolve_spec(nf, nf, nf) == Err::<(Outcome, Map<Seq<char>, Seq<char>>), EmoteError>(
                    EmoteError::Ruleset(e),
                ),
            }
        }),
{
}

/// A ruleset that does not compile makes every resolution that has to compile
/// it fail with that error; only an up-to-date persisted table is still loaded.
pub proof fn lemma_malformed_ruleset_is_fatal(text: Seq<char>, sidecar: Contents, cache: Contents)
    requires
        ruleset_spec(text) is Err,
    ensures
        rebuild_needed(Ok(text), sidecar, cache) != Ok::<bool, FileError>(false) ==> resolve_spec(Ok(text), sidecar, cache) is Err,
        rebuild_needed(Ok(text), sidecar, cache) == Ok::<bool, FileError>(true) ==> resolve_spec(Ok(text), sidecar, cache)
            == Err::<(Outcome, Map<Seq<char>, Seq<char>>), EmoteError>(EmoteError::Ruleset(ruleset_spec(text)->Err_0)),
        resolve_spec(Ok(text), sidecar, cache) matches Ok((o, _)) ==> o == Outcome::Loaded,
{
}

} // verus!
