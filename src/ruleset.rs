//! The ruleset: a TOML document whose table `multi` maps entry names to
//! entries `{ multi = "<replacement>", words = ["<trigger>", ...] }`.
//! Compiling it yields the lookup table; any deviation from that shape is an error.
use vstd::prelude::*;

use crate::table::LookupTable;

verus! {

/// A parsed TOML value, reduced to what a ruleset can use.
#[derive(Debug)]
pub enum TomlItem {
    Str(String),
    Arr(Vec<TomlItem>),
    /// A table's key/value pairs, in key order, each key once.
    Table(Vec<(String, TomlItem)>),
    /// Numbers, booleans and datetimes.
    Other,
}

/// Why a ruleset could not be compiled.
#[derive(Clone, Copy, Debug, PartialEq, Eq)]
pub enum RulesetError {
    /// The text is not a TOML document.
    Syntax,
    /// The document does not have the ruleset's shape.
    Schema,
}

/// The document that a TOML text parses to, if it is well-formed.
pub uninterp spec fn toml_document(text: Seq<char>) -> Option<TomlItem>;

/// toml's parsed value, carried opaquely between the two functions below.
#[verifier::external_type_specification]
#[verifier::external_body]
pub struct ExTomlValue(toml::Value);

/// Relies on toml's `FromStr for Value` (`toml::from_str`): parses a TOML
/// document; the result depends on the text alone.
#[verifier::external_body]
fn parse_toml(text: &str) -> (r: Option<TomlItem>)
    ensures
        r == toml_document(text@),
{
    text.parse::<toml::Value>().ok().map(|v| item_of(&v))
}

/// Relies on the variants of toml's `Value`: moves each into the matching
/// `TomlItem`, table keys in the order `toml::map::Map::iter` gives them.
#[verifier::external_body]
fn item_of(v: &toml::Value) -> TomlItem {
    match v {
        toml::Value::String(s) => TomlItem::Str(s.clone()),
        toml::Value::Array(a) => TomlItem::Arr(a.iter().map(item_of).collect()),
        toml::Value::Table(t) => TomlItem::Table(t.iter().map(|(k, x)| (k.clone(), item_of(x))).collect()),
        _ => TomlItem::Other,
    }
}

/// The value under `key` in a table's pairs (the first, should the key repeat).
pub open spec fn field(fs: Seq<(String, TomlItem)>, key: Seq<char>) -> Option<TomlItem>
    decreases fs.len(),
{
    if fs.len() == 0 {
        None
    } else if fs[0].0@ == key {
        Some(fs[0].1)
    } else {
        field(fs.skip(1), key)
    }
}

/// The strings of an array whose items are all strings.
pub open spec fn strings_of(items: Seq<TomlItem>) -> Option<Seq<Seq<char>>>
    decreases items.len(),
{
    if items.len() == 0 {
        Some(Seq::empty())
    } else {
        match (strings_of(items.drop_last()), items.last()) {
            (Some(ws), TomlItem::Str(s)) => Some(ws.push(s@)),
            _ => None,
        }
    }
}

/// An entry's replacement and trigger words.
pub open spec fn entry_rule(e: TomlItem) -> Option<(Seq<char>, Seq<Seq<char>>)> {
    match e {
        TomlItem::Table(fs) => match (field(fs@, "multi"@), field(fs@, "words"@)) {
            (Some(TomlItem::Str(m)), Some(TomlItem::Arr(ws))) => match strings_of(ws@) {
                Some(words) => Some((m@, words)),
                None => None,
            },
            _ => None,
        },
        _ => None,
    }
}

/// `m` with each of `words` mapped to `rep`.
pub open spec fn add_words(
    m: Map<Seq<char>, Seq<char>>,
    words: Seq<Seq<char>>,
    rep: Seq<char>,
) -> Map<Seq<char>, Seq<char>>
    decreases words.len(),
{
    if words.len() == 0 {
        m
    } else {
        add_words(m, words.drop_last(), rep).insert(words.last(), rep)
    }
}

/// The mapping that a sequence of entries compiles to; later entries win.
pub open spec fn rules_of_entries(es: Seq<(String, TomlItem)>) -> Option<Map<Seq<char>, Seq<char>>>
    decreases es.len(),
{
    if es.len() == 0 {
        Some(Map::empty())
    } else {
        match (rules_of_entries(es.drop_last()), entry_rule(es.last().1)) {
            (Some(m), Some((rep, words))) => Some(add_words(m, words, rep)),
            _ => None,
        }
    }
}

/// The mapping that a parsed ruleset document compiles to.
pub open spec fn rules_of(doc: TomlItem) -> Option<Map<Seq<char>, Seq<char>>> {
    match doc {
        TomlItem::Table(fs) => match field(fs@, "multi"@) {
            Some(TomlItem::Table(es)) => rules_of_entries(es@),
            _ => None,
        },
        _ => None,
    }
}

/// What a ruleset text compiles to.
pub open spec fn ruleset_spec(text: Seq<char>) -> Result<Map<Seq<char>, Seq<char>>, RulesetError> {
    match toml_document(text) {
        None => Err(RulesetError::Syntax),
        Some(doc) => match rules_of(doc) {
            None => Err(RulesetError::Schema),
            Some(m) => Ok(m),
        },
    }
}

proof fn lemma_strings_prefix(items: Seq<TomlItem>, j: int)
    requires
        0 <= j <= items.len(),
        strings_of(items.subrange(0, j)) is None,
    ensures
        strings_of(items) is None,
    decreases items.len(),
{
    if j < items.len() {
        assert(items.drop_last().subrange(0, j) =~= items.subrange(0, j));
        lemma_strings_prefix(items.drop_last(), j);
    } else {
        assert(items.subrange(0, j) =~= items);
    }
}

proof fn lemma_entries_prefix(es: Seq<(String, TomlItem)>, j: int)
    requires
        0 <= j <= es.len(),
        rules_of_entries(es.subrange(0, j)) is None,
    ensures
        rules_of_entries(es) is None,
    decreases es.len(),
{
    if j < es.len() {
        assert(es.drop_last().subrange(0, j) =~= es.subrange(0, j));
        lemma_entries_prefix(es.drop_last(), j);
    } else {
        assert(es.subrange(0, j) =~= es);
    }
}

/// The value under `key` in a table's pairs.
fn get_field<'a>(fs: &'a Vec<(String, TomlItem)>, key: &str) -> (r: Option<&'a TomlItem>)
    ensures
        match r {
            Some(v) => field(fs@, key@) == Some(*v),
            None => field(fs@, key@) is None,
        },
{
    let k = key.to_owned();
    let mut i: usize = 0;
    assert(fs@.subrange(0, fs@.len() as int) =~= fs@);
    while i < fs.len()
        invariant
            i <= fs@.len(),
            k@ == key@,
            field(fs@, key@) == field(fs@.subrange(i as int, fs@.len() as int), key@),
        decreases fs@.len() - i,
    {
        let ghost rest = fs@.subrange(i as int, fs@.len() as int);
        assert(rest[0] == fs@[i as int]);
        if fs[i].0 == k {
            return Some(&fs[i].1);
        }
        assert(rest.skip(1) =~= fs@.subrange(i + 1, fs@.len() as int));
        i = i + 1;
    }
    None
}

/// Adds one entry's words to `table`, or fails if the entry is malformed.
fn add_entry(table: &mut LookupTable, entry: &TomlItem) -> (r: Result<(), RulesetError>)
    requires
        old(table).wf(),
    ensures
        final(table).wf(),
        match entry_rule(*entry) {
            Some((rep, words)) => r is Ok && final(table)@ == add_words(old(table)@, words, rep),
            None => r == Err::<(), RulesetError>(RulesetError::Schema),
        },
{
    let fs = match entry {
        TomlItem::Table(fs) => fs,
        _ => return Err(RulesetError::Schema),
    };
    let rep = match get_field(fs, "multi") {
        Some(TomlItem::Str(m)) => m,
        _ => return Err(RulesetError::Schema),
    };
    let words = match get_field(fs, "words") {
        Some(TomlItem::Arr(ws)) => ws,
        _ => return Err(RulesetError::Schema),
    };
    let ghost base = table@;
    let mut j: usize = 0;
    while j < words.len()
        invariant
            j <= words@.len(),
            table.wf(),
            *entry == TomlItem::Table(*fs),
            field(fs@, "multi"@) == Some(TomlItem::Str(*rep)),
            field(fs@, "words"@) == Some(TomlItem::Arr(*words)),
            strings_of(words@.subrange(0, j as int)) matches Some(ws) && table@ == add_words(base, ws, rep@),
        decreases words@.len() - j,
    {
        let ghost pre = words@.subrange(0, j as int);
        assert(words@.subrange(0, j + 1).drop_last() =~= pre);
        assert(words@.subrange(0, j + 1).last() == words@[j as int]);
        match &words[j] {
            TomlItem::Str(w) => {
                let ghost ws = strings_of(pre)->Some_0;
                assert(ws.push(w@).drop_last() =~= ws);
                table.insert(w.clone(), rep.clone());
            },
            _ => {
                proof {
                    lemma_strings_prefix(words@, j + 1);
                }
                return Err(RulesetError::Schema);
            },
        }
        j = j + 1;
    }
    assert(words@.subrange(0, words@.len() as int) =~= words@);
    Ok(())
}

/// Compiles a parsed ruleset document into a lookup table.
pub fn compile(doc: &TomlItem) -> (r: Result<LookupTable, RulesetError>)
    ensures
        match rules_of(*doc) {
            Some(m) => r matches Ok(t) && t.wf() && t@ == m,
            None => r == Err::<LookupTable, RulesetError>(RulesetError::Schema),
        },
{
    let fs = match doc {
        TomlItem::Table(fs) => fs,
        _ => return Err(RulesetError::Schema),
    };
    let es = match get_field(fs, "multi") {
        Some(TomlItem::Table(es)) => es,
        _ => return Err(RulesetError::Schema),
    };
    let mut table = LookupTable::new();
    let mut i: usize = 0;
    while i < es.len()
        invariant
            i <= es@.len(),
            table.wf(),
            rules_of(*doc) == rules_of_entries(es@),
            rules_of_entries(es@.subrange(0, i as int)) == Some(table@),
        decreases es@.len() - i,
    {
        assert(es@.subrange(0, i + 1).drop_last() =~= es@.subrange(0, i as int));
        assert(es@.subrange(0, i + 1).last() == es@[i as int]);
        match add_entry(&mut table, &es[i].1) {
            Ok(()) => {},
            Err(e) => {
                proof {
                    lemma_entries_prefix(es@, i + 1);
                }
                return Err(e);
            },
        }
        i = i + 1;
    }
    assert(es@.subrange(0, es@.len() as int) =~= es@);
    Ok(table)
}

/// Parses and compiles a ruleset text.
pub fn build_emote_map(text: &str) -> (r: Result<LookupTable, RulesetError>)
    ensures
        match ruleset_spec(text@) {
            Ok(m) => r matches Ok(t) && t.wf() && t@ == m,
            Err(e) => r matches Err(x) && x == e,
        },
{
    match parse_toml(text) {
        None => Err(RulesetError::Syntax),
        Some(doc) => compile(&doc),
    }
}

/// An entry that lacks a required field, or holds one of the wrong type,
/// invalidates the whole ruleset: no entry is skipped.
pub proof fn lemma_malformed_entry_rejected(doc: TomlItem, es: Vec<(String, TomlItem)>, i: int)
    requires
        doc matches TomlItem::Table(fs) && field(fs@, "multi"@) == Some(TomlItem::Table(es)),
        0 <= i < es@.len(),
        entry_rule(es@[i].1) is None,
    ensures
        rules_of(doc) is None,
{
    assert(es@.subrange(0, i + 1).last() == es@[i]);
    lemma_entries_prefix(es@, i + 1);
}

/// In particular, an entry without a `words` field.
pub proof fn lemma_entry_without_words_rejected(doc: TomlItem, es: Vec<(String, TomlItem)>, i: int)
    requires
        doc matches TomlItem::Table(fs) && field(fs@, "multi"@) == Some(TomlItem::Table(es)),
        0 <= i < es@.len(),
        es@[i].1 matches TomlItem::Table(efs) && field(efs@, "words"@) is None,
    ensures
        rules_of(doc) is None,
{
    lemma_malformed_entry_rejected(doc, es, i);
}

} // verus!
