use emote::{Emote, EmoteError, FileError, FileState, Outcome, RulesetError, DEFAULT_CONFIG};

const SHRUG: &str = "¯\\_(ツ)_/¯";

fn text(s: &str) -> FileState {
    FileState::Text(s.to_string())
}

fn fresh() -> Emote {
    Emote::new(FileState::Absent, FileState::Absent, FileState::Absent)
}

fn files(e: &Emote) -> (FileState, FileState, FileState) {
    (
        e.config_file.file.clone(),
        e.config_file.sidecar.clone().unwrap(),
        e.map.persist_file.file.clone(),
    )
}

fn text_of(f: &FileState) -> String {
    match f {
        FileState::Text(s) => s.clone(),
        other => panic!("expected a text file, found {:?}", other),
    }
}

#[test]
fn can_execute_command() {
    let mut e = fresh();
    assert!(e.setup().is_ok());
}

#[test]
fn creates_config() {
    let mut e = fresh();
    assert!(!e.config_file.is_present());
    assert!(e.setup().is_ok());
    assert!(e.config_file.is_present());
    let config = text_of(&e.config_file.file);
    assert_eq!(config, DEFAULT_CONFIG);
    assert!(config.contains("multi"));
    assert!(config.contains("ƸӜƷ"));
}

#[test]
fn creates_cache() {
    let mut e = fresh();
    assert!(!e.map.has_been_persisted());
    assert!(e.setup().is_ok());
    let (_, hash, map) = files(&e);
    assert!(matches!(hash, FileState::Text(_)));
    assert!(matches!(map, FileState::Text(_)));
    assert!(e.map.has_been_persisted());
}

#[test]
fn outputs_emoticon() {
    let mut e = fresh();
    e.setup().unwrap();
    assert_eq!(e.get("shrug").map(|s| s.as_str()), Some(SHRUG));
    assert_eq!(e.get("butterfly").map(|s| s.as_str()), Some("ƸӜƷ"));
}

#[test]
fn loads_cache() {
    let mut e = fresh();
    assert_eq!(e.setup(), Ok(Outcome::Built));
    let (c, h, m) = files(&e);
    let mut again = Emote::new(c, h, m);
    assert_eq!(again.setup(), Ok(Outcome::Loaded));
    assert_eq!(again.get("shrug").map(|s| s.as_str()), Some(SHRUG));
}

#[test]
fn bootstrap_writes_default_and_cache() {
    let mut e = fresh();
    assert_eq!(e.setup(), Ok(Outcome::Built));
    let (c, h, m) = files(&e);
    assert_eq!(c, text(DEFAULT_CONFIG));
    assert_eq!(h, text(&emote::digest::digest_of(DEFAULT_CONFIG)));
    assert!(text_of(&m).starts_with('{'));
    assert!(e.get("shrug").is_some());
}

#[test]
fn second_resolution_loads_same_table() {
    let mut e = fresh();
    e.setup().unwrap();
    let (c, h, m) = files(&e);
    let mut again = Emote::new(c.clone(), h.clone(), m.clone());
    assert_eq!(again.setup(), Ok(Outcome::Loaded));
    assert_eq!(files(&again), (c, h, m));
    for key in ["shrug", "butterfly", "tableflip", "flip", "unflip", "lenny", "disapproval", "look", "nope"] {
        assert_eq!(again.get(key), e.get(key));
    }
    let mut loaded = again.map.map.to_pairs();
    let mut built = e.map.map.to_pairs();
    loaded.sort();
    built.sort();
    assert_eq!(loaded, built);
}

#[test]
fn changed_ruleset_rebuilds() {
    let mut e = fresh();
    e.setup().unwrap();
    let (_, h, m) = files(&e);
    let new_rules = "[multi.wave]\nmulti = \"o/\"\nwords = [\"wave\"]\n";
    let mut again = Emote::new(text(new_rules), h, m);
    assert_eq!(again.setup(), Ok(Outcome::Built));
    assert_eq!(again.get("wave").map(|s| s.as_str()), Some("o/"));
    assert_eq!(again.get("shrug"), None);
    let (_, h2, _) = files(&again);
    assert_eq!(h2, text(&emote::digest::digest_of(new_rules)));
}

#[test]
fn corrupt_cache_rebuilds() {
    let mut e = fresh();
    e.setup().unwrap();
    let (c, h, _) = files(&e);
    let mut again = Emote::new(c, h, text("{\"shrug\": "));
    assert_eq!(again.setup(), Ok(Outcome::Rebuilt));
    assert_eq!(again.get("shrug").map(|s| s.as_str()), Some(SHRUG));
    let (_, _, m) = files(&again);
    assert_eq!(m, e.map.persist_file.file);
}

#[test]
fn unreadable_cache_rebuilds() {
    let mut e = fresh();
    e.setup().unwrap();
    let (c, h, _) = files(&e);
    let mut again = Emote::new(c, h, FileState::Unreadable);
    assert_eq!(again.setup(), Ok(Outcome::Rebuilt));
    assert!(again.get("shrug").is_some());
}

#[test]
fn missing_words_is_fatal() {
    let rules = "[multi.shrug]\nmulti = \"x\"\n";
    let mut e = Emote::new(text(rules), FileState::Absent, FileState::Absent);
    assert_eq!(e.setup(), Err(EmoteError::Ruleset(RulesetError::Schema)));
}

#[test]
fn malformed_toml_is_fatal() {
    let mut e = Emote::new(text("[multi"), FileState::Absent, FileState::Absent);
    assert_eq!(e.setup(), Err(EmoteError::Ruleset(RulesetError::Syntax)));
}

#[test]
fn malformed_ruleset_fatal_even_with_stale_cache() {
    let mut e = fresh();
    e.setup().unwrap();
    let (_, h, m) = files(&e);
    let mut again = Emote::new(text("[multi.a]\nwords = [\"a\"]\n"), h, m);
    assert_eq!(again.setup(), Err(EmoteError::Ruleset(RulesetError::Schema)));
}

#[test]
fn unreadable_ruleset_is_fatal() {
    let mut e = Emote::new(FileState::Unreadable, FileState::Absent, FileState::Absent);
    assert_eq!(e.setup(), Err(EmoteError::Config(FileError::Unreadable)));
}

#[test]
fn unreadable_sidecar_is_fatal_when_cache_present() {
    let mut e = Emote::new(text(DEFAULT_CONFIG), FileState::Unreadable, text("{}"));
    assert_eq!(e.setup(), Err(EmoteError::Config(FileError::Unreadable)));
    let mut f = Emote::new(text(DEFAULT_CONFIG), FileState::Unreadable, FileState::Absent);
    assert_eq!(f.setup(), Ok(Outcome::Built));
}

#[test]
fn substitution_replaces_known_tokens() {
    let rules = "[multi.shrug]\nmulti = \"¯\\\\_(ツ)_/¯\"\nwords = [\"shrug\"]\n";
    let mut e = Emote::new(text(rules), FileState::Absent, FileState::Absent);
    assert_eq!(e.setup(), Ok(Outcome::Built));
    assert_eq!(e.replace("shrug :shrug: ok :nope:"), "shrug ¯\\_(ツ)_/¯ ok :nope:");
}

#[test]
fn substitution_edge_cases() {
    let rules = "[multi.a]\nmulti = \"A\"\nwords = [\"a\", \"b_c\"]\n\n[multi.loop]\nmulti = \":a:\"\nwords = [\"loop\"]\n";
    let mut e = Emote::new(text(rules), FileState::Absent, FileState::Absent);
    e.setup().unwrap();
    assert_eq!(e.replace(""), "");
    assert_eq!(e.replace(":"), ":");
    assert_eq!(e.replace("::"), "::");
    assert_eq!(e.replace("::a:"), ":A");
    assert_eq!(e.replace(":a:a:"), "Aa:");
    assert_eq!(e.replace(":a::a:"), "AA");
    assert_eq!(e.replace(":b_c: :B_C:"), "A :B_C:");
    assert_eq!(e.replace(":a"), ":a");
    assert_eq!(e.replace(":a1:"), ":a1:");
    assert_eq!(e.replace("é:a:ü"), "éAü");
    assert_eq!(e.replace(":loop:"), ":a:");
}

#[test]
fn later_entry_wins_on_shared_word() {
    let rules = "[multi.zeta]\nmulti = \"Z\"\nwords = [\"x\"]\n\n[multi.alpha]\nmulti = \"A\"\nwords = [\"x\"]\n";
    let mut e = Emote::new(text(rules), FileState::Absent, FileState::Absent);
    e.setup().unwrap();
    assert_eq!(e.get("x").map(|s| s.as_str()), Some("Z"));
}
