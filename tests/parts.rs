use emote::digest::{digest_of, to_hex};
use emote::{build_emote_map, EmoteMap, FileError, FileState, FileUtil, LoadError, LookupTable, RulesetError};

#[test]
fn hex_is_lower_case_two_digits_per_byte() {
    assert_eq!(to_hex(&[0x00, 0xab, 0x10, 0xff]), "00ab10ff");
    assert_eq!(to_hex(&[]), "");
}

#[test]
fn digest_is_blake2b_512_hex() {
    assert_eq!(
        digest_of(""),
        "786a02f742015903c6c6fd852552d272912f4740e15847618a86e217f71f5419d25e1031afee585313896444934eb04b903a685b1448b755d56f701afe9be2ce"
    );
    assert_eq!(
        digest_of("abc"),
        "ba80a53f981c4d0d6a2797b69f12f6e94c212f14685ac4b74b12bb6fdbffa2d17d87c5392aab792dc252d5de4533cc9518d38aa8dbf1925ab92386edd4009923"
    );
    assert_ne!(digest_of("abc"), digest_of("abd"));
}

#[test]
fn tracker_without_sidecar_is_always_stale() {
    let mut f = FileUtil::new(FileState::Text("x".to_string()));
    assert_eq!(f.is_stale(), Ok(true));
    assert_eq!(f.store_hash(), Ok(()));
    assert_eq!(f.sidecar, None);
    assert_eq!(f.is_stale(), Ok(true));
}

#[test]
fn tracker_written_file_is_not_stale() {
    let mut f = FileUtil::new_hashed(FileState::Absent, FileState::Absent);
    assert!(!f.is_present());
    assert_eq!(f.is_stale(), Ok(true));
    assert_eq!(f.write("hello"), Ok(()));
    assert!(f.is_present());
    assert_eq!(f.read(), Ok("hello".to_string()));
    assert_eq!(f.sidecar, Some(FileState::Text(digest_of("hello"))));
    assert_eq!(f.is_stale(), Ok(false));
    f.file = FileState::Text("hello!".to_string());
    assert_eq!(f.is_stale(), Ok(true));
    assert_eq!(f.store_hash(), Ok(()));
    assert_eq!(f.is_stale(), Ok(false));
}

#[test]
fn tracker_errors() {
    let f = FileUtil::new(FileState::Absent);
    assert_eq!(f.read(), Err(FileError::NotFound));
    let g = FileUtil::new(FileState::Unreadable);
    assert_eq!(g.read(), Err(FileError::Unreadable));
    let mut h = FileUtil::new_hashed(FileState::Absent, FileState::Text("00".to_string()));
    assert_eq!(h.is_stale(), Err(FileError::NotFound));
    assert_eq!(h.store_hash(), Err(FileError::NotFound));
    assert_eq!(h.sidecar, Some(FileState::Text("00".to_string())));
    let k = FileUtil::new_hashed(FileState::Text("a".to_string()), FileState::Unreadable);
    assert_eq!(k.is_stale(), Err(FileError::Unreadable));
}

#[test]
fn persist_then_load_round_trips() {
    let mut m = EmoteMap::new(FileState::Absent);
    assert!(!m.has_been_persisted());
    let rules = "[multi.q]\nmulti = \"say \\\"hi\\\"\\n\\\\\"\nwords = [\"q\", \"quote\"]\n\n[multi.s]\nmulti = \"ƸӜƷ\"\nwords = [\"s\"]\n";
    assert_eq!(m.build(rules), Ok(()));
    m.persist();
    assert!(m.has_been_persisted());
    let mut loaded = EmoteMap::new(m.persist_file.file.clone());
    assert_eq!(loaded.load(), Ok(()));
    let mut a = loaded.map.to_pairs();
    let mut b = m.map.to_pairs();
    a.sort();
    b.sort();
    assert_eq!(a, b);
    assert_eq!(loaded.get("quote").map(|s| s.as_str()), Some("say \"hi\"\n\\"));
}

#[test]
fn persisted_form_is_json_object() {
    let mut m = EmoteMap::new(FileState::Absent);
    m.build("[multi.shrug]\nmulti = \"¯\\\\_(ツ)_/¯\"\nwords = [\"shrug\", \"idk\"]\n").unwrap();
    m.persist();
    assert_eq!(
        m.persist_file.file,
        FileState::Text("{\"idk\":\"¯\\\\_(ツ)_/¯\",\"shrug\":\"¯\\\\_(ツ)_/¯\"}".to_string())
    );
}

#[test]
fn load_errors_leave_table_alone() {
    let mut m = EmoteMap::new(FileState::Text("[1, 2]".to_string()));
    m.build("[multi.a]\nmulti = \"A\"\nwords = [\"a\"]\n").unwrap();
    assert_eq!(m.load(), Err(LoadError::Malformed));
    assert_eq!(m.get("a").map(|s| s.as_str()), Some("A"));
    let mut n = EmoteMap::new(FileState::Absent);
    assert_eq!(n.load(), Err(LoadError::File(FileError::NotFound)));
    let mut u = EmoteMap::new(FileState::Unreadable);
    assert_eq!(u.load(), Err(LoadError::File(FileError::Unreadable)));
}

#[test]
fn load_reads_json_object() {
    let mut m = EmoteMap::new(FileState::Text("{\"a\": \"1\", \"b\": \"2\"}".to_string()));
    assert_eq!(m.load(), Ok(()));
    assert_eq!(m.get("a").map(|s| s.as_str()), Some("1"));
    assert_eq!(m.get("b").map(|s| s.as_str()), Some("2"));
    assert_eq!(m.get("c"), None);
}

#[test]
fn build_errors_leave_table_alone() {
    let mut m = EmoteMap::new(FileState::Absent);
    m.build("[multi.a]\nmulti = \"A\"\nwords = [\"a\"]\n").unwrap();
    assert_eq!(m.build("multi = 3"), Err(RulesetError::Schema));
    assert_eq!(m.build("= ="), Err(RulesetError::Syntax));
    assert_eq!(m.get("a").map(|s| s.as_str()), Some("A"));
}

#[test]
fn ruleset_shapes() {
    assert!(build_emote_map("").is_err());
    assert_eq!(build_emote_map("[multi]\n").map(|t| t.to_pairs()), Ok(vec![]));
    assert_eq!(build_emote_map("[multi.a]\nmulti = 1\nwords = [\"a\"]\n").err(), Some(RulesetError::Schema));
    assert_eq!(build_emote_map("[multi.a]\nmulti = \"A\"\nwords = \"a\"\n").err(), Some(RulesetError::Schema));
    assert_eq!(build_emote_map("[multi.a]\nmulti = \"A\"\nwords = [\"a\", 2]\n").err(), Some(RulesetError::Schema));
    assert_eq!(build_emote_map("[multi]\na = 1\n").err(), Some(RulesetError::Schema));
    assert_eq!(build_emote_map("multi = [1]\n").err(), Some(RulesetError::Schema));
    let t = build_emote_map("[multi.a]\nmulti = \"A\"\nwords = []\nextra = true\n").unwrap();
    assert_eq!(t.to_pairs(), vec![]);
}

#[test]
fn table_insert_replaces() {
    let mut t = LookupTable::new();
    assert_eq!(t.get("k"), None);
    t.insert("k".to_string(), "1".to_string());
    t.insert("j".to_string(), "2".to_string());
    t.insert("k".to_string(), "3".to_string());
    assert_eq!(t.get("k").map(|s| s.as_str()), Some("3"));
    assert_eq!(t.get("j").map(|s| s.as_str()), Some("2"));
    assert_eq!(t.get("K"), None);
    assert_eq!(t.to_pairs().len(), 2);
}
