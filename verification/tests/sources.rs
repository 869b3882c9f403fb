use shader_lab::sources::SourceTable;

#[test]
fn lookup_finds_what_was_inserted() {
    let mut t = SourceTable::new();
    assert!(t.lookup("a").is_none());
    t.insert("a".to_string(), Ok("one".to_string()));
    t.insert("b".to_string(), Err("denied".to_string()));
    assert_eq!(t.lookup("a"), Some(Ok("one".to_string())));
    assert_eq!(t.lookup("b"), Some(Err("denied".to_string())));
    assert!(t.lookup("c").is_none());
}

#[test]
fn insert_replaces_an_earlier_entry() {
    let mut t = SourceTable::new();
    t.insert("a".to_string(), Ok("one".to_string()));
    t.insert("a".to_string(), Ok("two".to_string()));
    assert_eq!(t.lookup("a"), Some(Ok("two".to_string())));
}
