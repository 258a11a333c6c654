use clipboard_history::hasher::{content_hash, to_hex};

#[test]
fn hash_of_known_text() {
    let h = content_hash("hello", &Vec::new());
    assert_eq!(h, "2cf24dba5fb0a30e26e83b2ac5b9e29e1b161e5c1fa7425e73043362938b9824");
}

#[test]
fn hash_of_empty_text() {
    let h = content_hash("", &Vec::new());
    assert_eq!(h, "e3b0c44298fc1c149afbf4c8996fb92427ae41e4649b934ca495991b7852b855");
}

#[test]
fn hash_parts_have_no_separator() {
    let joined = content_hash("ab", &Vec::new());
    let split = content_hash("a", &vec!["b".to_string()]);
    assert_eq!(joined, split);
    assert_eq!(content_hash("", &vec!["a".to_string(), "b".to_string()]), joined);
}

#[test]
fn hash_depends_on_paths() {
    let plain = content_hash("files", &Vec::new());
    let with_path = content_hash("files", &vec!["/tmp/x".to_string()]);
    assert_ne!(plain, with_path);
    assert_eq!(with_path.len(), 64);
}

#[test]
fn hex_encoding() {
    assert_eq!(to_hex(&vec![0x00, 0x0f, 0xa0, 0xff]), "000fa0ff");
    assert_eq!(to_hex(&Vec::new()), "");
}
