use sync_saves::codec::pack;
use sync_saves::archive::{NodeContent, SourceTree, TreeNode};
use sync_saves::fingerprint::fingerprint;
use sync_saves::text::decimal;

#[test]
fn fingerprint_of_known_inputs() {
    assert_eq!(fingerprint(b""), "e3b0c44298fc1c149afbf4c8996fb92427ae41e4649b934ca495991b7852b855");
    assert_eq!(fingerprint(b"abc"), "ba7816bf8f01cfea414140de5dae2223b00361a396177a9cb410ff61f20015ad");
}

#[test]
fn fingerprint_is_lowercase_hex_of_length_64() {
    let f = fingerprint(&[0u8, 1, 2, 3]);
    assert_eq!(f.len(), 64);
    assert!(f.chars().all(|c| c.is_ascii_hexdigit() && !c.is_ascii_uppercase()));
}

#[test]
fn packing_unchanged_content_gives_same_fingerprint() {
    let tree = SourceTree::Directory(vec![
        TreeNode { path: String::new(), content: NodeContent::Directory },
        TreeNode { path: "save.dat".to_string(), content: NodeContent::File(vec![42; 100]) },
    ]);
    let a = pack(&tree).unwrap();
    let b = pack(&tree).unwrap();
    assert_eq!(fingerprint(&a), fingerprint(&b));
    let changed = SourceTree::Directory(vec![
        TreeNode { path: String::new(), content: NodeContent::Directory },
        TreeNode { path: "save.dat".to_string(), content: NodeContent::File(vec![43; 100]) },
    ]);
    assert_ne!(fingerprint(&a), fingerprint(&pack(&changed).unwrap()));
}

#[test]
fn decimal_forms() {
    assert_eq!(decimal(0), "0");
    assert_eq!(decimal(7), "7");
    assert_eq!(decimal(1234567890), "1234567890");
    assert_eq!(decimal(u64::MAX), "18446744073709551615");
}
