use sync_saves::archive::{
    plan_pack, plan_unpack, ArchiveEntry, NodeContent, ReadEntry, RestorePlan, SourceTree, TreeNode,
    SINGLE_FILE_ENTRY,
};
use sync_saves::codec::{pack, read_archive, unpack, ArchiveError};

fn node(path: &str, content: NodeContent) -> TreeNode {
    TreeNode { path: path.to_string(), content }
}

fn sample_tree() -> SourceTree {
    SourceTree::Directory(vec![
        node("", NodeContent::Directory),
        node("save.dat", NodeContent::File(b"hello, world".to_vec())),
        node("backups", NodeContent::Directory),
    ])
}

fn steps_of(plan: RestorePlan) -> Vec<(String, Option<Vec<u8>>)> {
    match plan {
        RestorePlan::Tree(steps) => steps
            .into_iter()
            .map(|s| {
                let c = match s.content {
                    NodeContent::File(b) => Some(b),
                    NodeContent::Directory => None,
                };
                (s.path, c)
            })
            .collect(),
        RestorePlan::SingleFile(_) => panic!("expected a directory restore"),
    }
}

#[test]
fn directory_with_file_and_empty_subdirectory_round_trips() {
    let blob = pack(&sample_tree()).expect("pack");
    let plan = unpack(blob).expect("unpack");
    let steps = steps_of(plan);
    assert_eq!(
        steps,
        vec![
            ("save.dat".to_string(), Some(b"hello, world".to_vec())),
            ("backups".to_string(), None),
        ]
    );
    assert_eq!(steps[0].1.as_ref().unwrap().len(), 12);
}

#[test]
fn single_file_round_trips_under_reserved_name() {
    let bytes = b"slot one data".to_vec();
    let blob = pack(&SourceTree::File(bytes.clone())).expect("pack");
    let entries = read_archive(blob.clone()).expect("read");
    assert_eq!(entries.len(), 1);
    assert_eq!(entries[0].name, SINGLE_FILE_ENTRY);
    match unpack(blob).expect("unpack") {
        RestorePlan::SingleFile(b) => assert_eq!(b, bytes),
        RestorePlan::Tree(_) => panic!("expected a single file"),
    }
}

#[test]
fn empty_file_round_trips() {
    let blob = pack(&SourceTree::File(Vec::new())).expect("pack");
    match unpack(blob).expect("unpack") {
        RestorePlan::SingleFile(b) => assert!(b.is_empty()),
        RestorePlan::Tree(_) => panic!("expected a single file"),
    }
}

#[test]
fn nested_tree_round_trips_in_walk_order() {
    let tree = SourceTree::Directory(vec![
        node("", NodeContent::Directory),
        node("a", NodeContent::Directory),
        node("a/b", NodeContent::Directory),
        node("a/b/c.bin", NodeContent::File(vec![0, 1, 2, 255])),
        node("top.txt", NodeContent::File(Vec::new())),
    ]);
    let steps = steps_of(unpack(pack(&tree).unwrap()).unwrap());
    assert_eq!(
        steps,
        vec![
            ("a".to_string(), None),
            ("a/b".to_string(), None),
            ("a/b/c.bin".to_string(), Some(vec![0, 1, 2, 255])),
            ("top.txt".to_string(), Some(Vec::new())),
        ]
    );
}

#[test]
fn pack_plan_names_entries() {
    let entries: Vec<ArchiveEntry> = plan_pack(&sample_tree());
    let names: Vec<&str> = entries.iter().map(|e| e.name.as_str()).collect();
    assert_eq!(names, vec!["save.dat", "backups/"]);
    assert!(entries[1].data.is_none());
    let single = plan_pack(&SourceTree::File(vec![7]));
    assert_eq!(single.len(), 1);
    assert_eq!(single[0].name, "__SYNC_SINGLE_FILE__");
    assert_eq!(single[0].data, Some(vec![7]));
}

#[test]
fn archive_entries_keep_names_and_modes() {
    let entries = read_archive(pack(&sample_tree()).unwrap()).unwrap();
    let names: Vec<&str> = entries.iter().map(|e| e.name.as_str()).collect();
    assert_eq!(names, vec!["save.dat", "backups/"]);
    for e in &entries {
        assert_eq!(e.enclosed.as_deref(), Some(e.name.as_str()));
        assert_eq!(e.mode.map(|m| m & 0o777), Some(0o755));
    }
}

#[test]
fn unpack_skips_entries_outside_target_and_finds_marker() {
    let listing = vec![
        ReadEntry { name: "../evil".to_string(), enclosed: None, mode: None, data: vec![1] },
        ReadEntry { name: "dir/".to_string(), enclosed: Some("dir/".to_string()), mode: Some(0o40755), data: vec![] },
        ReadEntry { name: "dir/f".to_string(), enclosed: Some("dir/f".to_string()), mode: None, data: vec![9] },
    ];
    let steps = steps_of(plan_unpack(&listing));
    assert_eq!(steps, vec![("dir".to_string(), None), ("dir/f".to_string(), Some(vec![9]))]);

    let with_marker = vec![
        ReadEntry { name: "x".to_string(), enclosed: Some("x".to_string()), mode: None, data: vec![1] },
        ReadEntry { name: SINGLE_FILE_ENTRY.to_string(), enclosed: Some(SINGLE_FILE_ENTRY.to_string()), mode: None, data: vec![5, 6] },
    ];
    match plan_unpack(&with_marker) {
        RestorePlan::SingleFile(b) => assert_eq!(b, vec![5, 6]),
        RestorePlan::Tree(_) => panic!("expected single file mode"),
    }
}

#[test]
fn overlong_entry_name_is_an_error_not_a_panic() {
    let long = "n".repeat(70_000);
    let tree = SourceTree::Directory(vec![node(&long, NodeContent::File(vec![1]))]);
    match pack(&tree) {
        Err(ArchiveError::Io(m)) => assert_eq!(m, "entry name too long for an archive"),
        other => panic!("expected an io error, got {:?}", other.map(|_| ())),
    }
    let fits = "n".repeat(16_383);
    let ok = SourceTree::Directory(vec![node(&fits, NodeContent::File(vec![1]))]);
    let entries = read_archive(pack(&ok).expect("pack")).expect("read");
    assert_eq!(entries[0].name, fits);
}

#[test]
fn garbage_is_corrupt() {
    match unpack(b"not a zip at all".to_vec()) {
        Err(ArchiveError::Corrupt(_)) => {}
        other => panic!("expected corrupt, got {:?}", other.map(|_| ())),
    }
}

#[test]
fn duplicate_entry_names_fail_to_pack() {
    let tree = SourceTree::Directory(vec![
        node("a.txt", NodeContent::File(vec![1])),
        node("a.txt", NodeContent::File(vec![2])),
    ]);
    match pack(&tree) {
        Err(ArchiveError::Io(_)) => {}
        other => panic!("expected an io error, got {:?}", other.map(|_| ())),
    }
}
