use macdiet::snapshots::{
    extract_diskutil_snapshot_uuids, is_uuid, parse_diskutil_apfs_list_snapshots,
};

#[test]
fn is_uuid_accepts_basic_uuid() {
    assert!(is_uuid("01234567-89ab-cdef-0123-456789abcdef"));
    assert!(is_uuid("01234567-89AB-CDEF-0123-456789ABCDEF"));
}

#[test]
fn is_uuid_rejects_non_uuid() {
    assert!(!is_uuid("not-a-uuid"));
    assert!(!is_uuid("01234567-89ab-cdef-0123-456789abcde")); // too short
    assert!(!is_uuid("0123456789ab-cdef-0123-456789abcdef")); // missing dash
}

#[test]
fn extract_diskutil_snapshot_uuids_pulls_uuid_tokens_from_uuid_lines() {
    let sample = r#"
Snapshots for disk1s1 (2 found)
|
+-- 01234567-89AB-CDEF-0123-456789ABCDEF
    Name: com.apple.TimeMachine.2026-01-01-000000.local
    Snapshot UUID: 89abcdef-0123-4567-89ab-cdef01234567
"#;
    let uuids = extract_diskutil_snapshot_uuids(sample);
    assert!(uuids.iter().any(|u| u == "01234567-89ab-cdef-0123-456789abcdef"));
    assert!(uuids.iter().any(|u| u == "89abcdef-0123-4567-89ab-cdef01234567"));
    let cat = parse_diskutil_apfs_list_snapshots(sample);
    assert!(
        cat.uuids_for("com.apple.TimeMachine.2026-01-01-000000.local")
            .is_some()
    );
}

#[test]
fn parse_diskutil_handles_pipe_prefixed_tree_lines() {
    let sample = r#"
Snapshots for disk1s1 (1 found)
|
| +-- com.apple.TimeMachine.2026-01-01-000000.local
|     Snapshot UUID: 89abcdef-0123-4567-89ab-cdef01234567
"#;
    let cat = parse_diskutil_apfs_list_snapshots(sample);
    assert!(cat.uuid_known("89abcdef-0123-4567-89ab-cdef01234567"));
    let uuids = cat
        .uuids_for("com.apple.TimeMachine.2026-01-01-000000.local")
        .expect("name mapping");
    assert!(uuids.iter().any(|u| u == "89abcdef-0123-4567-89ab-cdef01234567"));
}

#[test]
fn parse_diskutil_groups_uuids_under_their_tree() {
    let sample = "\
+-- tree-one
    Name: snap.one
    Snapshot UUID: 01234567-89AB-CDEF-0123-456789ABCDEF
+-- tree-two
    Name: snap.two
    Snapshot UUID: 89ABCDEF-0123-4567-89AB-CDEF01234567
";
    let cat = parse_diskutil_apfs_list_snapshots(sample);
    assert!(cat.name_known("tree-one"));
    assert!(cat.name_known("snap.two"));
    let one = cat.uuids_for("snap.one").expect("snap.one");
    assert!(one.iter().any(|u| u == "01234567-89ab-cdef-0123-456789abcdef"));
    assert!(!one.iter().any(|u| u == "89abcdef-0123-4567-89ab-cdef01234567"));
    let two = cat.uuids_for("tree-two").expect("tree-two");
    assert!(two.iter().any(|u| u == "89abcdef-0123-4567-89ab-cdef01234567"));
    assert!(cat.uuids_for("unknown-name").is_none());
}

#[test]
fn a_name_without_uuids_is_known_but_has_no_mapping() {
    let sample = "+-- lonely-tree\n";
    let cat = parse_diskutil_apfs_list_snapshots(sample);
    assert!(cat.name_known("lonely-tree"));
    assert!(cat.uuids_for("lonely-tree").is_none());
    assert!(!cat.uuid_known("lonely-tree"));
}
