//! Tests of archive reading and the extraction plan, against real ZIP bytes
//! built with the zip crate: selective extraction, traversal containment,
//! and determinism of the plan.

use std::io::Cursor;
use std::io::Write;

use ipa_inspect::archive::plan_extraction;
use ipa_inspect::archive::read_archive_entries;
use ipa_inspect::archive::FsAction;

fn sample_archive() -> Vec<u8> {
    let mut w = zip::ZipWriter::new(Cursor::new(Vec::new()));
    let stored = zip::write::FileOptions::default()
        .compression_method(zip::CompressionMethod::Stored);
    w.add_directory("Payload/", zip::write::FileOptions::default()).unwrap();
    w.add_directory("Payload/Demo.app/", zip::write::FileOptions::default()).unwrap();
    w.start_file("Payload/Demo.app/Info.plist", stored).unwrap();
    w.write_all(b"plist-bytes").unwrap();
    w.start_file("Payload/Demo.app/runner", stored.unix_permissions(0o755)).unwrap();
    w.write_all(b"#!exec").unwrap();
    w.start_file("other/skipped.txt", stored).unwrap();
    w.write_all(b"outside the container").unwrap();
    w.start_file("../Payload/evil.txt", stored).unwrap();
    w.write_all(b"escape attempt").unwrap();
    w.finish().unwrap().into_inner()
}

#[test]
fn entries_are_read_in_archive_order() {
    let entries = read_archive_entries(sample_archive()).unwrap();
    let names: Vec<&str> = entries.iter().map(|e| e.name.as_str()).collect();
    assert_eq!(
        names,
        vec![
            "Payload/",
            "Payload/Demo.app/",
            "Payload/Demo.app/Info.plist",
            "Payload/Demo.app/runner",
            "other/skipped.txt",
            "../Payload/evil.txt",
        ]
    );
    assert_eq!(entries[2].data, b"plist-bytes".to_vec());
    assert!(entries[3].mode.is_some());
}

#[test]
fn unreadable_archive_is_rejected() {
    let r = read_archive_entries(b"not a zip at all".to_vec());
    assert_eq!(r.unwrap_err(), ipa_inspect::ErrorKind::ArchiveFormat);
}

#[test]
fn plan_keeps_only_safe_container_entries() {
    let entries = read_archive_entries(sample_archive()).unwrap();
    let plan = plan_extraction(&entries, "/cache/demo.ipa");
    assert_eq!(plan.len(), 4);
    match &plan[0] {
        FsAction::MakeDir { path, .. } => assert_eq!(path, "/cache/demo.ipa/Payload/"),
        other => panic!("expected a directory action, got {:?}", other),
    }
    match &plan[1] {
        FsAction::MakeDir { path, .. } => assert_eq!(path, "/cache/demo.ipa/Payload/Demo.app/"),
        other => panic!("expected a directory action, got {:?}", other),
    }
    match &plan[2] {
        FsAction::WriteFile { path, data, .. } => {
            assert_eq!(path, "/cache/demo.ipa/Payload/Demo.app/Info.plist");
            assert_eq!(data, &b"plist-bytes".to_vec());
        }
        other => panic!("expected a file action, got {:?}", other),
    }
    match &plan[3] {
        FsAction::WriteFile { path, mode, .. } => {
            assert_eq!(path, "/cache/demo.ipa/Payload/Demo.app/runner");
            assert!(mode.is_some());
        }
        other => panic!("expected a file action, got {:?}", other),
    }
}

#[test]
fn traversal_and_outside_entries_leave_no_action() {
    let entries = read_archive_entries(sample_archive()).unwrap();
    let plan = plan_extraction(&entries, "/cache/demo.ipa");
    for action in &plan {
        let path = match action {
            FsAction::MakeDir { path, .. } => path,
            FsAction::WriteFile { path, .. } => path,
        };
        assert!(path.starts_with("/cache/demo.ipa/Payload/"));
        assert!(!path.contains(".."));
        assert!(!path.contains("other/"));
    }
}

#[test]
fn plan_is_deterministic_for_the_same_archive() {
    let bytes = sample_archive();
    let entries_a = read_archive_entries(bytes.clone()).unwrap();
    let entries_b = read_archive_entries(bytes).unwrap();
    assert_eq!(entries_a, entries_b);
    let plan_a = plan_extraction(&entries_a, "/cache/demo.ipa");
    let plan_b = plan_extraction(&entries_b, "/cache/demo.ipa");
    assert_eq!(plan_a, plan_b);
}
