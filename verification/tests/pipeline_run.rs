//! A scripted end-to-end run of the pipeline's state machine, with the
//! driver's answers supplied as literal events, plus the degraded and
//! failing paths: a missing bundle directory, a certificate tool that does
//! not recognize the executable, and an inspection tool that wrote to its
//! error stream.

use std::io::Cursor;
use std::io::Read;
use std::io::Write;

use ipa_inspect::package::build_package_zip;
use ipa_inspect::package::build_report;
use ipa_inspect::pipeline::next_step;
use ipa_inspect::pipeline::start;
use ipa_inspect::pipeline::PipeAction;
use ipa_inspect::pipeline::PipeEvent;
use ipa_inspect::pipeline::PipeState;
use ipa_inspect::plist_doc::PlistValue;
use ipa_inspect::ErrorKind;

fn demo_archive() -> Vec<u8> {
    let mut w = zip::ZipWriter::new(Cursor::new(Vec::new()));
    let stored = zip::write::FileOptions::default()
        .compression_method(zip::CompressionMethod::Stored);
    w.add_directory("Payload/Demo.app/", zip::write::FileOptions::default()).unwrap();
    w.start_file("Payload/Demo.app/Info.plist", stored).unwrap();
    w.write_all(b"binary plist stand-in").unwrap();
    w.finish().unwrap().into_inner()
}

fn demo_plist() -> PlistValue {
    PlistValue::Dict(vec![
        ("CFBundleName".to_string(), PlistValue::Text("Demo".to_string())),
        ("CFBundleIdentifier".to_string(), PlistValue::Text("com.demo".to_string())),
        (
            "CFBundleIcons".to_string(),
            PlistValue::Dict(vec![(
                "CFBundlePrimaryIcon".to_string(),
                PlistValue::Dict(vec![(
                    "CFBundleIconFiles".to_string(),
                    PlistValue::List(vec![PlistValue::Text("AppIcon".to_string())]),
                )]),
            )]),
        ),
    ])
}

#[test]
fn full_run_produces_the_assembled_result() {
    let (st, act) = start("/downloads/demo.ipa", "/cache");
    match &act {
        PipeAction::ReadArchive { path } => assert_eq!(path, "/downloads/demo.ipa"),
        other => panic!("unexpected action {:?}", other),
    }

    let (st, act) = next_step(st, PipeEvent::ArchiveBytes { bytes: demo_archive() });
    match &act {
        PipeAction::Extract { purge_dir, steps, listing_dir } => {
            assert_eq!(purge_dir, "/cache/demo.ipa");
            assert_eq!(listing_dir, "/cache/demo.ipa/Payload");
            assert_eq!(steps.len(), 2);
        }
        other => panic!("unexpected action {:?}", other),
    }

    let (st, act) = next_step(
        st,
        PipeEvent::Extracted { children: vec![("Demo.app".to_string(), true)] },
    );
    match &act {
        PipeAction::ReadPlist { path } => {
            assert_eq!(path, "/cache/demo.ipa/Payload/Demo.app/Info.plist")
        }
        other => panic!("unexpected action {:?}", other),
    }

    let (st, act) = next_step(st, PipeEvent::PlistDoc { doc: demo_plist() });
    match &act {
        PipeAction::ListBundle { dir } => assert_eq!(dir, "/cache/demo.ipa/Payload/Demo.app"),
        other => panic!("unexpected action {:?}", other),
    }

    let (st, act) = next_step(
        st,
        PipeEvent::BundleFiles { files: vec!["AppIcon.png".to_string(), "Demo".to_string()] },
    );
    match &act {
        PipeAction::NormalizeIcon { dir, file, output } => {
            assert_eq!(dir, "/cache/demo.ipa/Payload/Demo.app");
            assert_eq!(file, "/cache/demo.ipa/Payload/Demo.app/AppIcon.png");
            assert_eq!(output, "/cache/demo.ipa/Payload/Demo.app/-d/AppIcon.png");
        }
        other => panic!("unexpected action {:?}", other),
    }

    let (st, act) = next_step(
        st,
        PipeEvent::IconBytes { launched: true, data: Some(b"hello".to_vec()) },
    );
    match &act {
        PipeAction::RunCodesign { dir, app } => {
            assert_eq!(dir, "/cache/demo.ipa/Payload");
            assert_eq!(app, "/cache/demo.ipa/Payload/Demo.app");
        }
        other => panic!("unexpected action {:?}", other),
    }

    let (st, act) = next_step(
        st,
        PipeEvent::CodesignOutput {
            launched: true,
            diagnostic: "Executable=/cache/demo.ipa/Payload/Demo.app/Demo".to_string(),
        },
    );
    match &act {
        PipeAction::RunOpenssl { cert } => {
            assert_eq!(cert, "/cache/demo.ipa/Payload/codesign0")
        }
        other => panic!("unexpected action {:?}", other),
    }

    let (st, act) = next_step(
        st,
        PipeEvent::OpensslOutput {
            launched: true,
            report: "SHA1 Fingerprint=AB:CD\nModulus=112233\n".to_string(),
            errors: String::new(),
        },
    );
    let package_bytes = match act {
        PipeAction::WritePackage { ref path, ref bytes } => {
            assert_eq!(path, "/cache/demo.ipa/Payload/Demo.app/Demo备案材料iOS");
            bytes.clone()
        }
        other => panic!("unexpected action {:?}", other),
    };

    let (_st, act) = next_step(st, PipeEvent::PackageWritten);
    match act {
        PipeAction::Finish { result } => {
            assert_eq!(result.name, "Demo");
            assert_eq!(result.bundle_id, "com.demo");
            assert_eq!(result.icon, "aGVsbG8=");
            assert_eq!(result.sha1, "ABCD");
            assert_eq!(result.modulus, "112233");
            assert_eq!(
                result.cache_zip_path,
                "/cache/demo.ipa/Payload/Demo.app/Demo备案材料iOS"
            );
        }
        other => panic!("unexpected action {:?}", other),
    }

    let mut z = zip::ZipArchive::new(Cursor::new(package_bytes)).unwrap();
    let names: Vec<String> = (0..z.len()).map(|i| z.by_index(i).unwrap().name().to_string()).collect();
    assert_eq!(
        names,
        vec![
            "Demo备案材料iOS/",
            "Demo备案材料iOS/特征.txt",
            "Demo备案材料iOS/icon.png",
        ]
    );
    let mut text = String::new();
    z.by_index(1).unwrap().read_to_string(&mut text).unwrap();
    assert_eq!(text, build_report("Demo", "com.demo", "ABCD", "112233"));
    let mut icon = Vec::new();
    z.by_index(2).unwrap().read_to_end(&mut icon).unwrap();
    assert_eq!(icon, b"hello".to_vec());
}

#[test]
fn packaging_matches_the_fixed_entry_list() {
    let report = build_report("Foo", "com.foo", "AABB", "CC");
    let bytes = build_package_zip("Foo备案材料iOS", report.as_str(), &b"png-bytes".to_vec())
        .unwrap();
    let mut z = zip::ZipArchive::new(Cursor::new(bytes)).unwrap();
    assert_eq!(z.len(), 3);
    assert_eq!(z.by_index(0).unwrap().name(), "Foo备案材料iOS/");
    assert!(z.by_index(0).unwrap().is_dir());
    let mut text = String::new();
    z.by_index(1).unwrap().read_to_string(&mut text).unwrap();
    assert_eq!(
        text,
        "APP名称：Foo\n\nBundle Id：com.foo\n\n证书MD5指纹(签名MD5值、SHA-1)：AABB\n\nModulus(公钥)：CC"
    );
    assert_eq!(
        z.by_index(1).unwrap().compression(),
        zip::CompressionMethod::Stored
    );
    assert_eq!(z.by_index(1).unwrap().unix_mode(), Some(0o100755));
    let mut icon = Vec::new();
    z.by_index(2).unwrap().read_to_end(&mut icon).unwrap();
    assert_eq!(icon, b"png-bytes".to_vec());
}

#[test]
fn missing_bundle_directory_fails_path_resolution() {
    let (st, _act) = start("/downloads/demo.ipa", "/cache");
    let (st, _act) = next_step(st, PipeEvent::ArchiveBytes { bytes: demo_archive() });
    let (st, act) = next_step(
        st,
        PipeEvent::Extracted { children: vec![("Readme.txt".to_string(), false)] },
    );
    assert!(matches!(st, PipeState::Failed { error: ErrorKind::PathResolution }));
    assert!(matches!(act, PipeAction::Fail { error: ErrorKind::PathResolution }));
}

#[test]
fn unrecognized_executable_stops_before_inspection() {
    let st = PipeState::AwaitCodesign {
        app_path: "/cache/demo.ipa/Payload/Demo.app".to_string(),
        name: "Demo".to_string(),
        bundle_id: "com.demo".to_string(),
        icon_b64: String::new(),
        icon_bytes: None,
    };
    let (st, act) = next_step(
        st,
        PipeEvent::CodesignOutput {
            launched: true,
            diagnostic: "code object is not signed at all".to_string(),
        },
    );
    assert!(matches!(st, PipeState::Failed { error: ErrorKind::ToolFailed }));
    assert!(matches!(act, PipeAction::Fail { error: ErrorKind::ToolFailed }));
}

#[test]
fn codesign_launch_failure_is_distinct() {
    let st = PipeState::AwaitCodesign {
        app_path: "/a/b.app".to_string(),
        name: "B".to_string(),
        bundle_id: "com.b".to_string(),
        icon_b64: String::new(),
        icon_bytes: None,
    };
    let (_st, act) = next_step(
        st,
        PipeEvent::CodesignOutput { launched: false, diagnostic: String::new() },
    );
    assert!(matches!(act, PipeAction::Fail { error: ErrorKind::ToolLaunch }));
}

#[test]
fn inspection_error_stream_fails_the_call() {
    let st = PipeState::AwaitOpenssl {
        app_path: "/a/b.app".to_string(),
        name: "B".to_string(),
        bundle_id: "com.b".to_string(),
        icon_b64: String::new(),
        icon_bytes: Some(Vec::new()),
    };
    let (_st, act) = next_step(
        st,
        PipeEvent::OpensslOutput {
            launched: true,
            report: "SHA1 Fingerprint=AB\nModulus=11".to_string(),
            errors: "unable to load certificate".to_string(),
        },
    );
    assert!(matches!(act, PipeAction::Fail { error: ErrorKind::ToolFailed }));
}

#[test]
fn missing_icon_bytes_fail_at_packaging() {
    let st = PipeState::AwaitOpenssl {
        app_path: "/a/b.app".to_string(),
        name: "B".to_string(),
        bundle_id: "com.b".to_string(),
        icon_b64: String::new(),
        icon_bytes: None,
    };
    let (_st, act) = next_step(
        st,
        PipeEvent::OpensslOutput {
            launched: true,
            report: "SHA1 Fingerprint=AB\nModulus=11".to_string(),
            errors: String::new(),
        },
    );
    assert!(matches!(act, PipeAction::Fail { error: ErrorKind::Io }));
}

#[test]
fn icon_tool_launch_failure_is_fatal_and_distinct() {
    let st = PipeState::AwaitIcon {
        app_path: "/a/b.app".to_string(),
        name: "B".to_string(),
        bundle_id: "com.b".to_string(),
    };
    let (st, act) = next_step(st, PipeEvent::IconBytes { launched: false, data: None });
    assert!(matches!(st, PipeState::Failed { error: ErrorKind::ToolLaunch }));
    assert!(matches!(act, PipeAction::Fail { error: ErrorKind::ToolLaunch }));
}

#[test]
fn icon_tool_without_output_degrades_to_absent_icon() {
    let st = PipeState::AwaitIcon {
        app_path: "/a/b.app".to_string(),
        name: "B".to_string(),
        bundle_id: "com.b".to_string(),
    };
    let (st, act) = next_step(st, PipeEvent::IconBytes { launched: true, data: None });
    assert!(matches!(act, PipeAction::RunCodesign { .. }));
    match st {
        PipeState::AwaitCodesign { icon_b64, icon_bytes, .. } => {
            assert_eq!(icon_b64, "");
            assert!(icon_bytes.is_none());
        }
        other => panic!("unexpected state {:?}", other),
    }
}

#[test]
fn archive_path_ending_in_dot_components_fails_at_once() {
    for path in ["..", "x/..", ".", "x/.", "x/"] {
        let (st, act) = start(path, "/cache");
        assert!(
            matches!(st, PipeState::Failed { error: ErrorKind::PathResolution }),
            "path {:?} must not start a run",
            path
        );
        assert!(matches!(act, PipeAction::Fail { error: ErrorKind::PathResolution }));
    }
}

#[test]
fn unreadable_archive_event_fails_with_format_error() {
    let (st, _act) = start("/downloads/demo.ipa", "/cache");
    let (st, act) = next_step(st, PipeEvent::ArchiveBytes { bytes: b"garbage".to_vec() });
    assert!(matches!(st, PipeState::Failed { error: ErrorKind::ArchiveFormat }));
    assert!(matches!(act, PipeAction::Fail { error: ErrorKind::ArchiveFormat }));
}

#[test]
fn driver_failure_event_aborts_with_its_error() {
    let (st, _act) = start("/downloads/demo.ipa", "/cache");
    let (st, act) = next_step(st, PipeEvent::Failed { error: ErrorKind::Io });
    assert!(matches!(st, PipeState::Failed { error: ErrorKind::Io }));
    assert!(matches!(act, PipeAction::Fail { error: ErrorKind::Io }));
}

#[test]
fn event_out_of_turn_is_a_driver_error() {
    let (st, _act) = start("/downloads/demo.ipa", "/cache");
    let (_st, act) = next_step(st, PipeEvent::PackageWritten);
    assert!(matches!(act, PipeAction::Fail { error: ErrorKind::Protocol }));
}

#[test]
fn archive_path_without_file_name_fails_at_once() {
    let (st, act) = start("", "/cache");
    assert!(matches!(st, PipeState::Failed { error: ErrorKind::PathResolution }));
    assert!(matches!(act, PipeAction::Fail { error: ErrorKind::PathResolution }));
}
