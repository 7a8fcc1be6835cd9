//! Tests of the string-level logic: the inspection-report parser, the
//! success-marker judgement, path safety, icon selection, metadata lookup
//! and the report template.

use ipa_inspect::pathcheck::is_safe_entry_name;
use ipa_inspect::package::build_report;
use ipa_inspect::pipeline::select_icon;
use ipa_inspect::plist_doc::read_metadata;
use ipa_inspect::plist_doc::PlistValue;
use ipa_inspect::signing::codesign_succeeded;
use ipa_inspect::signing::parse_inspection_report;

#[test]
fn fingerprint_and_modulus_lines() {
    let out = "SHA1 Fingerprint=AB:CD:EF\nModulus=112233";
    let (sha1, modulus) = parse_inspection_report(out);
    assert_eq!(sha1, "ABCDEF");
    assert_eq!(modulus, "112233");
}

#[test]
fn fingerprint_lines_with_crlf_and_extra_lines() {
    let out = "SHA1 Fingerprint=AA:BB\r\nModulus=00:11\r\nignored line\n";
    let (sha1, modulus) = parse_inspection_report(out);
    assert_eq!(sha1, "AABB");
    assert_eq!(modulus, "0011");
}

#[test]
fn report_without_equals_degrades_to_whole_lines() {
    let (sha1, modulus) = parse_inspection_report("hello\nwor:ld");
    assert_eq!(sha1, "hello");
    assert_eq!(modulus, "world");
}

#[test]
fn report_single_line_used_for_both_fields() {
    let (sha1, modulus) = parse_inspection_report("A=B");
    assert_eq!(sha1, "B");
    assert_eq!(modulus, "B");
}

#[test]
fn report_empty_gives_empty_fields() {
    let (sha1, modulus) = parse_inspection_report("");
    assert_eq!(sha1, "");
    assert_eq!(modulus, "");
}

#[test]
fn codesign_marker_judgement() {
    assert!(codesign_succeeded("Executable=/tmp/Payload/Demo.app/Demo\nIdentifier=com.demo"));
    assert!(!codesign_succeeded("code object is not signed at all"));
    assert!(!codesign_succeeded(""));
}

#[test]
fn entry_name_safety() {
    assert!(is_safe_entry_name("Payload/Demo.app/Info.plist"));
    assert!(is_safe_entry_name("Payload/"));
    assert!(is_safe_entry_name("a/./b"));
    assert!(is_safe_entry_name("a/../b"));
    assert!(!is_safe_entry_name("../evil"));
    assert!(!is_safe_entry_name("a/../../b"));
    assert!(!is_safe_entry_name("/absolute"));
    assert!(!is_safe_entry_name(""));
    assert!(!is_safe_entry_name("a\u{0}b"));
}

#[test]
fn icon_selection_prefers_exact_then_least() {
    let files = vec![
        "zAppIcon60x60@3x.png".to_string(),
        "AppIcon60x60@2x.png".to_string(),
        "AppIcon60x60.png".to_string(),
        "AppIcon60x60.jpg".to_string(),
    ];
    let sel = select_icon(&files, "AppIcon60x60");
    assert_eq!(sel, Some("AppIcon60x60.png".to_string()));
}

#[test]
fn icon_selection_least_substring_match_without_exact() {
    let files = vec![
        "zIcon@3x.png".to_string(),
        "aIcon@2x.png".to_string(),
        "notes.txt".to_string(),
    ];
    let sel = select_icon(&files, "Icon");
    assert_eq!(sel, Some("aIcon@2x.png".to_string()));
}

#[test]
fn icon_selection_none_without_candidates() {
    let files = vec!["readme.md".to_string(), "Icon.jpeg".to_string()];
    assert_eq!(select_icon(&files, "Icon"), None);
}

#[test]
fn metadata_lookup_reads_all_three_fields() {
    let doc = PlistValue::Dict(vec![
        ("CFBundleName".to_string(), PlistValue::Text("Demo".to_string())),
        ("CFBundleIdentifier".to_string(), PlistValue::Text("com.demo".to_string())),
        (
            "CFBundleIcons".to_string(),
            PlistValue::Dict(vec![(
                "CFBundlePrimaryIcon".to_string(),
                PlistValue::Dict(vec![(
                    "CFBundleIconFiles".to_string(),
                    PlistValue::List(vec![PlistValue::Text("AppIcon60x60".to_string())]),
                )]),
            )]),
        ),
    ]);
    let (name, bundle_id, hint) = read_metadata(&doc);
    assert_eq!(name, "Demo");
    assert_eq!(bundle_id, "com.demo");
    assert_eq!(hint, "AppIcon60x60");
}

#[test]
fn metadata_missing_keys_give_empty_fields() {
    let doc = PlistValue::Dict(vec![(
        "CFBundleName".to_string(),
        PlistValue::Text("OnlyName".to_string()),
    )]);
    let (name, bundle_id, hint) = read_metadata(&doc);
    assert_eq!(name, "OnlyName");
    assert_eq!(bundle_id, "");
    assert_eq!(hint, "");
}

#[test]
fn metadata_wrongly_typed_values_give_empty_fields() {
    let doc = PlistValue::Dict(vec![
        ("CFBundleName".to_string(), PlistValue::Other),
        ("CFBundleIdentifier".to_string(), PlistValue::List(vec![])),
        ("CFBundleIcons".to_string(), PlistValue::Text("nope".to_string())),
    ]);
    let (name, bundle_id, hint) = read_metadata(&doc);
    assert_eq!(name, "");
    assert_eq!(bundle_id, "");
    assert_eq!(hint, "");
}

#[test]
fn metadata_non_dictionary_document_gives_empty_fields() {
    let (name, bundle_id, hint) = read_metadata(&PlistValue::Other);
    assert_eq!(name, "");
    assert_eq!(bundle_id, "");
    assert_eq!(hint, "");
}

#[test]
fn report_template_exact_text() {
    let text = build_report("Foo", "com.foo", "AABB", "CC");
    assert_eq!(
        text,
        "APP名称：Foo\n\nBundle Id：com.foo\n\n证书MD5指纹(签名MD5值、SHA-1)：AABB\n\nModulus(公钥)：CC"
    );
}
