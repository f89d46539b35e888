use std::io::Cursor;
use std::io::Write;

use sc_plugin::{
    asset_type_to_mime, is_safe_path, is_valid_name, is_valid_version, validate_asset_image,
    validate_entry_xhtml, validate_plugin, validate_plugin_with, ManifestError, ValidateError,
};

const GOOD_ENTRY: &str =
    "<html><head><title>Synth</title></head><body>controls</body></html>";

fn png_bytes() -> Vec<u8> {
    let mut b = vec![0x89u8, 0x50, 0x4e, 0x47, 0x0d, 0x0a, 0x1a, 0x0a];
    b.extend_from_slice(b"payload");
    b
}

fn jpeg_bytes() -> Vec<u8> {
    let mut b = vec![0xffu8, 0xd8, 0xff, 0xe0];
    b.extend_from_slice(b"payload");
    b
}

fn build_zip(files: &[(&str, &[u8])]) -> Vec<u8> {
    let mut w = zip::ZipWriter::new(Cursor::new(Vec::new()));
    let opts = zip::write::SimpleFileOptions::default();
    for (name, data) in files {
        w.start_file(*name, opts).unwrap();
        w.write_all(data).unwrap();
    }
    w.finish().unwrap().into_inner()
}

fn good_manifest() -> String {
    r#"{
        "name": "synth-control",
        "version": "1.0.0",
        "author": "Jane",
        "entry": "index.xhtml",
        "assets": [{ "path": "icon.png", "type": "png" }]
    }"#
    .to_string()
}

fn good_archive() -> Vec<u8> {
    build_zip(&[
        ("metadata.json", good_manifest().as_bytes()),
        ("index.xhtml", GOOD_ENTRY.as_bytes()),
        ("icon.png", &png_bytes()),
    ])
}

#[test]
fn valid_archive_validates() {
    let info = validate_plugin(&good_archive()).unwrap();
    assert_eq!(info.name, "synth-control");
    assert_eq!(info.version, "1.0.0");
    assert_eq!(info.author, "Jane");
    assert_eq!(info.entry, "index.xhtml");
    assert_eq!(info.assets.len(), 1);
    assert_eq!(info.assets[0].path, "icon.png");
    assert_eq!(info.assets[0].mime_type, "png");
    assert!(info.id.starts_with("synth-control-1.0.0-"));
}

#[test]
fn identifier_carries_the_stamp() {
    let info = validate_plugin_with(&good_archive(), 42).unwrap();
    assert_eq!(info.id, "synth-control-1.0.0-42");
}

#[test]
fn not_a_zip_is_corrupt_archive() {
    let r = validate_plugin(b"definitely not a zip");
    assert!(matches!(r, Err(ValidateError::CorruptArchive)));
}

#[test]
fn absent_manifest_is_missing_manifest() {
    let data = build_zip(&[("index.xhtml", GOOD_ENTRY.as_bytes())]);
    let r = validate_plugin(&data);
    assert!(matches!(r, Err(ValidateError::MissingManifest)));
}

#[test]
fn bad_json_is_invalid_encoding() {
    let data = build_zip(&[("metadata.json", b"{not json".as_slice())]);
    let r = validate_plugin(&data);
    assert!(matches!(r, Err(ValidateError::InvalidManifestEncoding)));
}

#[test]
fn bad_name_is_rejected() {
    let manifest = r#"{"name":"bad name!","version":"1.0.0","author":"J","entry":"e.xhtml"}"#;
    let data = build_zip(&[("metadata.json", manifest.as_bytes())]);
    let r = validate_plugin(&data);
    assert!(matches!(
        r,
        Err(ValidateError::ManifestInvalid(ManifestError::NameInvalid))
    ));
}

#[test]
fn bad_version_is_rejected() {
    let manifest = r#"{"name":"ok","version":"1.0","author":"J","entry":"e.xhtml"}"#;
    let data = build_zip(&[("metadata.json", manifest.as_bytes())]);
    let r = validate_plugin(&data);
    assert!(matches!(
        r,
        Err(ValidateError::ManifestInvalid(ManifestError::VersionInvalid))
    ));
}

#[test]
fn traversal_entry_fails_before_archive_lookup() {
    // The entry path is unsafe; the archive holds no such entry at all, yet
    // the failure is the path-safety error, not a missing-entry error.
    let manifest = r#"{"name":"ok","version":"1.0.0","author":"J","entry":"../../secrets"}"#;
    let data = build_zip(&[("metadata.json", manifest.as_bytes())]);
    let r = validate_plugin(&data);
    assert!(matches!(
        r,
        Err(ValidateError::ManifestInvalid(ManifestError::EntryUnsafe))
    ));
}

#[test]
fn traversal_asset_path_fails_before_archive_lookup() {
    let manifest = r#"{"name":"ok","version":"1.0.0","author":"J","entry":"e.xhtml",
        "assets":[{"path":"../evil.png","type":"png"}]}"#;
    let data = build_zip(&[("metadata.json", manifest.as_bytes())]);
    let r = validate_plugin(&data);
    assert!(matches!(
        r,
        Err(ValidateError::ManifestInvalid(ManifestError::AssetPathUnsafe(0)))
    ));
}

#[test]
fn unsupported_asset_type_is_rejected() {
    let manifest = r#"{"name":"ok","version":"1.0.0","author":"J","entry":"e.xhtml",
        "assets":[{"path":"a.gif","type":"gif"}]}"#;
    let data = build_zip(&[("metadata.json", manifest.as_bytes())]);
    let r = validate_plugin(&data);
    assert!(matches!(
        r,
        Err(ValidateError::ManifestInvalid(ManifestError::AssetTypeUnsupported(0)))
    ));
}

#[test]
fn absent_author_is_reported_last() {
    let manifest = r#"{"name":"ok","version":"1.0.0","entry":"index.xhtml"}"#;
    let data = build_zip(&[
        ("metadata.json", manifest.as_bytes()),
        ("index.xhtml", GOOD_ENTRY.as_bytes()),
    ]);
    let r = validate_plugin(&data);
    assert!(matches!(
        r,
        Err(ValidateError::ManifestInvalid(ManifestError::FieldMissing(_)))
    ));
}

#[test]
fn fields_are_trimmed() {
    let manifest = r#"{"name":"  ok  ","version":" 1.0.0 ","author":" J ","entry":"index.xhtml"}"#;
    let data = build_zip(&[
        ("metadata.json", manifest.as_bytes()),
        ("index.xhtml", GOOD_ENTRY.as_bytes()),
    ]);
    let info = validate_plugin(&data).unwrap();
    assert_eq!(info.name, "ok");
    assert_eq!(info.version, "1.0.0");
    assert_eq!(info.author, "J");
}

#[test]
fn missing_entry_file_is_entry_missing() {
    let manifest = r#"{"name":"ok","version":"1.0.0","author":"J","entry":"index.xhtml"}"#;
    let data = build_zip(&[("metadata.json", manifest.as_bytes())]);
    let r = validate_plugin(&data);
    assert!(matches!(r, Err(ValidateError::EntryMissing)));
}

#[test]
fn unbalanced_entry_is_malformed() {
    let manifest = r#"{"name":"ok","version":"1.0.0","author":"J","entry":"index.xhtml"}"#;
    let data = build_zip(&[
        ("metadata.json", manifest.as_bytes()),
        ("index.xhtml", b"<html><head>".as_slice()),
    ]);
    let r = validate_plugin(&data);
    assert!(matches!(r, Err(ValidateError::MalformedDocument)));
}

#[test]
fn nonconforming_entry_collects_violations() {
    let manifest = r#"{"name":"ok","version":"1.0.0","author":"J","entry":"index.xhtml"}"#;
    let data = build_zip(&[
        ("metadata.json", manifest.as_bytes()),
        ("index.xhtml", b"<unexpected>text</unexpected>".as_slice()),
    ]);
    let r = validate_plugin(&data);
    match r {
        Err(ValidateError::SchemaViolation(msgs)) => assert!(!msgs.is_empty()),
        other => panic!("expected a schema violation, got {:?}", other.is_ok()),
    }
}

#[test]
fn missing_asset_is_asset_missing() {
    let data = build_zip(&[
        ("metadata.json", good_manifest().as_bytes()),
        ("index.xhtml", GOOD_ENTRY.as_bytes()),
    ]);
    let r = validate_plugin(&data);
    assert!(matches!(r, Err(ValidateError::AssetMissing(0))));
}

#[test]
fn jpeg_declared_as_png_is_a_type_mismatch() {
    let data = build_zip(&[
        ("metadata.json", good_manifest().as_bytes()),
        ("index.xhtml", GOOD_ENTRY.as_bytes()),
        ("icon.png", &jpeg_bytes()),
    ]);
    let r = validate_plugin(&data);
    match r {
        Err(ValidateError::AssetTypeMismatch { index, declared, detected }) => {
            assert_eq!(index, 0);
            assert_eq!(declared, "png");
            assert_eq!(detected, "jpeg");
        }
        _ => panic!("expected a type mismatch"),
    }
}

#[test]
fn unrecognised_asset_bytes_are_unknown_format() {
    let data = build_zip(&[
        ("metadata.json", good_manifest().as_bytes()),
        ("index.xhtml", GOOD_ENTRY.as_bytes()),
        ("icon.png", b"no magic here".as_slice()),
    ]);
    let r = validate_plugin(&data);
    assert!(matches!(r, Err(ValidateError::AssetUnknownFormat(0))));
}

#[test]
fn path_safety_cases() {
    assert!(is_safe_path("a/b/c.png"));
    assert!(is_safe_path("index.xhtml"));
    assert!(!is_safe_path(""));
    assert!(!is_safe_path("/etc/passwd"));
    assert!(!is_safe_path("../secrets"));
    assert!(!is_safe_path("a/../b"));
    assert!(!is_safe_path("a//b"));
    assert!(!is_safe_path("a/"));
    assert!(!is_safe_path("."));
    assert!(!is_safe_path("a/./b"));
    assert!(!is_safe_path("a\\b"));
    assert!(!is_safe_path("C:evil"));
}

#[test]
fn name_and_version_shapes() {
    assert!(is_valid_name("synth-control_2"));
    assert!(!is_valid_name(""));
    assert!(!is_valid_name("has space"));
    assert!(!is_valid_name("weird!"));
    assert!(is_valid_version("1.2.10"));
    assert!(!is_valid_version("1.2"));
    assert!(!is_valid_version("1.2.3.4"));
    assert!(!is_valid_version("1..3"));
    assert!(!is_valid_version("1.2.x"));
}

#[test]
fn declared_types_map_to_canonical_content_types() {
    assert_eq!(asset_type_to_mime("png"), "image/png");
    assert_eq!(asset_type_to_mime("jpeg"), "image/jpeg");
    assert_eq!(asset_type_to_mime("other"), "application/octet-stream");
}

#[test]
fn sniff_and_compare_is_driven_by_the_bytes() {
    assert!(validate_asset_image(&png_bytes(), "png").is_ok());
    assert!(validate_asset_image(&jpeg_bytes(), "jpeg").is_ok());
    assert!(validate_asset_image(&png_bytes(), "jpeg").is_err());
    assert!(validate_asset_image(&jpeg_bytes(), "png").is_err());
    assert!(validate_asset_image(b"junk", "png").is_err());
}

#[test]
fn entry_check_is_driven_by_the_document() {
    assert!(validate_entry_xhtml(GOOD_ENTRY).is_ok());
    assert!(validate_entry_xhtml("<html><head>").is_err());
    assert!(validate_entry_xhtml("<nope/>").is_err());
}
