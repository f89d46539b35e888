use std::io::Cursor;
use std::io::Write;

use sc_plugin::{plugin_request_key, resolve_plugin_file, Registry, RemoveError};

const GOOD_ENTRY: &str =
    "<html><head><title>Synth</title></head><body>controls</body></html>";

fn png_bytes() -> Vec<u8> {
    let mut b = vec![0x89u8, 0x50, 0x4e, 0x47, 0x0d, 0x0a, 0x1a, 0x0a];
    b.extend_from_slice(b"payload");
    b
}

fn jpeg_bytes() -> Vec<u8> {
    let mut b = vec![0xffu8, 0xd8, 0xff, 0xe0];
    b.extend_from_slice(b"payload");
    b
}

fn build_zip(files: &[(&str, &[u8])]) -> Vec<u8> {
    let mut w = zip::ZipWriter::new(Cursor::new(Vec::new()));
    let opts = zip::write::SimpleFileOptions::default();
    for (name, data) in files {
        w.start_file(*name, opts).unwrap();
        w.write_all(data).unwrap();
    }
    w.finish().unwrap().into_inner()
}

fn archive_with_author(author: &str) -> Vec<u8> {
    let manifest = format!(
        r#"{{"name":"synth-control","version":"1.0.0","author":"{}","entry":"index.xhtml",
            "assets":[{{"path":"icon.png","type":"png"}}]}}"#,
        author
    );
    build_zip(&[
        ("metadata.json", manifest.as_bytes()),
        ("index.xhtml", GOOD_ENTRY.as_bytes()),
        ("icon.png", &png_bytes()),
        ("undeclared.txt", b"physically present".as_slice()),
    ])
}

#[test]
fn install_then_list_shows_one_record() {
    let mut reg = Registry::empty();
    let info = reg.install(&archive_with_author("Jane")).unwrap();
    let listed = reg.list();
    assert_eq!(listed.len(), 1);
    assert_eq!(listed[0].author, "Jane");
    assert_eq!(listed[0].id, info.id);
}

#[test]
fn reinstall_replaces_the_record() {
    let mut reg = Registry::empty();
    reg.install(&archive_with_author("Jane")).unwrap();
    reg.install(&archive_with_author("Jane2")).unwrap();
    let listed = reg.list();
    assert_eq!(listed.len(), 1);
    assert_eq!(listed[0].author, "Jane2");
}

#[test]
fn different_versions_coexist() {
    let mut reg = Registry::empty();
    reg.install(&archive_with_author("Jane")).unwrap();
    let manifest =
        r#"{"name":"synth-control","version":"2.0.0","author":"Jane","entry":"index.xhtml"}"#;
    let other = build_zip(&[
        ("metadata.json", manifest.as_bytes()),
        ("index.xhtml", GOOD_ENTRY.as_bytes()),
    ]);
    reg.install(&other).unwrap();
    assert_eq!(reg.list().len(), 2);
}

#[test]
fn resolve_serves_declared_asset_with_canonical_type() {
    let mut reg = Registry::empty();
    let info = reg.install(&archive_with_author("Jane")).unwrap();
    let (bytes, ct) = reg.resolve(&info.id, "icon.png").unwrap();
    assert_eq!(bytes, png_bytes());
    assert_eq!(ct, "image/png");
}

#[test]
fn resolve_serves_the_entry_document() {
    let mut reg = Registry::empty();
    let info = reg.install(&archive_with_author("Jane")).unwrap();
    let (bytes, ct) = reg.resolve(&info.id, "index.xhtml").unwrap();
    assert_eq!(bytes, GOOD_ENTRY.as_bytes());
    assert_eq!(ct, "application/xhtml+xml");
}

#[test]
fn resolve_refuses_traversal_before_storage() {
    let mut reg = Registry::empty();
    let info = reg.install(&archive_with_author("Jane")).unwrap();
    let err = reg.resolve(&info.id, "../../secrets").unwrap_err();
    assert_eq!(err.status(), 403);
}

#[test]
fn resolve_refuses_undeclared_files_even_if_present() {
    let mut reg = Registry::empty();
    let info = reg.install(&archive_with_author("Jane")).unwrap();
    let err = reg.resolve(&info.id, "undeclared.txt").unwrap_err();
    assert_eq!(err.status(), 403);
}

#[test]
fn remove_then_resolve_is_not_found() {
    let mut reg = Registry::empty();
    let info = reg.install(&archive_with_author("Jane")).unwrap();
    reg.remove(&info.id).unwrap();
    let err = reg.resolve(&info.id, "icon.png").unwrap_err();
    assert_eq!(err.status(), 404);
    assert!(reg.list().is_empty());
}

#[test]
fn remove_by_name_and_by_name_version() {
    let mut reg = Registry::empty();
    reg.install(&archive_with_author("Jane")).unwrap();
    let removed = reg.remove("synth-control").unwrap();
    assert_eq!(removed.version, "1.0.0");

    reg.install(&archive_with_author("Jane")).unwrap();
    let removed = reg.remove("synth-control-1.0.0").unwrap();
    assert_eq!(removed.version, "1.0.0");
}

#[test]
fn ambiguous_removal_is_refused() {
    let mut reg = Registry::empty();
    reg.install(&archive_with_author("Jane")).unwrap();
    let manifest =
        r#"{"name":"synth-control","version":"2.0.0","author":"Jane","entry":"index.xhtml"}"#;
    let other = build_zip(&[
        ("metadata.json", manifest.as_bytes()),
        ("index.xhtml", GOOD_ENTRY.as_bytes()),
    ]);
    reg.install(&other).unwrap();
    assert!(matches!(reg.remove("synth-control"), Err(RemoveError::Ambiguous)));
    assert!(matches!(reg.remove("nonexistent"), Err(RemoveError::NotFound)));
    assert!(reg.remove("synth-control-2.0.0").is_ok());
    assert!(reg.remove("synth-control").is_ok());
}

#[test]
fn tampered_archive_is_refused_at_serve_time() {
    // The archive never passed validation; it reached storage out-of-band.
    let manifest = r#"{"name":"evil","version":"1.0.0","author":"E","entry":"index.xhtml",
        "assets":[{"path":"icon.png","type":"png"}]}"#;
    let tampered = build_zip(&[
        ("metadata.json", manifest.as_bytes()),
        ("index.xhtml", GOOD_ENTRY.as_bytes()),
        ("icon.png", &jpeg_bytes()),
    ]);
    let err = resolve_plugin_file(&tampered, "icon.png").unwrap_err();
    assert_eq!(err.status(), 500);
    // The entry document is still servable: it is well-formed.
    let (_, ct) = resolve_plugin_file(&tampered, "index.xhtml").unwrap();
    assert_eq!(ct, "application/xhtml+xml");
}

#[test]
fn duplicate_asset_declarations_serve_the_first() {
    let manifest = r#"{"name":"dup","version":"1.0.0","author":"D","entry":"index.xhtml",
        "assets":[{"path":"icon.png","type":"png"},{"path":"icon.png","type":"jpeg"}]}"#;
    let data = build_zip(&[
        ("metadata.json", manifest.as_bytes()),
        ("index.xhtml", GOOD_ENTRY.as_bytes()),
        ("icon.png", &png_bytes()),
    ]);
    // Validation fails (the second declaration mismatches), but service by
    // the first declaration still works on the stored bytes.
    let (_, ct) = resolve_plugin_file(&data, "icon.png").unwrap();
    assert_eq!(ct, "image/png");
}

#[test]
fn request_key_checks_come_before_storage() {
    let err = plugin_request_key("", "1.0.0", "icon.png").unwrap_err();
    assert_eq!(err.status(), 404);
    let err = plugin_request_key("synth", "1.0.0", "../x").unwrap_err();
    assert_eq!(err.status(), 403);
    let key = plugin_request_key("synth", "1.0.0", "icon.png").unwrap();
    assert_eq!(key, "synth-1.0.0");
}

#[test]
fn resolver_errors_name_their_statuses() {
    let reg = Registry::empty();
    let err = reg.resolve("", "icon.png").unwrap_err();
    assert_eq!(err.status(), 404);
    assert_eq!(err.message(), "Not found");
    let err = reg.resolve("x", "").unwrap_err();
    assert_eq!(err.status(), 404);
    let err = reg.resolve("x", "a/../b").unwrap_err();
    assert_eq!(err.status(), 403);
    assert_eq!(err.message(), "Forbidden");
    let err = reg.resolve("x", "icon.png").unwrap_err();
    assert_eq!(err.status(), 404);
    assert_eq!(err.message(), "Plugin not found");
}
