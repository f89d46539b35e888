use sc_plugin::{
    guess_mime, json_to_string, parse_json, parse_registry, percent_decode, save_registry,
    storage_key, Registry,
};

#[test]
fn absent_plugins_member_reads_as_empty() {
    let doc = parse_registry(r#"{"theme":"dark"}"#).unwrap();
    assert!(doc.plugins.is_empty());
    assert_eq!(doc.others.len(), 1);
}

#[test]
fn records_read_back() {
    let text = r#"{"plugins":[{"id":"p-1.0.0-7","name":"p","author":"A","version":"1.0.0",
        "entry":"e.xhtml","assets":[{"path":"i.png","type":"png"}]}]}"#;
    let doc = parse_registry(text).unwrap();
    assert_eq!(doc.plugins.len(), 1);
    assert_eq!(doc.plugins[0].id, "p-1.0.0-7");
    assert_eq!(doc.plugins[0].assets.len(), 1);
    assert_eq!(doc.plugins[0].assets[0].path, "i.png");
}

#[test]
fn corrupt_documents_are_surfaced_not_discarded() {
    assert!(parse_registry("not json at all").is_none());
    assert!(parse_registry("[1,2,3]").is_none());
    assert!(parse_registry(r#"{"plugins": 7}"#).is_none());
    assert!(parse_registry(r#"{"plugins": ["not an object"]}"#).is_none());
}

#[test]
fn unrelated_members_pass_through_a_rewrite() {
    let text = r#"{"theme":"dark","volume":11,"nested":{"a":[1,2,{"b":null}]},"plugins":[]}"#;
    let doc = parse_registry(text).unwrap();
    let out = save_registry(&doc);
    assert!(out.contains(r#""theme":"dark""#));
    assert!(out.contains(r#""volume":11"#));
    assert!(out.contains(r#""nested":{"a":[1,2,{"b":null}]}"#));
    assert!(out.contains(r#""plugins":[]"#));
    // And the rewrite parses back to the same document.
    let doc2 = parse_registry(&out).unwrap();
    assert_eq!(save_registry(&doc2), out);
}

#[test]
fn saving_keeps_sibling_order_and_appends_plugins() {
    let doc = parse_registry(r#"{"b":1,"a":2}"#).unwrap();
    let out = save_registry(&doc);
    // serde_json's default map orders members by key; both survive.
    assert!(out.contains(r#""a":2"#));
    assert!(out.contains(r#""b":1"#));
    assert!(out.ends_with(r#""plugins":[]}"#));
}

#[test]
fn json_rewrites_are_stable() {
    let sample = r#"{"s":"he\"llo\n","n":-12.5,"t":true,"z":null,"arr":["x",{"k":[]}]}"#;
    let v = parse_json(sample).unwrap();
    let once = json_to_string(&v);
    let twice = json_to_string(&parse_json(&once).unwrap());
    assert_eq!(once, twice);
}

#[test]
fn storage_keys_are_deterministic() {
    assert_eq!(storage_key("synth-control", "1.0.0"), "synth-control-1.0.0");
}

#[test]
fn a_registry_round_trips_through_its_document() {
    let text = r#"{"theme":"dark","plugins":[{"id":"p-1.0.0-7","name":"p","author":"A",
        "version":"1.0.0","entry":"e.xhtml","assets":[]}]}"#;
    let doc = parse_registry(text).unwrap();
    let reg = Registry { doc, archives: Vec::new() };
    let listed = reg.list();
    assert_eq!(listed.len(), 1);
    assert_eq!(listed[0].name, "p");
    let saved = save_registry(&reg.doc);
    let doc2 = parse_registry(&saved).unwrap();
    assert_eq!(doc2.plugins.len(), 1);
    assert_eq!(doc2.plugins[0].author, "A");
    assert_eq!(doc2.others.len(), 1);
}

#[test]
fn percent_decoding_cases() {
    assert_eq!(percent_decode("icon%2Epng"), "icon.png");
    assert_eq!(percent_decode("a%2Fb"), "a/b");
    assert_eq!(percent_decode("plain"), "plain");
    assert_eq!(percent_decode("%zz"), "%zz");
    assert_eq!(percent_decode("100%"), "100%");
    assert_eq!(percent_decode("caf%C3%A9"), "café");
}

#[test]
fn mime_guesses_follow_the_extension() {
    assert_eq!(guess_mime("index.html"), "text/html; charset=utf-8");
    assert_eq!(guess_mime("dir/app.js"), "application/javascript; charset=utf-8");
    assert_eq!(guess_mime("style.css"), "text/css; charset=utf-8");
    assert_eq!(guess_mime("icon.png"), "image/png");
    assert_eq!(guess_mime("photo.jpeg"), "image/jpeg");
    assert_eq!(guess_mime("mod.wasm"), "application/wasm");
    assert_eq!(guess_mime("archive.bin"), "application/octet-stream");
    assert_eq!(guess_mime(".bashrc"), "application/octet-stream");
    assert_eq!(guess_mime("noext"), "application/octet-stream");
}
