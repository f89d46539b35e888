//! Verified handling of third-party plugin content bundles: a package
//! validator over zip archives, a registry of installed packages, and a
//! sandboxed resolver that serves exactly the files a package declared.
//!
//! Nothing may be served that was not declared, and nothing registered that
//! was not validated: every requested path is checked for traversal safety
//! before storage is touched, every asset's bytes are sniffed against the
//! declared type at install time and again at serve time, and the
//! allow-list is re-derived from the stored archive's own manifest on each
//! request.

pub mod chars;
pub mod json;
pub mod laws;
pub mod manifest;
pub mod paths;
pub mod registry;
pub mod resolver;
pub mod sniff;
pub mod validate;
pub mod webtext;
pub mod xmlcheck;
pub mod ziparc;

pub use json::{parse_json, json_to_string, JsonNode, JsonValue};
pub use laws::{
    lemma_missing_manifest, lemma_remove_then_resolve, lemma_replace_idempotent,
    lemma_type_confusion, lemma_type_confusion_resolve, lemma_undeclared_forbidden,
    lemma_unsafe_path_rejected,
};
pub use manifest::{
    asset_type_to_mime, is_valid_name, is_valid_version, validate_metadata, AssetInfo,
    ManifestError, PluginInfo,
};
pub use registry::{
    parse_registry, save_registry, storage_key, Registry, RegistryDoc, RemoveError,
};
pub use paths::is_safe_path;
pub use paths::safe_path;
pub use resolver::{plugin_request_key, resolve_plugin_file, PluginFileError};
pub use sniff::validate_asset_image;
pub use validate::{validate_plugin, validate_plugin_with, ValidateError};
pub use webtext::{guess_mime, percent_decode};
pub use xmlcheck::validate_entry_xhtml;
