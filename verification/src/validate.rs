//! The package validator: `validate(bytes)` over a zip-packaged bundle.
//!
//! Each step is fatal with a distinct error kind: open the archive, read and
//! parse the manifest, check its fields, read and check the entry document,
//! then locate, read and sniff every declared asset.  On success a fresh
//! opaque identifier is attached and the immutable [`PluginInfo`] returned.
//! Nothing durable is touched: the input bytes are only read.

use vstd::prelude::*;

use crate::json::{json_parse_spec, json_view, parse_json};
use crate::manifest::{
    info_of, spec_validate_metadata, validate_metadata, ManifestError, ManifestView, PluginInfo,
};
use crate::sniff::{spec_validate_asset_image, validate_asset_image, AssetImageError,
    AssetImageErrorView};
use crate::xmlcheck::{spec_validate_entry, validate_entry_xhtml, EntryError, EntryErrorView,
    ENTRY_SCHEMA};
use crate::ziparc::{bytes_to_string, zip_entry, zip_has_entry, zip_ok, zip_read, ZipRead};
use vstd::utf8::{decode_utf8, valid_utf8};

verus! {

/// Why a package was rejected: one kind per fatal step.
#[derive(Debug)]
pub enum ValidateError {
    /// The bytes are not a zip archive.
    CorruptArchive,
    /// The archive has no manifest document at its root.
    MissingManifest,
    /// The manifest could not be read, is not UTF-8, or is not JSON.
    InvalidManifestEncoding,
    /// A manifest field violates the field rules.
    ManifestInvalid(ManifestError),
    /// The declared entry document is not in the archive.
    EntryMissing,
    /// The entry document could not be read as text.
    EntryUnreadable,
    /// The entry document is not well-formed XML.
    MalformedDocument,
    /// The entry document violates the bundled schema; all violations.
    SchemaViolation(Vec<String>),
    /// The declared asset `assets[i]` is not in the archive.
    AssetMissing(usize),
    /// The declared asset `assets[i]` could not be read.
    AssetUnreadable(usize),
    /// The bytes of `assets[i]` carry no supported magic signature.
    AssetUnknownFormat(usize),
    /// The true format of `assets[i]` differs from its declared type.
    AssetTypeMismatch { index: usize, declared: String, detected: String },
    /// The bundled schema was rejected or the validation engine failed.
    Internal,
}

/// The mathematical value of a [`ValidateError`].
#[verifier::ext_equal]
pub enum ValidateErrorView {
    CorruptArchive,
    MissingManifest,
    InvalidManifestEncoding,
    ManifestInvalid(ManifestError),
    EntryMissing,
    EntryUnreadable,
    MalformedDocument,
    SchemaViolation(Seq<Seq<char>>),
    AssetMissing(usize),
    AssetUnreadable(usize),
    AssetUnknownFormat(usize),
    AssetTypeMismatch { index: usize, declared: Seq<char>, detected: Seq<char> },
    Internal,
}

impl View for ValidateError {
    type V = ValidateErrorView;

    open spec fn view(&self) -> ValidateErrorView {
        match self {
            ValidateError::CorruptArchive => ValidateErrorView::CorruptArchive,
            ValidateError::MissingManifest => ValidateErrorView::MissingManifest,
            ValidateError::InvalidManifestEncoding => ValidateErrorView::InvalidManifestEncoding,
            ValidateError::ManifestInvalid(e) => ValidateErrorView::ManifestInvalid(*e),
            ValidateError::EntryMissing => ValidateErrorView::EntryMissing,
            ValidateError::EntryUnreadable => ValidateErrorView::EntryUnreadable,
            ValidateError::MalformedDocument => ValidateErrorView::MalformedDocument,
            ValidateError::SchemaViolation(v) => ValidateErrorView::SchemaViolation(v.deep_view()),
            ValidateError::AssetMissing(i) => ValidateErrorView::AssetMissing(*i),
            ValidateError::AssetUnreadable(i) => ValidateErrorView::AssetUnreadable(*i),
            ValidateError::AssetUnknownFormat(i) => ValidateErrorView::AssetUnknownFormat(*i),
            ValidateError::AssetTypeMismatch { index, declared, detected } => {
                ValidateErrorView::AssetTypeMismatch {
                    index: *index,
                    declared: declared@,
                    detected: detected@,
                }
            },
            ValidateError::Internal => ValidateErrorView::Internal,
        }
    }
}

/// The outcome of locating, reading and sniffing `assets[i..]` against the
/// archive image: the first failing asset's error, or success.
pub open spec fn spec_check_assets(
    data: Seq<u8>,
    assets: Seq<crate::manifest::AssetInfoView>,
    i: int,
) -> Result<(), ValidateErrorView>
    decreases assets.len() - i,
{
    if i < 0 || i >= assets.len() {
        Result::Ok(())
    } else if !zip_has_entry(data, assets[i].path) {
        Result::Err(ValidateErrorView::AssetMissing(i as usize))
    } else {
        match zip_entry(data, assets[i].path) {
            Option::None => Result::Err(ValidateErrorView::AssetUnreadable(i as usize)),
            Option::Some(ab) => match spec_validate_asset_image(ab, assets[i].mime_type) {
                Result::Err(AssetImageErrorView::UnknownFormat) => Result::Err(
                    ValidateErrorView::AssetUnknownFormat(i as usize),
                ),
                Result::Err(AssetImageErrorView::TypeMismatch { declared, detected }) => {
                    Result::Err(
                        ValidateErrorView::AssetTypeMismatch { index: i as usize, declared, detected },
                    )
                },
                Result::Ok(u) => spec_check_assets(data, assets, i + 1),
            },
        }
    }
}

/// The outcome of validating a package image: the manifest's checked fields,
/// or the first fatal step's error.  The steps in order: archive,
/// manifest presence and encoding, manifest fields, entry presence and
/// content, declared assets.
pub open spec fn spec_validate_core(data: Seq<u8>) -> Result<ManifestView, ValidateErrorView> {
    if !zip_ok(data) {
        Result::Err(ValidateErrorView::CorruptArchive)
    } else if !zip_has_entry(data, "metadata.json"@) {
        Result::Err(ValidateErrorView::MissingManifest)
    } else {
        match zip_entry(data, "metadata.json"@) {
            Option::None => Result::Err(ValidateErrorView::InvalidManifestEncoding),
            Option::Some(mb) => if !valid_utf8(mb) {
                Result::Err(ValidateErrorView::InvalidManifestEncoding)
            } else {
                match json_parse_spec(decode_utf8(mb)) {
                    Option::None => Result::Err(ValidateErrorView::InvalidManifestEncoding),
                    Option::Some(doc) => match spec_validate_metadata(doc) {
                        Result::Err(me) => Result::Err(ValidateErrorView::ManifestInvalid(me)),
                        Result::Ok(m) => spec_validate_rest(data, m),
                    },
                }
            },
        }
    }
}

/// The entry-document and asset steps, once the manifest has passed.
pub open spec fn spec_validate_rest(data: Seq<u8>, m: ManifestView) -> Result<
    ManifestView,
    ValidateErrorView,
> {
    if !zip_has_entry(data, m.entry) {
        Result::Err(ValidateErrorView::EntryMissing)
    } else {
        match zip_entry(data, m.entry) {
            Option::None => Result::Err(ValidateErrorView::EntryUnreadable),
            Option::Some(eb) => if !valid_utf8(eb) {
                Result::Err(ValidateErrorView::EntryUnreadable)
            } else {
                match spec_validate_entry(ENTRY_SCHEMA@, decode_utf8(eb)) {
                    Result::Err(EntryErrorView::Internal) => Result::Err(
                        ValidateErrorView::Internal,
                    ),
                    Result::Err(EntryErrorView::MalformedDocument) => Result::Err(
                        ValidateErrorView::MalformedDocument,
                    ),
                    Result::Err(EntryErrorView::SchemaViolation(v)) => Result::Err(
                        ValidateErrorView::SchemaViolation(v),
                    ),
                    Result::Ok(u) => match spec_check_assets(data, m.assets, 0) {
                        Result::Err(e) => Result::Err(e),
                        Result::Ok(uu) => Result::Ok(m),
                    },
                }
            },
        }
    }
}

/// Relies on `std::time::SystemTime::now` and `duration_since`: the wall
/// clock's milliseconds since the Unix epoch, or 0 before it.  Nothing is
/// promised of the value.
#[verifier::external_body]
fn now_millis() -> u64 {
    match std::time::SystemTime::now().duration_since(std::time::UNIX_EPOCH) {
        Result::Ok(d) => d.as_millis() as u64,
        Result::Err(_) => 0,
    }
}

/// Validate a package image, stamping the identifier from `stamp`.
///
/// The outcome is exactly `spec_validate_core` of the bytes; on success the
/// returned `PluginInfo` carries the manifest's fields unchanged and the
/// identifier `name`-`version`-`stamp`.
pub fn validate_plugin_with(data: &[u8], stamp: u64) -> (r: Result<PluginInfo, ValidateError>)
    ensures
        match r {
            Result::Ok(info) => spec_validate_core(data@) matches Result::Ok(m) && info@ == info_of(
                m,
                stamp as nat,
            ),
            Result::Err(e) => spec_validate_core(data@) == Result::<
                ManifestView,
                ValidateErrorView,
            >::Err(e@),
        },
{
    let meta_bytes = match zip_read(data, "metadata.json") {
        ZipRead::NoArchive => {
            return Result::Err(ValidateError::CorruptArchive);
        },
        ZipRead::NoEntry => {
            return Result::Err(ValidateError::MissingManifest);
        },
        ZipRead::CorruptEntry => {
            return Result::Err(ValidateError::InvalidManifestEncoding);
        },
        ZipRead::Data(b) => b,
    };
    let ghost mb = meta_bytes@;
    let meta_text = match bytes_to_string(meta_bytes.as_slice()) {
        Option::Some(s) => s,
        Option::None => {
            return Result::Err(ValidateError::InvalidManifestEncoding);
        },
    };
    let doc = match parse_json(meta_text.as_str()) {
        Option::Some(d) => d,
        Option::None => {
            return Result::Err(ValidateError::InvalidManifestEncoding);
        },
    };
    let info = match validate_metadata(&doc, stamp) {
        Result::Ok(i) => i,
        Result::Err(e) => {
            return Result::Err(ValidateError::ManifestInvalid(e));
        },
    };
    let ghost m = spec_validate_metadata(json_view(doc))->Ok_0;
    let entry_bytes = match zip_read(data, info.entry.as_str()) {
        ZipRead::NoArchive => {
            proof {
                assert(false);
            }
            return Result::Err(ValidateError::Internal);
        },
        ZipRead::NoEntry => {
            return Result::Err(ValidateError::EntryMissing);
        },
        ZipRead::CorruptEntry => {
            return Result::Err(ValidateError::EntryUnreadable);
        },
        ZipRead::Data(b) => b,
    };
    let entry_text = match bytes_to_string(entry_bytes.as_slice()) {
        Option::Some(s) => s,
        Option::None => {
            return Result::Err(ValidateError::EntryUnreadable);
        },
    };
    match validate_entry_xhtml(entry_text.as_str()) {
        Result::Ok(u) => {},
        Result::Err(EntryError::Internal) => {
            return Result::Err(ValidateError::Internal);
        },
        Result::Err(EntryError::MalformedDocument) => {
            return Result::Err(ValidateError::MalformedDocument);
        },
        Result::Err(EntryError::SchemaViolation(v)) => {
            return Result::Err(ValidateError::SchemaViolation(v));
        },
    }
    let mut i: usize = 0;
    while i < info.assets.len()
        invariant
            zip_ok(data@),
            info@.assets == m.assets,
            info@ == info_of(m, stamp as nat),
            i <= info.assets@.len(),
            m.assets.len() == info.assets@.len(),
            forall|k: int| 0 <= k < m.assets.len() ==> #[trigger] m.assets[k] == info.assets@[k]@,
            spec_check_assets(data@, m.assets, 0) == spec_check_assets(data@, m.assets, i as int),
            spec_validate_core(data@) == (match spec_check_assets(data@, m.assets, 0) {
                Result::Ok(u) => Result::<ManifestView, ValidateErrorView>::Ok(m),
                Result::Err(e) => Result::Err(e),
            }),
        decreases info.assets@.len() - i,
    {
        let path = &info.assets[i].path;
        let asset_bytes = match zip_read(data, path.as_str()) {
            ZipRead::NoArchive => {
                proof {
                    assert(false);
                }
                return Result::Err(ValidateError::Internal);
            },
            ZipRead::NoEntry => {
                return Result::Err(ValidateError::AssetMissing(i));
            },
            ZipRead::CorruptEntry => {
                return Result::Err(ValidateError::AssetUnreadable(i));
            },
            ZipRead::Data(b) => b,
        };
        match validate_asset_image(asset_bytes.as_slice(), info.assets[i].mime_type.as_str()) {
            Result::Ok(u) => {},
            Result::Err(AssetImageError::UnknownFormat) => {
                return Result::Err(ValidateError::AssetUnknownFormat(i));
            },
            Result::Err(AssetImageError::TypeMismatch { declared, detected }) => {
                return Result::Err(
                    ValidateError::AssetTypeMismatch { index: i, declared, detected },
                );
            },
        }
        i = i + 1;
    }
    Result::Ok(info)
}

/// Validate a package image in full, with a freshly generated opaque
/// identifier (time-derived) attached on success.
pub fn validate_plugin(data: &[u8]) -> (r: Result<PluginInfo, ValidateError>)
    ensures
        match r {
            Result::Ok(info) => spec_validate_core(data@) matches Result::Ok(m) && (exists|ts: nat|
                info@ == info_of(m, ts)),
            Result::Err(e) => spec_validate_core(data@) == Result::<
                ManifestView,
                ValidateErrorView,
            >::Err(e@),
        },
{
    let stamp = now_millis();
    let r = validate_plugin_with(data, stamp);
    proof {
        if r is Ok {
            let m = spec_validate_core(data@)->Ok_0;
            assert((r->Ok_0)@ == info_of(m, stamp as nat));
        }
    }
    r
}

} // verus!
