//! The sandboxed content resolver: serve exactly the files a package
//! declared, nothing else.
//!
//! The allow-list is re-derived from the stored archive's own manifest on
//! every request — no cached projection is trusted — and an asset's bytes
//! are sniffed again at serve time before they are handed out.

use vstd::prelude::*;

use crate::chars::str_eq;
use crate::json::{json_parse_spec, parse_json};
use crate::manifest::{
    assets_view, info_of, mime_of, spec_validate_metadata, validate_metadata, AssetInfo,
    AssetInfoView, ManifestView, PluginInfo, asset_type_to_mime,
};
use crate::paths::{is_safe_path, safe_path};
use crate::sniff::{spec_validate_asset_image, validate_asset_image};
use crate::xmlcheck::{xml_is_well_formed, xml_parses};
use crate::ziparc::{bytes_to_string, zip_entry, zip_has_entry, zip_ok, zip_read, ZipRead};
use vstd::utf8::{decode_utf8, valid_utf8};

verus! {

/// Why a file request was refused; the payload is the generic message a
/// transport may show.
#[derive(Debug)]
pub enum PluginFileError {
    NotFound(String),
    Forbidden(String),
    Internal(String),
}

/// The mathematical value of a [`PluginFileError`].
#[verifier::ext_equal]
pub enum PluginFileErrorView {
    NotFound(Seq<char>),
    Forbidden(Seq<char>),
    Internal(Seq<char>),
}

impl View for PluginFileError {
    type V = PluginFileErrorView;

    open spec fn view(&self) -> PluginFileErrorView {
        match self {
            PluginFileError::NotFound(s) => PluginFileErrorView::NotFound(s@),
            PluginFileError::Forbidden(s) => PluginFileErrorView::Forbidden(s@),
            PluginFileError::Internal(s) => PluginFileErrorView::Internal(s@),
        }
    }
}

impl PluginFileError {
    /// The HTTP-style status a transport attaches to this failure.
    pub fn status(&self) -> (r: u16)
        ensures
            self is NotFound ==> r == 404,
            self is Forbidden ==> r == 403,
            self is Internal ==> r == 500,
    {
        match self {
            PluginFileError::NotFound(_) => 404,
            PluginFileError::Forbidden(_) => 403,
            PluginFileError::Internal(_) => 500,
        }
    }

    /// The generic message carried by this failure.
    pub fn message(&self) -> (r: &String)
        ensures
            self is NotFound ==> self@ == PluginFileErrorView::NotFound(r@),
            self is Forbidden ==> self@ == PluginFileErrorView::Forbidden(r@),
            self is Internal ==> self@ == PluginFileErrorView::Internal(r@),
    {
        match self {
            PluginFileError::NotFound(s) => s,
            PluginFileError::Forbidden(s) => s,
            PluginFileError::Internal(s) => s,
        }
    }
}

/// What re-parsing a stored archive's own manifest yields: the checked
/// fields, or nothing if any step of reading it back fails.
pub open spec fn spec_archive_manifest(data: Seq<u8>) -> Option<ManifestView> {
    if !zip_ok(data) {
        Option::None
    } else if !zip_has_entry(data, "metadata.json"@) {
        Option::None
    } else {
        match zip_entry(data, "metadata.json"@) {
            Option::None => Option::None,
            Option::Some(mb) => if !valid_utf8(mb) {
                Option::None
            } else {
                match json_parse_spec(decode_utf8(mb)) {
                    Option::None => Option::None,
                    Option::Some(doc) => match spec_validate_metadata(doc) {
                        Result::Err(e) => Option::None,
                        Result::Ok(m) => Option::Some(m),
                    },
                }
            },
        }
    }
}

/// Read and re-validate the manifest out of an archive image.
fn read_archive_manifest(data: &[u8]) -> (r: Option<PluginInfo>)
    ensures
        match r {
            Option::Some(info) => spec_archive_manifest(data@) matches Option::Some(m) && info@
                == info_of(m, 0),
            Option::None => spec_archive_manifest(data@) is None,
        },
{
    let meta_bytes = match zip_read(data, "metadata.json") {
        ZipRead::Data(b) => b,
        _ => {
            return Option::None;
        },
    };
    let meta_text = match bytes_to_string(meta_bytes.as_slice()) {
        Option::Some(s) => s,
        Option::None => {
            return Option::None;
        },
    };
    let doc = match parse_json(meta_text.as_str()) {
        Option::Some(d) => d,
        Option::None => {
            return Option::None;
        },
    };
    match validate_metadata(&doc, 0) {
        Result::Ok(info) => Option::Some(info),
        Result::Err(_) => Option::None,
    }
}

/// The first declared asset whose path equals `path`, if any: duplicates
/// are permitted and the first match wins.
pub open spec fn first_asset(assets: Seq<AssetInfoView>, path: Seq<char>) -> Option<AssetInfoView>
    decreases assets.len(),
{
    if assets.len() == 0 {
        Option::None
    } else if assets[0].path == path {
        Option::Some(assets[0])
    } else {
        first_asset(assets.skip(1), path)
    }
}

proof fn lemma_first_asset_hit(assets: Seq<AssetInfoView>, path: Seq<char>, i: int)
    requires
        0 <= i < assets.len(),
        assets[i].path == path,
        forall|k: int| 0 <= k < i ==> assets[k].path != path,
    ensures
        first_asset(assets, path) == Option::Some(assets[i]),
    decreases i,
{
    if i > 0 {
        lemma_first_asset_hit(assets.skip(1), path, i - 1);
    }
}

proof fn lemma_first_asset_miss(assets: Seq<AssetInfoView>, path: Seq<char>)
    requires
        forall|k: int| 0 <= k < assets.len() ==> assets[k].path != path,
    ensures
        first_asset(assets, path) is None,
    decreases assets.len(),
{
    if assets.len() > 0 {
        lemma_first_asset_miss(assets.skip(1), path);
    }
}

/// Find the first declared asset for a requested path.
fn find_asset(assets: &Vec<AssetInfo>, path: &str) -> (r: Option<usize>)
    ensures
        match r {
            Option::Some(i) => i < assets@.len() && first_asset(assets_view(assets@), path@)
                == Option::Some(assets@[i as int]@),
            Option::None => first_asset(assets_view(assets@), path@) is None,
        },
{
    let mut i: usize = 0;
    while i < assets.len()
        invariant
            i <= assets@.len(),
            forall|k: int| 0 <= k < i ==> (#[trigger] assets@[k]@).path != path@,
        decreases assets@.len() - i,
    {
        if str_eq(assets[i].path.as_str(), path) {
            proof {
                lemma_first_asset_hit(assets_view(assets@), path@, i as int);
            }
            return Option::Some(i);
        }
        i = i + 1;
    }
    proof {
        lemma_first_asset_miss(assets_view(assets@), path@);
    }
    Option::None
}

/// The outcome of serving `path` out of a stored archive image, from
/// re-opening the archive on.  Only the manifest's entry and
/// declared assets are servable; an asset is re-sniffed against its declared
/// type, the entry re-checked for well-formedness.
pub open spec fn spec_resolve_file(data: Seq<u8>, path: Seq<char>) -> Result<
    (Seq<u8>, Seq<char>),
    PluginFileErrorView,
> {
    if !zip_ok(data) {
        Result::Err(PluginFileErrorView::Internal("Failed to read plugin archive"@))
    } else {
        match spec_archive_manifest(data) {
            Option::None => Result::Err(
                PluginFileErrorView::Internal("Failed to read plugin metadata"@),
            ),
            Option::Some(m) => {
                let asset = first_asset(m.assets, path);
                if asset is None && m.entry != path {
                    Result::Err(
                        PluginFileErrorView::Forbidden("File not declared in plugin metadata"@),
                    )
                } else if !zip_has_entry(data, path) {
                    Result::Err(PluginFileErrorView::NotFound("File not found in plugin"@))
                } else {
                    match zip_entry(data, path) {
                        Option::None => Result::Err(
                            PluginFileErrorView::Internal("Failed to read file from archive"@),
                        ),
                        Option::Some(content) => match asset {
                            Option::Some(a) => match spec_validate_asset_image(
                                content,
                                a.mime_type,
                            ) {
                                Result::Err(e) => Result::Err(
                                    PluginFileErrorView::Internal("Asset validation failed"@),
                                ),
                                Result::Ok(u) => Result::Ok((content, mime_of(a.mime_type))),
                            },
                            Option::None => if !valid_utf8(content) {
                                Result::Err(
                                    PluginFileErrorView::Internal("Entry file is not valid UTF-8"@),
                                )
                            } else if !xml_parses(decode_utf8(content)) {
                                Result::Err(
                                    PluginFileErrorView::Internal("Entry file is not valid XHTML"@),
                                )
                            } else {
                                Result::Ok((content, "application/xhtml+xml"@))
                            },
                        },
                    }
                }
            },
        }
    }
}

/// Serve a file out of a stored archive image: from re-opening it to
/// handing the bytes and content type out.
pub fn resolve_plugin_file(data: &[u8], file_path: &str) -> (r: Result<
    (Vec<u8>, String),
    PluginFileError,
>)
    ensures
        match r {
            Result::Ok(p) => spec_resolve_file(data@, file_path@) == Result::<
                (Seq<u8>, Seq<char>),
                PluginFileErrorView,
            >::Ok((p.0@, p.1@)),
            Result::Err(e) => spec_resolve_file(data@, file_path@) == Result::<
                (Seq<u8>, Seq<char>),
                PluginFileErrorView,
            >::Err(e@),
        },
{
    let probe = zip_read(data, "metadata.json");
    if let ZipRead::NoArchive = probe {
        return Result::Err(
            PluginFileError::Internal(String::from_str("Failed to read plugin archive")),
        );
    }
    let info = match read_archive_manifest(data) {
        Option::Some(i) => i,
        Option::None => {
            return Result::Err(
                PluginFileError::Internal(String::from_str("Failed to read plugin metadata")),
            );
        },
    };
    let asset_idx = find_asset(&info.assets, file_path);
    let is_entry = str_eq(file_path, info.entry.as_str());
    if asset_idx.is_none() && !is_entry {
        return Result::Err(
            PluginFileError::Forbidden(String::from_str("File not declared in plugin metadata")),
        );
    }
    let content = match zip_read(data, file_path) {
        ZipRead::NoArchive => {
            proof {
                assert(false);
            }
            return Result::Err(
                PluginFileError::Internal(String::from_str("Failed to read plugin archive")),
            );
        },
        ZipRead::NoEntry => {
            return Result::Err(
                PluginFileError::NotFound(String::from_str("File not found in plugin")),
            );
        },
        ZipRead::CorruptEntry => {
            return Result::Err(
                PluginFileError::Internal(String::from_str("Failed to read file from archive")),
            );
        },
        ZipRead::Data(b) => b,
    };
    match asset_idx {
        Option::Some(i) => {
            let declared = &info.assets[i].mime_type;
            match validate_asset_image(content.as_slice(), declared.as_str()) {
                Result::Err(_) => Result::Err(
                    PluginFileError::Internal(String::from_str("Asset validation failed")),
                ),
                Result::Ok(u) => {
                    let ct = asset_type_to_mime(declared.as_str());
                    Result::Ok((content, String::from_str(ct)))
                },
            }
        },
        Option::None => {
            let text = match bytes_to_string(content.as_slice()) {
                Option::Some(s) => s,
                Option::None => {
                    return Result::Err(
                        PluginFileError::Internal(
                            String::from_str("Entry file is not valid UTF-8"),
                        ),
                    );
                },
            };
            if !xml_is_well_formed(text.as_str()) {
                return Result::Err(
                    PluginFileError::Internal(String::from_str("Entry file is not valid XHTML")),
                );
            }
            Result::Ok((content, String::from_str("application/xhtml+xml")))
        },
    }
}

/// The front steps for a `(name, version)`-addressed file request: reject
/// empty parts, then check the requested path for safety — before any
/// storage access — and hand back the storage key to load.
pub open spec fn spec_plugin_request(
    name: Seq<char>,
    version: Seq<char>,
    path: Seq<char>,
) -> Result<Seq<char>, PluginFileErrorView> {
    if name.len() == 0 || version.len() == 0 || path.len() == 0 {
        Result::Err(PluginFileErrorView::NotFound("Not found"@))
    } else if !safe_path(path) {
        Result::Err(PluginFileErrorView::Forbidden("Forbidden"@))
    } else {
        Result::Ok(crate::registry::storage_key_of(name, version))
    }
}

/// Check a `(name, version)`-addressed file request and derive the storage
/// key of the archive to read; no storage is touched before the checks.
pub fn plugin_request_key(name: &str, version: &str, file_path: &str) -> (r: Result<
    String,
    PluginFileError,
>)
    ensures
        match r {
            Result::Ok(key) => spec_plugin_request(name@, version@, file_path@) == Result::<
                Seq<char>,
                PluginFileErrorView,
            >::Ok(key@),
            Result::Err(e) => spec_plugin_request(name@, version@, file_path@) == Result::<
                Seq<char>,
                PluginFileErrorView,
            >::Err(e@),
        },
{
    if name.is_empty() || version.is_empty() || file_path.is_empty() {
        return Result::Err(PluginFileError::NotFound(String::from_str("Not found")));
    }
    if !is_safe_path(file_path) {
        return Result::Err(PluginFileError::Forbidden(String::from_str("Forbidden")));
    }
    Result::Ok(crate::registry::storage_key(name, version))
}

} // verus!
