//! The library's stated guarantees, proved once and for all inputs: what
//! validation reports for absent manifests and unsafe paths, that a replace
//! is idempotent, that removal really revokes access, that the allow-list
//! is enforced, and that type-confused assets are refused at both ends of
//! the lifecycle.

use vstd::prelude::*;

use crate::json::{json_parse_spec, JsonNode};
use crate::manifest::{ManifestError, ManifestView, PluginInfoView};
use crate::paths::safe_path;
use crate::registry::{
    count_where, id_pred, pair_pred, without_pair, lemma_count_where_push,
    lemma_without_pair_count, RegistryView, spec_registry_resolve,
};
use crate::resolver::{first_asset, spec_archive_manifest, spec_resolve_file, PluginFileErrorView};
use crate::sniff::{is_jpeg, is_png, jpeg_magic, png_magic, spec_validate_asset_image,
    AssetImageErrorView};
use crate::validate::{spec_validate_core, ValidateErrorView};
use crate::ziparc::{zip_entry, zip_has_entry, zip_ok};
use vstd::utf8::{decode_utf8, valid_utf8};

verus! {

/// An archive that opens but holds no manifest document fails with
/// `MissingManifest` — before any other entry of the archive is consulted.
pub proof fn lemma_missing_manifest(data: Seq<u8>)
    requires
        zip_ok(data),
        !zip_has_entry(data, "metadata.json"@),
    ensures
        spec_validate_core(data) == Result::<ManifestView, ValidateErrorView>::Err(
            ValidateErrorView::MissingManifest,
        ),
{
}

/// A manifest whose entry path or some asset path is not traversal-safe
/// fails validation with that field's error, whatever else the archive
/// holds: no archive entry besides the manifest itself influences the
/// outcome.
pub proof fn lemma_unsafe_path_rejected(data: Seq<u8>, doc: JsonNode, e: ManifestError)
    requires
        zip_ok(data),
        zip_has_entry(data, "metadata.json"@),
        zip_entry(data, "metadata.json"@) matches Option::Some(mb) && valid_utf8(mb)
            && json_parse_spec(decode_utf8(mb)) == Option::Some(doc),
        crate::manifest::spec_validate_metadata(doc) == Result::<
            ManifestView,
            ManifestError,
        >::Err(e),
        e is EntryUnsafe || e is AssetPathUnsafe,
    ensures
        spec_validate_core(data) == Result::<ManifestView, ValidateErrorView>::Err(
            ValidateErrorView::ManifestInvalid(e),
        ),
{
}

/// No record of `without_pair(ps, n, v)` carries the pair `(n, v)`.
pub proof fn lemma_without_pair_clean(ps: Seq<PluginInfoView>, n: Seq<char>, v: Seq<char>)
    ensures
        forall|k: int|
            0 <= k < without_pair(ps, n, v).len() ==> !((#[trigger] without_pair(ps, n, v)[k]).name
                == n && without_pair(ps, n, v)[k].version == v),
{
    lemma_without_pair_count(ps, n, v, n, v);
    lemma_count_zero(without_pair(ps, n, v), pair_pred(n, v));
}

/// A sequence counting zero matches has no matching record.
pub proof fn lemma_count_zero(ps: Seq<PluginInfoView>, f: spec_fn(PluginInfoView) -> bool)
    requires
        count_where(ps, f) == 0,
    ensures
        forall|k: int| 0 <= k < ps.len() ==> !f(#[trigger] ps[k]),
    decreases ps.len(),
{
    if ps.len() > 0 {
        lemma_count_zero(ps.skip(1), f);
        assert forall|k: int| 0 <= k < ps.len() implies !f(#[trigger] ps[k]) by {
            if k > 0 {
                assert(ps.skip(1)[k - 1] == ps[k]);
            }
        }
    }
}

/// `without_pair` over a push: the pushed record is kept exactly when its
/// pair differs.
pub proof fn lemma_without_pair_push(
    ps: Seq<PluginInfoView>,
    n: Seq<char>,
    v: Seq<char>,
    x: PluginInfoView,
)
    ensures
        without_pair(ps.push(x), n, v) == (if x.name == n && x.version == v {
            without_pair(ps, n, v)
        } else {
            without_pair(ps, n, v).push(x)
        }),
    decreases ps.len(),
{
    if ps.len() == 0 {
        assert(ps.push(x)[0] == x);
        assert(ps.push(x).skip(1) =~= Seq::<PluginInfoView>::empty());
        assert(without_pair(Seq::<PluginInfoView>::empty(), n, v)
            =~= Seq::<PluginInfoView>::empty());
        if !(x.name == n && x.version == v) {
            assert(seq![x] + Seq::<PluginInfoView>::empty() =~= without_pair(ps, n, v).push(x));
        }
    } else {
        assert(ps.push(x)[0] == ps[0]);
        assert(ps.push(x).skip(1) =~= ps.skip(1).push(x));
        lemma_without_pair_push(ps.skip(1), n, v, x);
        if !(x.name == n && x.version == v) {
            if !(ps[0].name == n && ps[0].version == v) {
                assert(seq![ps[0]] + without_pair(ps.skip(1), n, v).push(x) =~= (seq![ps[0]]
                    + without_pair(ps.skip(1), n, v)).push(x));
            }
        }
    }
}

/// A sequence with no matching pair is left whole by `without_pair`.
pub proof fn lemma_without_pair_noop(ps: Seq<PluginInfoView>, n: Seq<char>, v: Seq<char>)
    requires
        forall|k: int|
            0 <= k < ps.len() ==> !((#[trigger] ps[k]).name == n && ps[k].version == v),
    ensures
        without_pair(ps, n, v) == ps,
    decreases ps.len(),
{
    if ps.len() > 0 {
        assert forall|k: int|
            0 <= k < ps.skip(1).len() implies !((#[trigger] ps.skip(1)[k]).name == n && ps.skip(
            1,
        )[k].version == v) by {
            assert(ps.skip(1)[k] == ps[k + 1]);
        }
        lemma_without_pair_noop(ps.skip(1), n, v);
        assert(seq![ps[0]] + ps.skip(1) =~= ps);
    }
}

/// Idempotent replace: installing the same `(name, version)` twice — in
/// whatever order the registry held its records — leaves exactly one record
/// with that pair, and it is the second install's, its fields (author
/// included) intact.
pub proof fn lemma_replace_idempotent(
    ps: Seq<PluginInfoView>,
    first: PluginInfoView,
    second: PluginInfoView,
)
    requires
        first.name == second.name,
        first.version == second.version,
    ensures
        ({
            let after_first = without_pair(ps, first.name, first.version).push(first);
            let after_second = without_pair(after_first, second.name, second.version).push(second);
            &&& after_second == without_pair(ps, second.name, second.version).push(second)
            &&& count_where(after_second, pair_pred(second.name, second.version)) == 1
            &&& after_second[after_second.len() - 1] == second
            &&& forall|k: int|
                0 <= k < after_second.len() - 1 ==> !((#[trigger] after_second[k]).name
                    == second.name && after_second[k].version == second.version)
        }),
{
    let n = second.name;
    let v = second.version;
    let w = without_pair(ps, n, v);
    let after_first = w.push(first);
    lemma_without_pair_push(w, n, v, first);
    lemma_without_pair_clean(ps, n, v);
    lemma_without_pair_noop(w, n, v);
    assert(without_pair(after_first, n, v) == w);
    lemma_without_pair_count(ps, n, v, n, v);
    lemma_count_where_push(w, pair_pred(n, v), second);
    let after_second = without_pair(after_first, n, v).push(second);
    assert(after_second == w.push(second));
    assert forall|k: int|
        0 <= k < after_second.len() - 1 implies !((#[trigger] after_second[k]).name == n
        && after_second[k].version == v) by {
        assert(after_second[k] == w[k]);
    }
}

/// Delete then miss: once no record carries the identity — as a successful
/// `remove` of that identity guarantees — resolving it yields `NotFound`,
/// for every empty or traversal-safe requested path.  (A traversal-unsafe
/// path is refused as `Forbidden` even earlier, before any lookup.)
pub proof fn lemma_remove_then_resolve(reg: RegistryView, q: Seq<char>, path: Seq<char>)
    requires
        count_where(reg.doc.plugins, id_pred(q)) == 0,
        path.len() == 0 || safe_path(path),
    ensures
        spec_registry_resolve(reg, q, path) matches Result::Err(e) && e is NotFound,
{
}

/// Allow-list enforcement: a requested path that is neither the entry nor a
/// declared asset is `Forbidden`, even when the bytes exist physically in
/// the archive.
pub proof fn lemma_undeclared_forbidden(data: Seq<u8>, path: Seq<char>, m: ManifestView)
    requires
        zip_ok(data),
        spec_archive_manifest(data) == Option::Some(m),
        m.entry != path,
        first_asset(m.assets, path) is None,
    ensures
        spec_resolve_file(data, path) == Result::<(Seq<u8>, Seq<char>), PluginFileErrorView>::Err(
            PluginFileErrorView::Forbidden("File not declared in plugin metadata"@),
        ),
{
}

/// Type-confusion defense at validation time: bytes that sniff as JPEG
/// declared as `png` fail the sniff-and-compare check with a type mismatch.
pub proof fn lemma_type_confusion(bytes: Seq<u8>)
    requires
        is_jpeg(bytes),
    ensures
        spec_validate_asset_image(bytes, "png"@) == Result::<(), AssetImageErrorView>::Err(
            AssetImageErrorView::TypeMismatch { declared: "png"@, detected: "jpeg"@ },
        ),
{
    assert(bytes.take(3)[0] == bytes[0]);
    assert(jpeg_magic()[0] == 0xffu8);
    if is_png(bytes) {
        assert(bytes.take(8)[0] == bytes[0]);
        assert(png_magic()[0] == 0x89u8);
    }
    reveal_strlit("png");
    reveal_strlit("jpeg");
    assert("png"@.len() == 3 && "jpeg"@.len() == 4);
}

/// Type-confusion defense at serve time: if such an archive was installed
/// out-of-band, the resolver refuses the asset rather than serving it.
pub proof fn lemma_type_confusion_resolve(
    data: Seq<u8>,
    path: Seq<char>,
    m: ManifestView,
    a: crate::manifest::AssetInfoView,
    content: Seq<u8>,
)
    requires
        zip_ok(data),
        spec_archive_manifest(data) == Option::Some(m),
        first_asset(m.assets, path) == Option::Some(a),
        a.mime_type == "png"@,
        zip_has_entry(data, path),
        zip_entry(data, path) == Option::Some(content),
        is_jpeg(content),
    ensures
        spec_resolve_file(data, path) == Result::<(Seq<u8>, Seq<char>), PluginFileErrorView>::Err(
            PluginFileErrorView::Internal("Asset validation failed"@),
        ),
{
    lemma_type_confusion(content);
}

} // verus!
