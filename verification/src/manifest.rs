//! The package manifest: its data model and its semantic validation.
//!
//! A manifest is the JSON object at the archive root declaring the package's
//! identity: `name`, `version`, `author`, `entry`, and the `assets` list.
//! [`validate_metadata`] checks the field rules one by one and produces the
//! immutable [`PluginInfo`] projection, reporting the first violated field.

use vstd::prelude::*;

use crate::chars::{
    all_digits, chars_all_digits, chars_to_string, dec_digits, split_chars, split_on, str_eq,
    str_to_chars, trim_chars, trimmed, u64_to_dec,
};
use crate::json::{obj_lookup, obj_view, members_get, JsonNode, JsonValue};
use crate::paths::{is_safe_path, safe_path};

verus! {

/// One declared asset: a relative path and its declared type token.
pub struct AssetInfo {
    pub path: String,
    pub mime_type: String,
}

/// The mathematical value of an [`AssetInfo`].
#[verifier::ext_equal]
pub struct AssetInfoView {
    pub path: Seq<char>,
    pub mime_type: Seq<char>,
}

impl View for AssetInfo {
    type V = AssetInfoView;

    open spec fn view(&self) -> AssetInfoView {
        AssetInfoView { path: self.path@, mime_type: self.mime_type@ }
    }
}

/// The validated, immutable projection of a manifest, including the opaque
/// identifier generated at validation time.
pub struct PluginInfo {
    pub id: String,
    pub name: String,
    pub author: String,
    pub version: String,
    pub entry: String,
    pub assets: Vec<AssetInfo>,
}

/// The mathematical value of a [`PluginInfo`].
#[verifier::ext_equal]
pub struct PluginInfoView {
    pub id: Seq<char>,
    pub name: Seq<char>,
    pub author: Seq<char>,
    pub version: Seq<char>,
    pub entry: Seq<char>,
    pub assets: Seq<AssetInfoView>,
}

impl View for PluginInfo {
    type V = PluginInfoView;

    open spec fn view(&self) -> PluginInfoView {
        PluginInfoView {
            id: self.id@,
            name: self.name@,
            author: self.author@,
            version: self.version@,
            entry: self.entry@,
            assets: Seq::new(self.assets@.len(), |i: int| self.assets@[i]@),
        }
    }
}

impl AssetInfo {
    /// Copy this declaration, preserving its value.
    pub fn duplicate(&self) -> (r: AssetInfo)
        ensures
            r@ == self@,
    {
        AssetInfo { path: self.path.clone(), mime_type: self.mime_type.clone() }
    }
}

impl PluginInfo {
    /// Copy this projection, preserving its value.
    pub fn duplicate(&self) -> (r: PluginInfo)
        ensures
            r@ == self@,
    {
        let mut assets: Vec<AssetInfo> = Vec::new();
        let mut i: usize = 0;
        while i < self.assets.len()
            invariant
                i <= self.assets@.len(),
                assets@.len() == i,
                forall|k: int| 0 <= k < i ==> (#[trigger] assets@[k])@ == self.assets@[k]@,
            decreases self.assets@.len() - i,
        {
            assets.push(self.assets[i].duplicate());
            i = i + 1;
        }
        let r = PluginInfo {
            id: self.id.clone(),
            name: self.name.clone(),
            author: self.author.clone(),
            version: self.version.clone(),
            entry: self.entry.clone(),
            assets,
        };
        proof {
            assert(r@ =~~= self@);
        }
        r
    }
}

/// The manifest fields that must hold a non-empty string.
#[derive(PartialEq, Eq, Structural, Clone, Copy, Debug)]
pub enum ManifestField {
    Name,
    Version,
    Author,
    Entry,
}

/// Why a manifest was rejected: the first violated field, one variant
/// per rule.
#[derive(PartialEq, Eq, Structural, Clone, Copy, Debug)]
pub enum ManifestError {
    /// The document is not a JSON object.
    NotAnObject,
    /// A required field is absent, not a string, or empty after trimming.
    FieldMissing(ManifestField),
    /// `name` holds a character outside `A-Z a-z 0-9 - _`.
    NameInvalid,
    /// `version` is not three dot-separated runs of digits.
    VersionInvalid,
    /// `entry` is not a traversal-free relative path.
    EntryUnsafe,
    /// `assets` is present but not an array.
    AssetsNotArray,
    /// `assets[i]` is not an object.
    AssetNotObject(usize),
    /// `assets[i].path` is absent, not a string, or empty after trimming.
    AssetPathMissing(usize),
    /// `assets[i].path` is not a traversal-free relative path.
    AssetPathUnsafe(usize),
    /// `assets[i].type` is absent, not a string, or empty after trimming.
    AssetTypeMissing(usize),
    /// `assets[i].type` is not an allow-listed type token.
    AssetTypeUnsupported(usize),
}

/// The manifest fields before an identifier is attached.
#[verifier::ext_equal]
pub struct ManifestView {
    pub name: Seq<char>,
    pub author: Seq<char>,
    pub version: Seq<char>,
    pub entry: Seq<char>,
    pub assets: Seq<AssetInfoView>,
}

/// A valid plugin name: non-empty, ASCII letters, digits, `-` and `_` only.
pub open spec fn valid_name(s: Seq<char>) -> bool {
    &&& s.len() > 0
    &&& forall|i: int| 0 <= i < s.len() ==> name_char(#[trigger] s[i])
}

pub open spec fn name_char(c: char) -> bool {
    ||| ('0' <= c && c <= '9')
    ||| ('a' <= c && c <= 'z')
    ||| ('A' <= c && c <= 'Z')
    ||| c == '-'
    ||| c == '_'
}

/// A valid version: exactly three dot-separated non-empty runs of digits.
pub open spec fn valid_version(s: Seq<char>) -> bool {
    &&& split_on(s, '.').len() == 3
    &&& forall|k: int|
        0 <= k < 3 ==> {
            &&& (#[trigger] split_on(s, '.')[k]).len() > 0
            &&& all_digits(split_on(s, '.')[k])
        }
}

/// The declared-type allow-list: the tokens with a reliable magic-byte
/// signature the sniffer can hold them to.
pub open spec fn allowed_asset_type(s: Seq<char>) -> bool {
    s == "png"@ || s == "jpeg"@
}

/// What a string-valued manifest field holds: the trimmed text, provided the
/// member is present, a string, and non-empty after trimming.
pub open spec fn str_field(ms: Seq<(Seq<char>, JsonNode)>, key: Seq<char>) -> Option<Seq<char>> {
    match obj_lookup(ms, key) {
        Option::Some(JsonNode::Str(s)) => if trimmed(s).len() > 0 {
            Option::Some(trimmed(s))
        } else {
            Option::None
        },
        _ => Option::None,
    }
}

/// The outcome of checking `assets[i]`.
pub open spec fn spec_asset(item: JsonNode, i: int) -> Result<AssetInfoView, ManifestError> {
    match item {
        JsonNode::Obj(ms) => match str_field(ms, "path"@) {
            Option::None => Result::Err(ManifestError::AssetPathMissing(i as usize)),
            Option::Some(p) => if !safe_path(p) {
                Result::Err(ManifestError::AssetPathUnsafe(i as usize))
            } else {
                match str_field(ms, "type"@) {
                    Option::None => Result::Err(ManifestError::AssetTypeMissing(i as usize)),
                    Option::Some(t) => if !allowed_asset_type(t) {
                        Result::Err(ManifestError::AssetTypeUnsupported(i as usize))
                    } else {
                        Result::Ok(AssetInfoView { path: p, mime_type: t })
                    },
                }
            },
        },
        _ => Result::Err(ManifestError::AssetNotObject(i as usize)),
    }
}

/// The outcome of checking `assets[i..]`: the declarations in order, or the
/// first error.
pub open spec fn spec_assets_from(arr: Seq<JsonNode>, i: int) -> Result<
    Seq<AssetInfoView>,
    ManifestError,
>
    decreases arr.len() - i,
{
    if i < 0 || i >= arr.len() {
        Result::Ok(Seq::empty())
    } else {
        match spec_asset(arr[i], i) {
            Result::Err(e) => Result::Err(e),
            Result::Ok(a) => match spec_assets_from(arr, i + 1) {
                Result::Err(e) => Result::Err(e),
                Result::Ok(rest) => Result::Ok(seq![a] + rest),
            },
        }
    }
}

/// The outcome of the `assets` member as a whole: absent means no assets.
pub open spec fn spec_assets(ms: Seq<(Seq<char>, JsonNode)>) -> Result<
    Seq<AssetInfoView>,
    ManifestError,
> {
    match obj_lookup(ms, "assets"@) {
        Option::None => Result::Ok(Seq::empty()),
        Option::Some(JsonNode::Arr(arr)) => spec_assets_from(arr, 0),
        Option::Some(_) => Result::Err(ManifestError::AssetsNotArray),
    }
}

/// The semantic check of a manifest document: the field values, or
/// the first violated field in checking order (`name`, `version`, `entry`,
/// `assets`, `author`).
pub open spec fn spec_validate_metadata(doc: JsonNode) -> Result<ManifestView, ManifestError> {
    match doc {
        JsonNode::Obj(ms) => match str_field(ms, "name"@) {
            Option::None => Result::Err(ManifestError::FieldMissing(ManifestField::Name)),
            Option::Some(name) => if !valid_name(name) {
                Result::Err(ManifestError::NameInvalid)
            } else {
                match str_field(ms, "version"@) {
                    Option::None => Result::Err(
                        ManifestError::FieldMissing(ManifestField::Version),
                    ),
                    Option::Some(version) => if !valid_version(version) {
                        Result::Err(ManifestError::VersionInvalid)
                    } else {
                        match str_field(ms, "entry"@) {
                            Option::None => Result::Err(
                                ManifestError::FieldMissing(ManifestField::Entry),
                            ),
                            Option::Some(entry) => if !safe_path(entry) {
                                Result::Err(ManifestError::EntryUnsafe)
                            } else {
                                match spec_assets(ms) {
                                    Result::Err(e) => Result::Err(e),
                                    Result::Ok(assets) => match str_field(ms, "author"@) {
                                        Option::None => Result::Err(
                                            ManifestError::FieldMissing(ManifestField::Author),
                                        ),
                                        Option::Some(author) => Result::Ok(
                                            ManifestView { name, author, version, entry, assets },
                                        ),
                                    },
                                }
                            },
                        }
                    },
                }
            },
        },
        _ => Result::Err(ManifestError::NotAnObject),
    }
}

/// The opaque identifier attached at validation time:
/// `name`-`version`-`stamp`.
pub open spec fn id_of(name: Seq<char>, version: Seq<char>, stamp: nat) -> Seq<char> {
    name + seq!['-'] + version + seq!['-'] + dec_digits(stamp)
}

/// How a successful validation projects a manifest into a [`PluginInfo`]
/// value stamped with `stamp`.
pub open spec fn info_of(m: ManifestView, stamp: nat) -> PluginInfoView {
    PluginInfoView {
        id: id_of(m.name, m.version, stamp),
        name: m.name,
        author: m.author,
        version: m.version,
        entry: m.entry,
        assets: m.assets,
    }
}

/// Check that a string is a valid plugin name.
pub fn is_valid_name(s: &str) -> (r: bool)
    ensures
        r == valid_name(s@),
{
    let v = str_to_chars(s);
    if v.len() == 0 {
        return false;
    }
    let mut i: usize = 0;
    while i < v.len()
        invariant
            v@ == s@,
            i <= v@.len(),
            forall|k: int| 0 <= k < i ==> name_char(#[trigger] v@[k]),
        decreases v@.len() - i,
    {
        let c = v[i];
        if !(('0' <= c && c <= '9') || ('a' <= c && c <= 'z') || ('A' <= c && c <= 'Z') || c == '-'
            || c == '_') {
            assert(!name_char(s@[i as int]));
            return false;
        }
        i = i + 1;
    }
    true
}

/// Check that a string is a `major.minor.patch` version.
pub fn is_valid_version(s: &str) -> (r: bool)
    ensures
        r == valid_version(s@),
{
    let v = str_to_chars(s);
    let parts = split_chars(&v, '.');
    if parts.len() != 3 {
        return false;
    }
    let mut k: usize = 0;
    while k < 3
        invariant
            k <= 3,
            parts.deep_view() == split_on(s@, '.'),
            parts@.len() == 3,
            forall|j: int|
                0 <= j < k ==> {
                    &&& (#[trigger] split_on(s@, '.')[j]).len() > 0
                    &&& all_digits(split_on(s@, '.')[j])
                },
        decreases 3 - k,
    {
        proof {
            assert(parts.deep_view()[k as int] == parts@[k as int].deep_view());
            assert(parts@[k as int].deep_view() =~= parts@[k as int]@);
        }
        let part = &parts[k];
        if part.len() == 0 {
            return false;
        }
        if !chars_all_digits(part) {
            return false;
        }
        k = k + 1;
    }
    true
}

/// Fetch a string-valued member: present, a string, and non-empty after
/// trimming; the trimmed text is returned.
fn get_str_field(members: &Vec<(String, JsonValue)>, key: &str) -> (r: Option<String>)
    ensures
        match r {
            Option::Some(s) => str_field(obj_view(members@), key@) == Option::Some(s@),
            Option::None => str_field(obj_view(members@), key@) is None,
        },
{
    match members_get(members, key) {
        Option::None => Option::None,
        Option::Some(v) => match v {
            JsonValue::Str(s) => {
                let cs = str_to_chars(s.as_str());
                let t = trim_chars(&cs);
                if t.len() == 0 {
                    Option::None
                } else {
                    Option::Some(chars_to_string(&t))
                }
            },
            _ => Option::None,
        },
    }
}

/// The element-wise view of an asset list.
pub open spec fn assets_view(s: Seq<AssetInfo>) -> Seq<AssetInfoView> {
    Seq::new(s.len(), |i: int| s[i]@)
}

proof fn lemma_spec_assets_join(arr: Seq<JsonNode>, b: Seq<AssetInfoView>, lo: int, hi: int)
    requires
        0 <= lo <= hi <= arr.len(),
        b.len() == hi - lo,
        forall|k: int|
            lo <= k < hi ==> #[trigger] spec_asset(arr[k], k) == Result::<
                AssetInfoView,
                ManifestError,
            >::Ok(b[k - lo]),
    ensures
        spec_assets_from(arr, lo) == match spec_assets_from(arr, hi) {
            Result::Ok(rest) => Result::<Seq<AssetInfoView>, ManifestError>::Ok(b + rest),
            Result::Err(e) => Result::Err(e),
        },
    decreases hi - lo,
{
    if lo == hi {
        match spec_assets_from(arr, hi) {
            Result::Ok(rest) => {
                assert(b + rest =~= rest);
            },
            Result::Err(e) => {},
        }
    } else {
        lemma_spec_assets_join(arr, b.skip(1), lo + 1, hi);
        assert(spec_asset(arr[lo], lo) == Result::<AssetInfoView, ManifestError>::Ok(b[0]));
        match spec_assets_from(arr, hi) {
            Result::Ok(rest) => {
                assert(seq![b[0]] + (b.skip(1) + rest) =~= b + rest);
            },
            Result::Err(e) => {},
        }
    }
}

/// Check the `assets` member: each declaration in order, or the first
/// violation.
fn collect_assets(members: &Vec<(String, JsonValue)>) -> (r: Result<Vec<AssetInfo>, ManifestError>)
    ensures
        match r {
            Result::Ok(v) => spec_assets(obj_view(members@)) == Result::<
                Seq<AssetInfoView>,
                ManifestError,
            >::Ok(assets_view(v@)),
            Result::Err(e) => spec_assets(obj_view(members@)) == Result::<
                Seq<AssetInfoView>,
                ManifestError,
            >::Err(e),
        },
{
    let arr: &Vec<JsonValue> = match members_get(members, "assets") {
        Option::None => {
            let r: Vec<AssetInfo> = Vec::new();
            assert(assets_view(r@) =~= Seq::<AssetInfoView>::empty());
            return Result::Ok(r);
        },
        Option::Some(v) => match v {
            JsonValue::Arr(a) => a,
            _ => {
                return Result::Err(ManifestError::AssetsNotArray);
            },
        },
    };
    let ghost av = crate::json::json_view_list(arr@);
    proof {
        crate::json::lemma_json_view_list(arr@);
    }
    let mut out: Vec<AssetInfo> = Vec::new();
    let mut i: usize = 0;
    while i < arr.len()
        invariant
            av == crate::json::json_view_list(arr@),
            av.len() == arr@.len(),
            forall|k: int| 0 <= k < arr@.len() ==> #[trigger] av[k] == crate::json::json_view(arr@[k]),
            spec_assets(obj_view(members@)) == spec_assets_from(av, 0),
            i <= arr@.len(),
            out@.len() == i,
            forall|k: int|
                0 <= k < i ==> #[trigger] spec_asset(av[k], k) == Result::<
                    AssetInfoView,
                    ManifestError,
                >::Ok(assets_view(out@)[k]),
        decreases arr@.len() - i,
    {
        let ghost pre = assets_view(out@);
        let item: &JsonValue = &arr[i];
        let ms2: &Vec<(String, JsonValue)> = match item {
            JsonValue::Obj(m) => m,
            _ => {
                proof {
                    assert(spec_asset(av[i as int], i as int) == Result::<
                        AssetInfoView,
                        ManifestError,
                    >::Err(ManifestError::AssetNotObject(i)));
                    lemma_spec_assets_join(av, pre, 0, i as int);
                }
                return Result::Err(ManifestError::AssetNotObject(i));
            },
        };
        let path = match get_str_field(ms2, "path") {
            Option::Some(p) => p,
            Option::None => {
                proof {
                    lemma_spec_assets_join(av, pre, 0, i as int);
                }
                return Result::Err(ManifestError::AssetPathMissing(i));
            },
        };
        if !is_safe_path(path.as_str()) {
            proof {
                lemma_spec_assets_join(av, pre, 0, i as int);
            }
            return Result::Err(ManifestError::AssetPathUnsafe(i));
        }
        let mime = match get_str_field(ms2, "type") {
            Option::Some(t) => t,
            Option::None => {
                proof {
                    lemma_spec_assets_join(av, pre, 0, i as int);
                }
                return Result::Err(ManifestError::AssetTypeMissing(i));
            },
        };
        if !(str_eq(mime.as_str(), "png") || str_eq(mime.as_str(), "jpeg")) {
            proof {
                lemma_spec_assets_join(av, pre, 0, i as int);
            }
            return Result::Err(ManifestError::AssetTypeUnsupported(i));
        }
        let a = AssetInfo { path, mime_type: mime };
        let ghost gav = a@;
        out.push(a);
        proof {
            assert(assets_view(out@) =~= pre + seq![gav]);
            assert(spec_asset(av[i as int], i as int) == Result::<
                AssetInfoView,
                ManifestError,
            >::Ok(gav));
        }
        i = i + 1;
    }
    proof {
        lemma_spec_assets_join(av, assets_view(out@), 0, arr@.len() as int);
        assert(spec_assets_from(av, arr@.len() as int) == Result::<
            Seq<AssetInfoView>,
            ManifestError,
        >::Ok(Seq::empty()));
        assert(assets_view(out@) + Seq::<AssetInfoView>::empty() =~= assets_view(out@));
    }
    Result::Ok(out)
}

/// Compose the opaque identifier `name`-`version`-`stamp`.
fn build_id(name: &String, version: &String, stamp: u64) -> (r: String)
    ensures
        r@ == id_of(name@, version@, stamp as nat),
{
    let mut v = str_to_chars(name.as_str());
    v.push('-');
    let mut v2 = str_to_chars(version.as_str());
    v.append(&mut v2);
    v.push('-');
    let mut v3 = u64_to_dec(stamp);
    v.append(&mut v3);
    assert(v@ =~= id_of(name@, version@, stamp as nat));
    chars_to_string(&v)
}

/// Validate a manifest document against the field rules, stamping the
/// result with the opaque identifier derived from `stamp`.
///
/// The outcome is exactly `spec_validate_metadata` of the document: the
/// first violated field in checking order, or the projected `PluginInfo`.
pub fn validate_metadata(doc: &JsonValue, stamp: u64) -> (r: Result<PluginInfo, ManifestError>)
    ensures
        match r {
            Result::Ok(info) => spec_validate_metadata(doc@) matches Result::Ok(m) && info@
                == info_of(m, stamp as nat),
            Result::Err(e) => spec_validate_metadata(doc@) == Result::<
                ManifestView,
                ManifestError,
            >::Err(e),
        },
{
    let members: &Vec<(String, JsonValue)> = match doc {
        JsonValue::Obj(ms) => ms,
        _ => {
            return Result::Err(ManifestError::NotAnObject);
        },
    };
    let name = match get_str_field(members, "name") {
        Option::Some(s) => s,
        Option::None => {
            return Result::Err(ManifestError::FieldMissing(ManifestField::Name));
        },
    };
    if !is_valid_name(name.as_str()) {
        return Result::Err(ManifestError::NameInvalid);
    }
    let version = match get_str_field(members, "version") {
        Option::Some(s) => s,
        Option::None => {
            return Result::Err(ManifestError::FieldMissing(ManifestField::Version));
        },
    };
    if !is_valid_version(version.as_str()) {
        return Result::Err(ManifestError::VersionInvalid);
    }
    let entry = match get_str_field(members, "entry") {
        Option::Some(s) => s,
        Option::None => {
            return Result::Err(ManifestError::FieldMissing(ManifestField::Entry));
        },
    };
    if !is_safe_path(entry.as_str()) {
        return Result::Err(ManifestError::EntryUnsafe);
    }
    let assets = match collect_assets(members) {
        Result::Ok(a) => a,
        Result::Err(e) => {
            return Result::Err(e);
        },
    };
    let author = match get_str_field(members, "author") {
        Option::Some(s) => s,
        Option::None => {
            return Result::Err(ManifestError::FieldMissing(ManifestField::Author));
        },
    };
    let id = build_id(&name, &version, stamp);
    let info = PluginInfo { id, name, author, version, entry, assets };
    proof {
        let m = ManifestView {
            name: info.name@,
            author: info.author@,
            version: info.version@,
            entry: info.entry@,
            assets: assets_view(info.assets@),
        };
        assert(spec_validate_metadata(doc@) == Result::<ManifestView, ManifestError>::Ok(m));
        assert(info@ =~~= info_of(m, stamp as nat));
    }
    Result::Ok(info)
}

/// The canonical content-type string for a declared asset type token.
pub open spec fn mime_of(t: Seq<char>) -> Seq<char> {
    if t == "png"@ {
        "image/png"@
    } else if t == "jpeg"@ {
        "image/jpeg"@
    } else {
        "application/octet-stream"@
    }
}

/// Map a declared asset type token to its canonical content-type string.
pub fn asset_type_to_mime(t: &str) -> (r: &'static str)
    ensures
        r@ == mime_of(t@),
{
    if str_eq(t, "png") {
        "image/png"
    } else if str_eq(t, "jpeg") {
        "image/jpeg"
    } else {
        "application/octet-stream"
    }
}

} // verus!
