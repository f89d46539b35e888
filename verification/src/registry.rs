//! The plugin registry: durable bookkeeping of installed packages.
//!
//! The registry document is the host application's JSON configuration file.
//! The registry owns exactly its `plugins` member — a typed list of
//! records — and carries every unrelated sibling member through untouched.
//! The stored archives live beside it, addressed by the deterministic
//! storage key derived from `(name, version)`.

use vstd::prelude::*;

use crate::chars::{str_eq, str_to_chars, chars_to_string};
use crate::json::{
    lemma_json_view_members_concat, json_parse_spec, json_text, json_to_string, json_view, json_view_list, json_view_members,
    lemma_json_view_list, lemma_json_view_members, members_get, obj_lookup, obj_view, parse_json,
    JsonNode, JsonValue,
};
use crate::manifest::{assets_view, AssetInfo, AssetInfoView, PluginInfo, PluginInfoView};

verus! {

/// The typed registry document: the `plugins` records, and every unrelated
/// member of the host document in order, passed through uninterpreted.
pub struct RegistryDoc {
    pub plugins: Vec<PluginInfo>,
    pub others: Vec<(String, JsonValue)>,
}

/// The mathematical value of a [`RegistryDoc`].
#[verifier::ext_equal]
pub struct RegistryDocView {
    pub plugins: Seq<PluginInfoView>,
    pub others: Seq<(Seq<char>, JsonNode)>,
}

impl View for RegistryDoc {
    type V = RegistryDocView;

    open spec fn view(&self) -> RegistryDocView {
        RegistryDocView {
            plugins: Seq::new(self.plugins@.len(), |i: int| self.plugins@[i]@),
            others: json_view_members(self.others@),
        }
    }
}

/// The text of a string member, or empty when absent or not a string.
pub open spec fn str_member_or_empty(ms: Seq<(Seq<char>, JsonNode)>, key: Seq<char>) -> Seq<char> {
    match obj_lookup(ms, key) {
        Option::Some(JsonNode::Str(s)) => s,
        _ => Seq::empty(),
    }
}

/// The asset declaration read back from one stored asset object; anything
/// unexpected reads as empty fields.
pub open spec fn asset_record_of(n: JsonNode) -> AssetInfoView {
    match n {
        JsonNode::Obj(ms) => AssetInfoView {
            path: str_member_or_empty(ms, "path"@),
            mime_type: str_member_or_empty(ms, "type"@),
        },
        _ => AssetInfoView { path: Seq::empty(), mime_type: Seq::empty() },
    }
}

/// The asset declarations read back from a stored assets member.
pub open spec fn assets_records_of(items: Seq<JsonNode>) -> Seq<AssetInfoView>
    decreases items,
{
    if items.len() == 0 {
        Seq::empty()
    } else {
        seq![asset_record_of(items[0])] + assets_records_of(items.skip(1))
    }
}

/// The record read back from one stored plugin object, or `None` when the
/// element is not an object.
pub open spec fn record_of(n: JsonNode) -> Option<PluginInfoView> {
    match n {
        JsonNode::Obj(ms) => Option::Some(
            PluginInfoView {
                id: str_member_or_empty(ms, "id"@),
                name: str_member_or_empty(ms, "name"@),
                author: str_member_or_empty(ms, "author"@),
                version: str_member_or_empty(ms, "version"@),
                entry: str_member_or_empty(ms, "entry"@),
                assets: match obj_lookup(ms, "assets"@) {
                    Option::Some(JsonNode::Arr(items)) => assets_records_of(items),
                    _ => Seq::empty(),
                },
            },
        ),
        _ => Option::None,
    }
}

/// The members of the host document that do not belong to the registry.
pub open spec fn sibling_members(ms: Seq<(Seq<char>, JsonNode)>) -> Seq<(Seq<char>, JsonNode)>
    decreases ms,
{
    if ms.len() == 0 {
        Seq::empty()
    } else if ms[0].0 == "plugins"@ {
        sibling_members(ms.skip(1))
    } else {
        seq![ms[0]] + sibling_members(ms.skip(1))
    }
}

/// Clone a `String` member value, or empty when absent or not a string.
fn get_member_string(ms: &Vec<(String, JsonValue)>, key: &str) -> (r: String)
    ensures
        r@ == str_member_or_empty(obj_view(ms@), key@),
{
    match members_get(ms, key) {
        Option::Some(v) => match v {
            JsonValue::Str(s) => s.clone(),
            _ => String::new(),
        },
        _ => String::new(),
    }
}

/// Read the asset declarations back out of a stored record object.
fn read_assets(ms: &Vec<(String, JsonValue)>) -> (r: Vec<AssetInfo>)
    ensures
        assets_view(r@) == match obj_lookup(obj_view(ms@), "assets"@) {
            Option::Some(JsonNode::Arr(items)) => assets_records_of(items),
            _ => Seq::<AssetInfoView>::empty(),
        },
{
    let items: &Vec<JsonValue> = match members_get(ms, "assets") {
        Option::Some(v) => match v {
            JsonValue::Arr(a) => a,
            _ => {
                let r: Vec<AssetInfo> = Vec::new();
                assert(assets_view(r@) =~= Seq::<AssetInfoView>::empty());
                return r;
            },
        },
        _ => {
            let r: Vec<AssetInfo> = Vec::new();
            assert(assets_view(r@) =~= Seq::<AssetInfoView>::empty());
            return r;
        },
    };
    let ghost av = json_view_list(items@);
    proof {
        lemma_json_view_list(items@);
    }
    let mut out: Vec<AssetInfo> = Vec::new();
    let mut i: usize = 0;
    while i < items.len()
        invariant
            av == json_view_list(items@),
            av.len() == items@.len(),
            forall|k: int|
                0 <= k < items@.len() ==> #[trigger] av[k] == json_view(items@[k]),
            i <= items@.len(),
            out@.len() == i,
            forall|k: int| 0 <= k < i ==> #[trigger] assets_view(out@)[k] == asset_record_of(av[k]),
        decreases items@.len() - i,
    {
        let ghost pre = assets_view(out@);
        let a: AssetInfo = match &items[i] {
            JsonValue::Obj(m2) => AssetInfo {
                path: get_member_string(m2, "path"),
                mime_type: get_member_string(m2, "type"),
            },
            _ => AssetInfo { path: String::new(), mime_type: String::new() },
        };
        proof {
            assert(a@ == asset_record_of(av[i as int]));
        }
        let ghost gav = a@;
        out.push(a);
        proof {
            assert(assets_view(out@) =~= pre + seq![gav]);
        }
        i = i + 1;
    }
    proof {
        lemma_assets_records_pointwise(av);
        assert(assets_view(out@) =~= assets_records_of(av));
    }
    out
}

proof fn lemma_assets_records_pointwise(items: Seq<JsonNode>)
    ensures
        assets_records_of(items).len() == items.len(),
        forall|i: int|
            0 <= i < items.len() ==> #[trigger] assets_records_of(items)[i] == asset_record_of(
                items[i],
            ),
    decreases items.len(),
{
    if items.len() > 0 {
        lemma_assets_records_pointwise(items.skip(1));
        assert forall|i: int|
            0 <= i < items.len() implies #[trigger] assets_records_of(items)[i] == asset_record_of(
            items[i],
        ) by {
            if i > 0 {
                assert(assets_records_of(items.skip(1))[i - 1] == asset_record_of(
                    items.skip(1)[i - 1],
                ));
                assert(items.skip(1)[i - 1] == items[i]);
            }
        }
    }
}

/// Read one stored record back, or `None` when the element is not an object.
fn read_record(v: &JsonValue) -> (r: Option<PluginInfo>)
    ensures
        match r {
            Option::Some(info) => record_of(v@) == Option::Some(info@),
            Option::None => record_of(v@) is None,
        },
{
    let ms: &Vec<(String, JsonValue)> = match v {
        JsonValue::Obj(m) => m,
        _ => {
            return Option::None;
        },
    };
    let info = PluginInfo {
        id: get_member_string(ms, "id"),
        name: get_member_string(ms, "name"),
        author: get_member_string(ms, "author"),
        version: get_member_string(ms, "version"),
        entry: get_member_string(ms, "entry"),
        assets: read_assets(ms),
    };
    proof {
        assert(info@ =~~= record_of(v@)->Some_0);
    }
    Option::Some(info)
}

/// The records read back from `items[i..]`, or `None` as soon as an element
/// is not an object.
pub open spec fn records_from(items: Seq<JsonNode>, i: int) -> Option<Seq<PluginInfoView>>
    decreases items.len() - i,
{
    if i < 0 || i >= items.len() {
        Option::Some(Seq::empty())
    } else {
        match record_of(items[i]) {
            Option::None => Option::None,
            Option::Some(r) => match records_from(items, i + 1) {
                Option::None => Option::None,
                Option::Some(rest) => Option::Some(seq![r] + rest),
            },
        }
    }
}

/// Read the stored `plugins` array back, or `None` when an element is not
/// an object.
fn read_records(items: &Vec<JsonValue>) -> (r: Option<Vec<PluginInfo>>)
    ensures
        match r {
            Option::Some(ps) => records_from(json_view_list(items@), 0) == Option::Some(
                Seq::new(ps@.len(), |i: int| ps@[i]@),
            ),
            Option::None => records_from(json_view_list(items@), 0) is None,
        },
{
    let ghost av = json_view_list(items@);
    proof {
        lemma_json_view_list(items@);
    }
    let mut out: Vec<PluginInfo> = Vec::new();
    let mut i: usize = 0;
    while i < items.len()
        invariant
            av == json_view_list(items@),
            av.len() == items@.len(),
            forall|k: int| 0 <= k < items@.len() ==> #[trigger] av[k] == json_view(items@[k]),
            i <= items@.len(),
            out@.len() == i,
            (match records_from(av, i as int) {
                Option::None => records_from(av, 0) is None,
                Option::Some(rest) => records_from(av, 0) == Option::Some(
                    Seq::new(out@.len(), |k: int| out@[k]@) + rest,
                ),
            }),
        decreases items@.len() - i,
    {
        let ghost pre = Seq::new(out@.len(), |k: int| out@[k]@);
        let rec = match read_record(&items[i]) {
            Option::Some(p) => p,
            Option::None => {
                return Option::None;
            },
        };
        let ghost grec = rec@;
        out.push(rec);
        proof {
            assert(Seq::new(out@.len(), |k: int| out@[k]@) =~= pre + seq![grec]);
            match records_from(av, i + 1) {
                Option::None => {},
                Option::Some(rest) => {
                    assert(records_from(av, i as int) == Option::Some(seq![grec] + rest));
                    assert(pre + (seq![grec] + rest) =~= (pre + seq![grec]) + rest);
                },
            }
        }
        i = i + 1;
    }
    proof {
        assert(records_from(av, items@.len() as int) == Option::Some(Seq::<PluginInfoView>::empty()));
        assert(Seq::new(out@.len(), |k: int| out@[k]@) + Seq::<PluginInfoView>::empty() =~= Seq::new(
            out@.len(),
            |k: int| out@[k]@,
        ));
    }
    Option::Some(out)
}

/// What loading a registry document text yields, with the `plugins` member
/// indexed from the front.
pub open spec fn spec_parse_registry_doc(root: JsonNode) -> Option<RegistryDocView> {
    match root {
        JsonNode::Obj(ms) => {
            match obj_lookup(ms, "plugins"@) {
                Option::None => Option::Some(
                    RegistryDocView { plugins: Seq::empty(), others: sibling_members(ms) },
                ),
                Option::Some(JsonNode::Arr(items)) => match records_from(items, 0) {
                    Option::None => Option::None,
                    Option::Some(ps) => Option::Some(
                        RegistryDocView { plugins: ps, others: sibling_members(ms) },
                    ),
                },
                Option::Some(_) => Option::None,
            }
        },
        _ => Option::None,
    }
}

/// What loading a registry document text yields: the typed document, or
/// `None` when the text is not a JSON object with a well-shaped `plugins`
/// member — corrupt, and never silently discarded.
pub open spec fn spec_parse_registry(text: Seq<char>) -> Option<RegistryDocView> {
    match json_parse_spec(text) {
        Option::None => Option::None,
        Option::Some(root) => spec_parse_registry_doc(root),
    }
}

/// Load a registry document from its text.  `None` means the document is
/// corrupt: not JSON, not an object, or with an ill-shaped `plugins` member.
pub fn parse_registry(text: &str) -> (r: Option<RegistryDoc>)
    ensures
        match r {
            Option::Some(doc) => spec_parse_registry(text@) == Option::Some(doc@),
            Option::None => spec_parse_registry(text@) is None,
        },
{
    let root = match parse_json(text) {
        Option::Some(v) => v,
        Option::None => {
            return Option::None;
        },
    };
    let mut members: Vec<(String, JsonValue)> = match root {
        JsonValue::Obj(ms) => ms,
        _ => {
            return Option::None;
        },
    };
    let plugins: Vec<PluginInfo> = match members_get(&members, "plugins") {
        Option::None => Vec::new(),
        Option::Some(v) => match v {
            JsonValue::Arr(items) => match read_records(items) {
                Option::Some(ps) => ps,
                Option::None => {
                    return Option::None;
                },
            },
            _ => {
                return Option::None;
            },
        },
    };
    let ghost orig = obj_view(members@);
    let mut others: Vec<(String, JsonValue)> = Vec::new();
    proof {
        assert(json_view_members(others@) =~= Seq::<(Seq<char>, JsonNode)>::empty());
        assert(json_view_members(others@) + sibling_members(orig) =~= sibling_members(orig));
    }
    while members.len() > 0
        invariant
            sibling_members(orig) == json_view_members(others@) + sibling_members(
                obj_view(members@),
            ),
        decreases members@.len(),
    {
        let ghost mv = obj_view(members@);
        let ghost pre = members@;
        let pair = members.remove(0);
        let ghost gp = pair;
        proof {
            assert(members@ =~= pre.skip(1));
            assert(mv == seq![(gp.0@, json_view(gp.1))] + json_view_members(pre.skip(1)));
            assert(mv.skip(1) =~= json_view_members(members@));
            assert(mv[0] == (gp.0@, json_view(gp.1)));
        }
        if !str_eq(pair.0.as_str(), "plugins") {
            let ghost oth = others@;
            others.push(pair);
            proof {
                assert(others@ =~= oth + seq![gp]);
                lemma_json_view_members_concat(oth, seq![gp]);
                assert(seq![gp].skip(1) =~= Seq::<(String, JsonValue)>::empty());
                assert(json_view_members(Seq::<(String, JsonValue)>::empty())
                    =~= Seq::<(Seq<char>, JsonNode)>::empty());
                assert(json_view_members(seq![gp]) =~= seq![(gp.0@, json_view(gp.1))]);
                assert(sibling_members(mv) == seq![mv[0]] + sibling_members(mv.skip(1)));
                assert(json_view_members(others@) + sibling_members(json_view_members(members@))
                    =~= json_view_members(oth) + sibling_members(mv));
            }
        } else {
            proof {
                assert(sibling_members(mv) == sibling_members(mv.skip(1)));
            }
        }
    }
    proof {
        assert(obj_view(members@) =~= Seq::<(Seq<char>, JsonNode)>::empty());
        assert(sibling_members(obj_view(members@)) == Seq::<(Seq<char>, JsonNode)>::empty());
        assert(sibling_members(orig) =~= json_view_members(others@));
    }
    Option::Some(RegistryDoc { plugins, others })
}

/// The JSON object a stored asset declaration is written as.
pub open spec fn asset_json(a: AssetInfoView) -> JsonNode {
    JsonNode::Obj(
        seq![
            ("path"@, JsonNode::Str(a.path)),
            ("type"@, JsonNode::Str(a.mime_type)),
        ],
    )
}

/// The JSON array elements a record's assets are written as.
pub open spec fn assets_json(s: Seq<AssetInfoView>) -> Seq<JsonNode> {
    Seq::new(s.len(), |i: int| asset_json(s[i]))
}

/// The JSON object a record is written as.
pub open spec fn record_json(p: PluginInfoView) -> JsonNode {
    JsonNode::Obj(
        seq![
            ("id"@, JsonNode::Str(p.id)),
            ("name"@, JsonNode::Str(p.name)),
            ("author"@, JsonNode::Str(p.author)),
            ("version"@, JsonNode::Str(p.version)),
            ("entry"@, JsonNode::Str(p.entry)),
            ("assets"@, JsonNode::Arr(assets_json(p.assets))),
        ],
    )
}

/// The JSON document a registry document is written as: every sibling
/// member first, in its original order, then the `plugins` member.
pub open spec fn registry_json(d: RegistryDocView) -> JsonNode {
    JsonNode::Obj(
        d.others + seq![
            ("plugins"@, JsonNode::Arr(Seq::new(d.plugins.len(), |i: int| record_json(d.plugins[i])))),
        ],
    )
}

/// Build the JSON object for one record.
fn record_to_json(p: &PluginInfo) -> (r: JsonValue)
    ensures
        r@ == record_json(p@),
{
    let mut am: Vec<JsonValue> = Vec::new();
    let mut i: usize = 0;
    while i < p.assets.len()
        invariant
            i <= p.assets@.len(),
            am@.len() == i,
            forall|k: int| 0 <= k < i ==> (#[trigger] am@[k])@ == asset_json(p.assets@[k]@),
        decreases p.assets@.len() - i,
    {
        let mut m2: Vec<(String, JsonValue)> = Vec::new();
        m2.push((String::from_str("path"), JsonValue::Str(p.assets[i].path.clone())));
        m2.push((String::from_str("type"), JsonValue::Str(p.assets[i].mime_type.clone())));
        let a = JsonValue::Obj(m2);
        proof {
            lemma_json_view_members(a->Obj_0@);
            assert(obj_view(a->Obj_0@) =~= asset_json(p.assets@[i as int]@)->Obj_0);
        }
        am.push(a);
        i = i + 1;
    }
    let mut rm: Vec<(String, JsonValue)> = Vec::new();
    rm.push((String::from_str("id"), JsonValue::Str(p.id.clone())));
    rm.push((String::from_str("name"), JsonValue::Str(p.name.clone())));
    rm.push((String::from_str("author"), JsonValue::Str(p.author.clone())));
    rm.push((String::from_str("version"), JsonValue::Str(p.version.clone())));
    rm.push((String::from_str("entry"), JsonValue::Str(p.entry.clone())));
    rm.push((String::from_str("assets"), JsonValue::Arr(am)));
    let r = JsonValue::Obj(rm);
    proof {
        lemma_json_view_list(r->Obj_0@[5].1->Arr_0@);
        assert(json_view_list(r->Obj_0@[5].1->Arr_0@) =~= assets_json(p@.assets));
        lemma_json_view_members(r->Obj_0@);
        assert(obj_view(r->Obj_0@) =~= record_json(p@)->Obj_0);
    }
    r
}

/// Render a registry document as the host document's text: every unrelated
/// member carried through unaltered, then the `plugins` member.
pub fn save_registry(doc: &RegistryDoc) -> (r: String)
    ensures
        r@ == json_text(registry_json(doc@)),
{
    let mut members: Vec<(String, JsonValue)> = Vec::new();
    let mut i: usize = 0;
    while i < doc.others.len()
        invariant
            i <= doc.others@.len(),
            members@.len() == i,
            forall|k: int|
                0 <= k < i ==> (#[trigger] members@[k]).0@ == doc.others@[k].0@ && members@[k].1@
                    == doc.others@[k].1@,
        decreases doc.others@.len() - i,
    {
        let key = doc.others[i].0.clone();
        let val = crate::json::clone_json(&doc.others[i].1);
        members.push((key, val));
        i = i + 1;
    }
    let mut arr: Vec<JsonValue> = Vec::new();
    let mut j: usize = 0;
    while j < doc.plugins.len()
        invariant
            j <= doc.plugins@.len(),
            arr@.len() == j,
            forall|k: int| 0 <= k < j ==> (#[trigger] arr@[k])@ == record_json(doc.plugins@[k]@),
        decreases doc.plugins@.len() - j,
    {
        arr.push(record_to_json(&doc.plugins[j]));
        j = j + 1;
    }
    members.push((String::from_str("plugins"), JsonValue::Arr(arr)));
    let root = JsonValue::Obj(members);
    proof {
        lemma_json_view_list(root->Obj_0@[doc.others@.len() as int].1->Arr_0@);
        assert(json_view_list(root->Obj_0@[doc.others@.len() as int].1->Arr_0@) =~= Seq::new(
            doc@.plugins.len(),
            |i: int| record_json(doc@.plugins[i]),
        ));
        lemma_json_view_members(root->Obj_0@);
        lemma_json_view_members(doc.others@);
        assert(obj_view(root->Obj_0@) =~= registry_json(doc@)->Obj_0);
    }
    json_to_string(&root)
}

/// The element-wise view of a record list.
pub open spec fn infos_view(s: Seq<PluginInfo>) -> Seq<PluginInfoView> {
    Seq::new(s.len(), |i: int| s[i]@)
}

/// The element-wise view of a stored-archive list.
pub open spec fn archives_view(s: Seq<(String, Vec<u8>)>) -> Seq<(Seq<char>, Seq<u8>)> {
    Seq::new(s.len(), |i: int| (s[i].0@, s[i].1@))
}

/// The storage area for archives under a data directory.
pub open spec fn plugins_dir_of(data_dir: Seq<char>) -> Seq<char> {
    data_dir + "/plugins"@
}

/// The path of the plugins directory under a data directory.
pub fn plugins_dir(data_dir: &str) -> (r: String)
    ensures
        r@ == plugins_dir_of(data_dir@),
{
    let mut v = str_to_chars(data_dir);
    let mut suffix = str_to_chars("/plugins");
    v.append(&mut suffix);
    assert(v@ =~= plugins_dir_of(data_dir@));
    chars_to_string(&v)
}

/// The deterministic storage key for a `(name, version)` pair.
pub open spec fn storage_key_of(name: Seq<char>, version: Seq<char>) -> Seq<char> {
    name + seq!['-'] + version
}

/// Compose the deterministic storage key for a `(name, version)` pair.
pub fn storage_key(name: &str, version: &str) -> (r: String)
    ensures
        r@ == storage_key_of(name@, version@),
{
    let mut v = str_to_chars(name);
    v.push('-');
    let mut v2 = str_to_chars(version);
    v.append(&mut v2);
    assert(v@ =~= storage_key_of(name@, version@));
    chars_to_string(&v)
}

/// How many records satisfy `f`.
pub open spec fn count_where(ps: Seq<PluginInfoView>, f: spec_fn(PluginInfoView) -> bool) -> nat
    decreases ps.len(),
{
    if ps.len() == 0 {
        0
    } else {
        (if f(ps[0]) {
            1nat
        } else {
            0nat
        }) + count_where(ps.skip(1), f)
    }
}

/// The first index of a record satisfying `f`, or -1.
pub open spec fn first_where(ps: Seq<PluginInfoView>, f: spec_fn(PluginInfoView) -> bool) -> int
    decreases ps.len(),
{
    if ps.len() == 0 {
        -1
    } else if f(ps[0]) {
        0
    } else {
        let r = first_where(ps.skip(1), f);
        if r < 0 {
            -1
        } else {
            r + 1
        }
    }
}

/// Matching a record by its opaque identifier.
pub open spec fn id_pred(id: Seq<char>) -> spec_fn(PluginInfoView) -> bool {
    |p: PluginInfoView| p.id == id
}

/// Matching a record by name, and by version when one is given.
pub open spec fn name_pred(name: Seq<char>, version: Option<Seq<char>>) -> spec_fn(
    PluginInfoView,
) -> bool {
    |p: PluginInfoView|
        p.name == name && match version {
            Option::Some(v) => p.version == v,
            Option::None => true,
        }
}

/// Matching a record by its `(name, version)` pair.
pub open spec fn pair_pred(name: Seq<char>, version: Seq<char>) -> spec_fn(
    PluginInfoView,
) -> bool {
    |p: PluginInfoView| p.name == name && p.version == version
}

/// At most one record per `(name, version)` pair: the registry's
/// standing invariant.
pub open spec fn unique_pairs(ps: Seq<PluginInfoView>) -> bool {
    forall|n: Seq<char>, v: Seq<char>| #[trigger] count_where(ps, pair_pred(n, v)) <= 1
}

pub proof fn lemma_first_where(ps: Seq<PluginInfoView>, f: spec_fn(PluginInfoView) -> bool)
    ensures
        first_where(ps, f) == -1 ==> forall|i: int| 0 <= i < ps.len() ==> !f(#[trigger] ps[i]),
        first_where(ps, f) != -1 ==> {
            &&& 0 <= first_where(ps, f) < ps.len()
            &&& f(ps[first_where(ps, f)])
            &&& forall|i: int| 0 <= i < first_where(ps, f) ==> !f(#[trigger] ps[i])
        },
        (first_where(ps, f) == -1) <==> (count_where(ps, f) == 0),
    decreases ps.len(),
{
    if ps.len() > 0 && !f(ps[0]) {
        lemma_first_where(ps.skip(1), f);
        let r = first_where(ps.skip(1), f);
        assert forall|i: int| 0 <= i < ps.skip(1).len() implies ps.skip(1)[i] == ps[i + 1] by {}
        if r == -1 {
            assert forall|i: int| 0 <= i < ps.len() implies !f(#[trigger] ps[i]) by {
                if i > 0 {
                    assert(ps.skip(1)[i - 1] == ps[i]);
                }
            }
        } else {
            assert(ps.skip(1)[r] == ps[r + 1]);
            assert forall|i: int| 0 <= i < r + 1 implies !f(#[trigger] ps[i]) by {
                if i > 0 {
                    assert(ps.skip(1)[i - 1] == ps[i]);
                }
            }
        }
    }
}

/// `count_where` of a push adds the pushed record's contribution.
pub proof fn lemma_count_where_push(
    ps: Seq<PluginInfoView>,
    f: spec_fn(PluginInfoView) -> bool,
    x: PluginInfoView,
)
    ensures
        count_where(ps.push(x), f) == count_where(ps, f) + (if f(x) {
            1nat
        } else {
            0nat
        }),
    decreases ps.len(),
{
    if ps.len() == 0 {
        assert(ps.push(x)[0] == x);
        assert(ps.push(x).skip(1) =~= Seq::<PluginInfoView>::empty());
        assert(count_where(Seq::<PluginInfoView>::empty(), f) == 0);
        assert(count_where(ps, f) == 0);
        assert(count_where(ps.push(x), f) == (if f(x) {
            1nat
        } else {
            0nat
        }) + count_where(ps.push(x).skip(1), f));
    } else {
        assert(ps.push(x)[0] == ps[0]);
        assert(ps.push(x).skip(1) =~= ps.skip(1).push(x));
        lemma_count_where_push(ps.skip(1), f, x);
        assert(count_where(ps.push(x), f) == (if f(ps[0]) {
            1nat
        } else {
            0nat
        }) + count_where(ps.skip(1).push(x), f));
    }
}

/// The records with a given `(name, version)` pair taken out, order kept.
pub open spec fn without_pair(
    ps: Seq<PluginInfoView>,
    name: Seq<char>,
    version: Seq<char>,
) -> Seq<PluginInfoView>
    decreases ps.len(),
{
    if ps.len() == 0 {
        Seq::empty()
    } else {
        let rest = without_pair(ps.skip(1), name, version);
        if ps[0].name == name && ps[0].version == version {
            rest
        } else {
            seq![ps[0]] + rest
        }
    }
}

/// Taking a pair out empties its own count and leaves every other pair's
/// count unchanged.
pub proof fn lemma_without_pair_count(
    ps: Seq<PluginInfoView>,
    name: Seq<char>,
    version: Seq<char>,
    n: Seq<char>,
    v: Seq<char>,
)
    ensures
        count_where(without_pair(ps, name, version), pair_pred(n, v)) == (if n == name && v
            == version {
            0nat
        } else {
            count_where(ps, pair_pred(n, v))
        }),
    decreases ps.len(),
{
    if ps.len() > 0 {
        lemma_without_pair_count(ps.skip(1), name, version, n, v);
        let rest = without_pair(ps.skip(1), name, version);
        if !(ps[0].name == name && ps[0].version == version) {
            assert((seq![ps[0]] + rest)[0] == ps[0]);
            assert((seq![ps[0]] + rest).skip(1) =~= rest);
        }
    }
}

/// The first index holding an archive under `key`, or -1.
pub open spec fn archive_index(ar: Seq<(Seq<char>, Seq<u8>)>, key: Seq<char>) -> int
    decreases ar.len(),
{
    if ar.len() == 0 {
        -1
    } else if ar[0].0 == key {
        0
    } else {
        let r = archive_index(ar.skip(1), key);
        if r < 0 {
            -1
        } else {
            r + 1
        }
    }
}

/// The archive bytes stored under `key`, if any.
pub open spec fn archive_lookup(ar: Seq<(Seq<char>, Seq<u8>)>, key: Seq<char>) -> Option<Seq<u8>> {
    let i = archive_index(ar, key);
    if i < 0 {
        Option::None
    } else {
        Option::Some(ar[i].1)
    }
}

/// The store with `key` now holding `data`: replaced in place, or appended.
pub open spec fn set_archive(
    ar: Seq<(Seq<char>, Seq<u8>)>,
    key: Seq<char>,
    data: Seq<u8>,
) -> Seq<(Seq<char>, Seq<u8>)> {
    let i = archive_index(ar, key);
    if i < 0 {
        ar.push((key, data))
    } else {
        ar.update(i, (key, data))
    }
}

/// The store with the archive under `key` taken out; absence changes
/// nothing.
pub open spec fn drop_archive(ar: Seq<(Seq<char>, Seq<u8>)>, key: Seq<char>) -> Seq<
    (Seq<char>, Seq<u8>),
> {
    let i = archive_index(ar, key);
    if i < 0 {
        ar
    } else {
        ar.subrange(0, i) + ar.subrange(i + 1, ar.len() as int)
    }
}

/// The registry: the typed document plus the stored archives, addressed by
/// storage key.  This is the durable state the host persists after each
/// operation.
pub struct Registry {
    pub doc: RegistryDoc,
    pub archives: Vec<(String, Vec<u8>)>,
}

/// The mathematical value of a [`Registry`].
#[verifier::ext_equal]
pub struct RegistryView {
    pub doc: RegistryDocView,
    pub archives: Seq<(Seq<char>, Seq<u8>)>,
}

impl View for Registry {
    type V = RegistryView;

    open spec fn view(&self) -> RegistryView {
        RegistryView { doc: self.doc@, archives: archives_view(self.archives@) }
    }
}

/// Scan the records for matches of `f`, an executable check of `pred`.
/// Returns how many match and the first matching index.
fn scan_id(ps: &Vec<PluginInfo>, id: &str) -> (r: (usize, usize))
    ensures
        r.0 == count_where(infos_view(ps@), id_pred(id@)),
        r.0 > 0 ==> r.1 < ps@.len() && first_where(infos_view(ps@), id_pred(id@)) == r.1,
    decreases ps@.len(),
{
    let ghost pv = infos_view(ps@);
    let ghost f = id_pred(id@);
    let mut count: usize = 0;
    let mut first: usize = 0;
    let mut i: usize = 0;
    proof {
        assert(pv.skip(0) =~= pv);
    }
    while i < ps.len()
        invariant
            pv == infos_view(ps@),
            f == id_pred(id@),
            pv.len() == ps@.len(),
            i <= ps@.len(),
            count <= i,
            count_where(pv, f) == count + count_where(pv.skip(i as int), f),
            count > 0 ==> first < i && first_where(pv, f) == first,
            count == 0 ==> forall|k: int| 0 <= k < i ==> !f(#[trigger] pv[k]),
        decreases ps@.len() - i,
    {
        let ghost rest = pv.skip(i as int);
        proof {
            assert(rest[0] == pv[i as int]);
            assert(rest.skip(1) =~= pv.skip(i + 1));
        }
        let hit = str_eq(ps[i].id.as_str(), id);
        if hit {
            if count == 0 {
                first = i;
                proof {
                    lemma_first_where(pv, f);
                    if first_where(pv, f) != i {
                        if first_where(pv, f) == -1 {
                            assert(f(pv[i as int]));
                            assert(!f(pv[i as int]));
                        } else if first_where(pv, f) < i {
                            assert(!f(pv[first_where(pv, f)]));
                        } else {
                            assert(!f(pv[i as int]));
                        }
                    }
                }
            }
            count = count + 1;
        }
        i = i + 1;
    }
    proof {
        assert(pv.skip(ps@.len() as int) =~= Seq::<PluginInfoView>::empty());
        assert(count_where(Seq::<PluginInfoView>::empty(), f) == 0);
    }
    (count, first)
}

/// Scan the records for name (and optional version) matches.
fn scan_name(ps: &Vec<PluginInfo>, name: &str, version: Option<&String>) -> (r: (usize, usize))
    ensures
        r.0 == count_where(
            infos_view(ps@),
            name_pred(
                name@,
                match version {
                    Option::Some(v) => Option::Some(v@),
                    Option::None => Option::None,
                },
            ),
        ),
        r.0 > 0 ==> r.1 < ps@.len() && first_where(
            infos_view(ps@),
            name_pred(
                name@,
                match version {
                    Option::Some(v) => Option::Some(v@),
                    Option::None => Option::None,
                },
            ),
        ) == r.1,
{
    let ghost pv = infos_view(ps@);
    let ghost vo: Option<Seq<char>> = match version {
        Option::Some(v) => Option::Some(v@),
        Option::None => Option::None,
    };
    let ghost f = name_pred(name@, vo);
    let mut count: usize = 0;
    let mut first: usize = 0;
    let mut i: usize = 0;
    proof {
        assert(pv.skip(0) =~= pv);
    }
    while i < ps.len()
        invariant
            pv == infos_view(ps@),
            f == name_pred(name@, vo),
            vo == (match version {
                Option::Some(v) => Option::Some(v@),
                Option::None => Option::<Seq<char>>::None,
            }),
            pv.len() == ps@.len(),
            i <= ps@.len(),
            count <= i,
            count_where(pv, f) == count + count_where(pv.skip(i as int), f),
            count > 0 ==> first < i && first_where(pv, f) == first,
            count == 0 ==> forall|k: int| 0 <= k < i ==> !f(#[trigger] pv[k]),
        decreases ps@.len() - i,
    {
        let ghost rest = pv.skip(i as int);
        proof {
            assert(rest[0] == pv[i as int]);
            assert(rest.skip(1) =~= pv.skip(i + 1));
        }
        let name_hit = str_eq(ps[i].name.as_str(), name);
        let hit = name_hit && (match version {
            Option::Some(v) => str_eq(ps[i].version.as_str(), v.as_str()),
            Option::None => true,
        });
        proof {
            assert(pv[i as int] == ps@[i as int]@);
            assert(hit == f(pv[i as int]));
        }
        if hit {
            if count == 0 {
                first = i;
                proof {
                    lemma_first_where(pv, f);
                    if first_where(pv, f) != i {
                        if first_where(pv, f) == -1 {
                            assert(!f(pv[i as int]));
                        } else if first_where(pv, f) < i {
                            assert(!f(pv[first_where(pv, f)]));
                        } else {
                            assert(!f(pv[i as int]));
                        }
                    }
                }
            }
            count = count + 1;
        }
        i = i + 1;
    }
    proof {
        assert(pv.skip(ps@.len() as int) =~= Seq::<PluginInfoView>::empty());
        assert(count_where(Seq::<PluginInfoView>::empty(), f) == 0);
    }
    (count, first)
}

/// Why an installed package could not be removed.
#[derive(PartialEq, Eq, Structural, Clone, Copy, Debug)]
pub enum RemoveError {
    /// No record matches the identity.
    NotFound,
    /// More than one record matches: refused rather than guessed.
    Ambiguous,
}

/// The `name` part of a removal query: everything before the last `-` when
/// a dotted version follows it, else the whole query.
pub open spec fn remove_query_name(q: Seq<char>) -> Seq<char> {
    let i = crate::chars::rfind_char(q, '-');
    if 0 <= i < q.len() && crate::chars::find_char(q.skip(i + 1), '.') >= 0 {
        q.take(i)
    } else {
        q
    }
}

/// The `version` part of a removal query, when the query carries one.
pub open spec fn remove_query_version(q: Seq<char>) -> Option<Seq<char>> {
    let i = crate::chars::rfind_char(q, '-');
    if 0 <= i < q.len() && crate::chars::find_char(q.skip(i + 1), '.') >= 0 {
        Option::Some(q.skip(i + 1))
    } else {
        Option::None
    }
}

/// Which record a removal query selects: by opaque identifier first, then
/// by `name` or `name-version`; a query matching several records fails
/// rather than guessing.
pub open spec fn spec_remove_lookup(ps: Seq<PluginInfoView>, q: Seq<char>) -> Result<
    int,
    RemoveError,
> {
    let idc = count_where(ps, id_pred(q));
    if idc == 1 {
        Result::Ok(first_where(ps, id_pred(q)))
    } else if idc >= 2 {
        Result::Err(RemoveError::Ambiguous)
    } else {
        let f = name_pred(remove_query_name(q), remove_query_version(q));
        let mc = count_where(ps, f);
        if mc == 1 {
            Result::Ok(first_where(ps, f))
        } else if mc == 0 {
            Result::Err(RemoveError::NotFound)
        } else {
            Result::Err(RemoveError::Ambiguous)
        }
    }
}

/// Split a removal query into its name part and optional version part.
fn split_remove_query(q: &str) -> (r: (String, Option<String>))
    ensures
        r.0@ == remove_query_name(q@),
        match r.1 {
            Option::Some(v) => remove_query_version(q@) == Option::Some(v@),
            Option::None => remove_query_version(q@) is None,
        },
{
    let chars = str_to_chars(q);
    let mut j: usize = chars.len();
    while j > 0 && chars[j - 1] != '-'
        invariant
            chars@ == q@,
            j <= chars@.len(),
            forall|k: int| j <= k < chars@.len() ==> chars@[k] != '-',
        decreases j,
    {
        j = j - 1;
    }
    if j == 0 {
        proof {
            crate::chars::lemma_rfind_char_none(q@, '-');
        }
        return (String::from_str(q), Option::None);
    }
    let i = j - 1;
    proof {
        crate::chars::lemma_rfind_char_last(q@, '-', i as int);
    }
    let suffix = crate::chars::copy_range(&chars, i + 1, chars.len());
    let mut has_dot: bool = false;
    let mut k: usize = 0;
    while k < suffix.len()
        invariant
            suffix@ == q@.skip(i + 1),
            k <= suffix@.len(),
            has_dot ==> crate::chars::find_char(suffix@, '.') >= 0,
            !has_dot ==> forall|t: int| 0 <= t < k ==> suffix@[t] != '.',
        decreases suffix@.len() - k,
    {
        if suffix[k] == '.' {
            proof {
                crate::chars::lemma_find_char(suffix@, '.');
                if crate::chars::find_char(suffix@, '.') == -1 {
                    assert(suffix@[k as int] != '.');
                }
            }
            has_dot = true;
        }
        k = k + 1;
    }
    if has_dot {
        let name_part = crate::chars::copy_range(&chars, 0, i);
        (chars_to_string(&name_part), Option::Some(chars_to_string(&suffix)))
    } else {
        proof {
            crate::chars::lemma_find_char_none(suffix@, '.');
        }
        (String::from_str(q), Option::None)
    }
}

impl Registry {
    /// An empty registry: no records, no siblings, no stored archives.
    pub fn empty() -> (r: Registry)
        ensures
            r@.doc.plugins.len() == 0,
            r@.doc.others.len() == 0,
            r@.archives.len() == 0,
    {
        let r = Registry {
            doc: RegistryDoc { plugins: Vec::new(), others: Vec::new() },
            archives: Vec::new(),
        };
        proof {
            assert(r@.doc.plugins =~= Seq::<PluginInfoView>::empty());
        }
        r
    }

    /// Install a package: validate it, store its archive verbatim under the
    /// deterministic key, replace any record with the same `(name, version)`
    /// pair, and append the new record.  A failed validation changes
    /// nothing.
    pub fn install(&mut self, data: &[u8]) -> (r: Result<PluginInfo, crate::validate::ValidateError>)
        ensures
            match r {
                Result::Ok(info) => {
                    &&& crate::validate::spec_validate_core(data@) matches Result::Ok(m) && (
                    exists|ts: nat| info@ == crate::manifest::info_of(m, ts))
                    &&& final(self)@.doc.plugins == without_pair(
                        old(self)@.doc.plugins,
                        info@.name,
                        info@.version,
                    ).push(info@)
                    &&& final(self)@.doc.others == old(self)@.doc.others
                    &&& final(self)@.archives == set_archive(
                        old(self)@.archives,
                        storage_key_of(info@.name, info@.version),
                        data@,
                    )
                    &&& unique_pairs(old(self)@.doc.plugins) ==> unique_pairs(
                        final(self)@.doc.plugins,
                    )
                },
                Result::Err(e) => crate::validate::spec_validate_core(data@) == Result::<
                    crate::manifest::ManifestView,
                    crate::validate::ValidateErrorView,
                >::Err(e@) && final(self)@ == old(self)@,
            },
    {
        let info = match crate::validate::validate_plugin(data) {
            Result::Ok(i) => i,
            Result::Err(e) => {
                return Result::Err(e);
            },
        };
        let ghost oldps = infos_view(self.doc.plugins@);
        let ghost gname = info@.name;
        let ghost gversion = info@.version;
        let mut kept: Vec<PluginInfo> = Vec::new();
        let mut i: usize = 0;
        proof {
            assert(oldps.skip(0) =~= oldps);
            assert(infos_view(kept@) =~= Seq::<PluginInfoView>::empty());
            assert(without_pair(oldps, gname, gversion) =~= infos_view(kept@) + without_pair(
                oldps.skip(0),
                gname,
                gversion,
            ));
        }
        while i < self.doc.plugins.len()
            invariant
                oldps == infos_view(self.doc.plugins@),
                oldps.len() == self.doc.plugins@.len(),
                gname == info.name@,
                gversion == info.version@,
                i <= oldps.len(),
                without_pair(oldps, gname, gversion) == infos_view(kept@) + without_pair(
                    oldps.skip(i as int),
                    gname,
                    gversion,
                ),
            decreases oldps.len() - i,
        {
            let ghost rest = oldps.skip(i as int);
            proof {
                assert(rest.len() > 0);
                assert(rest[0] == oldps[i as int]);
                assert(rest.skip(1) =~= oldps.skip(i + 1));
                assert(oldps[i as int] == self.doc.plugins@[i as int]@);
            }
            let p = &self.doc.plugins[i];
            proof {
                assert(rest[0] == p@);
                assert(rest[0].name == p.name@ && rest[0].version == p.version@);
                assert(gname == info.name@ && gversion == info.version@);
            }
            let ghost gi = infos_view(kept@);
            if !(crate::chars::str_eq(p.name.as_str(), info.name.as_str()) && crate::chars::str_eq(
                p.version.as_str(),
                info.version.as_str(),
            )) {
                let d = p.duplicate();
                let ghost gd = d@;
                kept.push(d);
                proof {
                    assert(infos_view(kept@) =~= gi + seq![gd]);
                    assert(without_pair(rest, gname, gversion) == seq![gd] + without_pair(
                        rest.skip(1),
                        gname,
                        gversion,
                    ));
                    assert(infos_view(kept@) + without_pair(oldps.skip(i + 1), gname, gversion)
                        =~= gi + without_pair(rest, gname, gversion));
                }
            } else {
                proof {
                    assert(without_pair(rest, gname, gversion) == without_pair(
                        rest.skip(1),
                        gname,
                        gversion,
                    ));
                }
            }
            i = i + 1;
        }
        proof {
            assert(oldps.skip(oldps.len() as int) =~= Seq::<PluginInfoView>::empty());
            assert(without_pair(Seq::<PluginInfoView>::empty(), gname, gversion)
                =~= Seq::<PluginInfoView>::empty());
            assert(without_pair(oldps, gname, gversion) =~= infos_view(kept@));
        }
        let stored = info.duplicate();
        let ghost ginfo = info@;
        kept.push(stored);
        proof {
            assert(infos_view(kept@) =~= without_pair(oldps, gname, gversion).push(ginfo));
        }
        self.doc.plugins = kept;
        let key = storage_key(info.name.as_str(), info.version.as_str());
        let bytes = vstd::slice::slice_to_vec(data);
        let ghost oldar = archives_view(self.archives@);
        let ghost gkey = key@;
        let mut j: usize = 0;
        while j < self.archives.len() && !crate::chars::str_eq(
            self.archives[j].0.as_str(),
            key.as_str(),
        )
            invariant
                oldar == archives_view(self.archives@),
                gkey == key@,
                oldar.len() == self.archives@.len(),
                j <= oldar.len(),
                forall|k: int| 0 <= k < j ==> (#[trigger] oldar[k]).0 != gkey,
            decreases oldar.len() - j,
        {
            j = j + 1;
        }
        if j < self.archives.len() {
            proof {
                lemma_archive_index(oldar, gkey);
                assert(oldar[j as int].0 == gkey);
                if archive_index(oldar, gkey) != j {
                    if archive_index(oldar, gkey) == -1 {
                        assert(oldar[j as int].0 != gkey);
                    } else if archive_index(oldar, gkey) < j {
                        assert(oldar[archive_index(oldar, gkey)].0 != gkey);
                    } else {
                        assert(oldar[j as int].0 != gkey);
                    }
                }
            }
            self.archives[j] = (key, bytes);
            proof {
                assert(archives_view(self.archives@) =~= set_archive(oldar, gkey, data@));
            }
        } else {
            proof {
                lemma_archive_index(oldar, gkey);
                if archive_index(oldar, gkey) >= 0 {
                    assert(oldar[archive_index(oldar, gkey)].0 != gkey);
                }
            }
            self.archives.push((key, bytes));
            proof {
                assert(archives_view(self.archives@) =~= set_archive(oldar, gkey, data@));
            }
        }
        proof {
            if unique_pairs(oldps) {
                assert forall|n: Seq<char>, v: Seq<char>| #[trigger] count_where(
                    self@.doc.plugins,
                    pair_pred(n, v),
                ) <= 1 by {
                    lemma_without_pair_count(oldps, gname, gversion, n, v);
                    lemma_count_where_push(
                        without_pair(oldps, gname, gversion),
                        pair_pred(n, v),
                        ginfo,
                    );
                    assert(count_where(oldps, pair_pred(n, v)) <= 1);
                }
            }
        }
        Result::Ok(info)
    }

    /// Remove an installed package: resolve the identity to exactly one
    /// record (opaque identifier first, `name` or `name-version` as a
    /// fallback), take the record out, and delete its stored archive;
    /// a missing archive is not an error.
    pub fn remove(&mut self, query: &str) -> (r: Result<PluginInfo, RemoveError>)
        ensures
            match r {
                Result::Ok(removed) => {
                    &&& spec_remove_lookup(old(self)@.doc.plugins, query@) matches Result::Ok(idx)
                        && removed@ == old(self)@.doc.plugins[idx] && final(self)@.doc.plugins
                        == old(self)@.doc.plugins.subrange(0, idx) + old(
                        self,
                    )@.doc.plugins.subrange(idx + 1, old(self)@.doc.plugins.len() as int)
                    &&& final(self)@.doc.others == old(self)@.doc.others
                    &&& final(self)@.archives == drop_archive(
                        old(self)@.archives,
                        storage_key_of(removed@.name, removed@.version),
                    )
                    &&& count_where(final(self)@.doc.plugins, id_pred(query@)) == 0
                    &&& unique_pairs(old(self)@.doc.plugins) ==> unique_pairs(
                        final(self)@.doc.plugins,
                    )
                },
                Result::Err(e) => spec_remove_lookup(old(self)@.doc.plugins, query@) == Result::<
                    int,
                    RemoveError,
                >::Err(e) && final(self)@ == old(self)@,
            },
    {
        let ghost ps0 = infos_view(self.doc.plugins@);
        let (idc, idfirst) = scan_id(&self.doc.plugins, query);
        let ghost idf = id_pred(query@);
        let mut idx: usize = 0;
        if idc == 1 {
            idx = idfirst;
        } else if idc >= 2 {
            return Result::Err(RemoveError::Ambiguous);
        } else {
            let (nm, vo) = split_remove_query(query);
            let vref: Option<&String> = match &vo {
                Option::Some(v) => Option::Some(v),
                Option::None => Option::None,
            };
            let (mc, mfirst) = scan_name(&self.doc.plugins, nm.as_str(), vref);
            if mc == 1 {
                idx = mfirst;
            } else if mc == 0 {
                return Result::Err(RemoveError::NotFound);
            } else {
                return Result::Err(RemoveError::Ambiguous);
            }
        }
        proof {
            assert(spec_remove_lookup(ps0, query@) == Result::<int, RemoveError>::Ok(idx as int));
        }
        let removed = self.doc.plugins.remove(idx);
        let ghost grm = removed@;
        proof {
            assert(infos_view(self.doc.plugins@) =~= ps0.subrange(0, idx as int) + ps0.subrange(
                idx + 1,
                ps0.len() as int,
            ));
            assert(grm == ps0[idx as int]);
        }
        let key = storage_key(removed.name.as_str(), removed.version.as_str());
        let ghost oldar = archives_view(self.archives@);
        let ghost gkey = key@;
        let mut j: usize = 0;
        while j < self.archives.len() && !crate::chars::str_eq(
            self.archives[j].0.as_str(),
            key.as_str(),
        )
            invariant
                oldar == archives_view(self.archives@),
                gkey == key@,
                oldar.len() == self.archives@.len(),
                j <= oldar.len(),
                forall|k: int| 0 <= k < j ==> (#[trigger] oldar[k]).0 != gkey,
            decreases oldar.len() - j,
        {
            j = j + 1;
        }
        if j < self.archives.len() {
            proof {
                lemma_archive_index(oldar, gkey);
                assert(oldar[j as int].0 == gkey);
                if archive_index(oldar, gkey) != j {
                    if archive_index(oldar, gkey) == -1 {
                        assert(oldar[j as int].0 != gkey);
                    } else if archive_index(oldar, gkey) < j {
                        assert(oldar[archive_index(oldar, gkey)].0 != gkey);
                    } else {
                        assert(oldar[j as int].0 != gkey);
                    }
                }
            }
            let dropped = self.archives.remove(j);
            proof {
                assert(archives_view(self.archives@) =~= drop_archive(oldar, gkey));
            }
        } else {
            proof {
                lemma_archive_index(oldar, gkey);
                if archive_index(oldar, gkey) >= 0 {
                    assert(oldar[archive_index(oldar, gkey)].0 != gkey);
                }
                assert(archives_view(self.archives@) =~= drop_archive(oldar, gkey));
            }
        }
        proof {
            let now = infos_view(self.doc.plugins@);
            let a = ps0.subrange(0, idx as int);
            let b = ps0.subrange(idx + 1, ps0.len() as int);
            assert(now =~= a + b);
            lemma_count_where_concat(a, b, idf);
            lemma_subrange_counts(ps0, idx as int, idf);
            assert(count_where(ps0, idf) == idc);
            if idc == 1 {
                lemma_first_where(ps0, idf);
            }
            assert(count_where(now, idf) == 0);
            if unique_pairs(ps0) {
                assert forall|n: Seq<char>, v: Seq<char>| #[trigger] count_where(
                    now,
                    pair_pred(n, v),
                ) <= 1 by {
                    lemma_count_where_concat(a, b, pair_pred(n, v));
                    lemma_subrange_counts(ps0, idx as int, pair_pred(n, v));
                    assert(count_where(ps0, pair_pred(n, v)) <= 1);
                }
            }
        }
        Result::Ok(removed)
    }

    /// Every installed record's projection, in order.
    pub fn list(&self) -> (r: Vec<PluginInfo>)
        ensures
            r@.len() == self@.doc.plugins.len(),
            forall|k: int| 0 <= k < r@.len() ==> (#[trigger] r@[k])@ == self@.doc.plugins[k],
    {
        let mut r: Vec<PluginInfo> = Vec::new();
        let mut i: usize = 0;
        while i < self.doc.plugins.len()
            invariant
                i <= self.doc.plugins@.len(),
                r@.len() == i,
                forall|k: int| 0 <= k < i ==> (#[trigger] r@[k])@ == self.doc.plugins@[k]@,
            decreases self.doc.plugins@.len() - i,
        {
            r.push(self.doc.plugins[i].duplicate());
            i = i + 1;
        }
        r
    }

    /// Serve file `path` of the installed package `identity`.
    /// The identity must select exactly one record, the path is checked for
    /// safety before any storage access, and the stored archive's own
    /// manifest is re-derived as the allow-list.
    pub fn resolve(&self, identity: &str, path: &str) -> (r: Result<
        (Vec<u8>, String),
        crate::resolver::PluginFileError,
    >)
        ensures
            match r {
                Result::Ok(p) => spec_registry_resolve(self@, identity@, path@) == Result::<
                    (Seq<u8>, Seq<char>),
                    crate::resolver::PluginFileErrorView,
                >::Ok((p.0@, p.1@)),
                Result::Err(e) => spec_registry_resolve(self@, identity@, path@) == Result::<
                    (Seq<u8>, Seq<char>),
                    crate::resolver::PluginFileErrorView,
                >::Err(e@),
            },
    {
        if identity.is_empty() || path.is_empty() {
            return Result::Err(
                crate::resolver::PluginFileError::NotFound(String::from_str("Not found")),
            );
        }
        if !crate::paths::is_safe_path(path) {
            return Result::Err(
                crate::resolver::PluginFileError::Forbidden(String::from_str("Forbidden")),
            );
        }
        let (c, fidx) = scan_id(&self.doc.plugins, identity);
        if c != 1 {
            return Result::Err(
                crate::resolver::PluginFileError::NotFound(String::from_str("Plugin not found")),
            );
        }
        let rec = &self.doc.plugins[fidx];
        let key = storage_key(rec.name.as_str(), rec.version.as_str());
        let ghost ar = archives_view(self.archives@);
        let ghost gkey = key@;
        let mut j: usize = 0;
        while j < self.archives.len() && !crate::chars::str_eq(
            self.archives[j].0.as_str(),
            key.as_str(),
        )
            invariant
                ar == archives_view(self.archives@),
                gkey == key@,
                ar.len() == self.archives@.len(),
                j <= ar.len(),
                forall|k: int| 0 <= k < j ==> (#[trigger] ar[k]).0 != gkey,
            decreases ar.len() - j,
        {
            j = j + 1;
        }
        if j >= self.archives.len() {
            proof {
                lemma_archive_index(ar, gkey);
                if archive_index(ar, gkey) >= 0 {
                    assert(ar[archive_index(ar, gkey)].0 != gkey);
                }
            }
            return Result::Err(
                crate::resolver::PluginFileError::NotFound(String::from_str("Plugin not found")),
            );
        }
        proof {
            lemma_archive_index(ar, gkey);
            assert(ar[j as int].0 == gkey);
            if archive_index(ar, gkey) != j {
                if archive_index(ar, gkey) == -1 {
                    assert(ar[j as int].0 != gkey);
                } else if archive_index(ar, gkey) < j {
                    assert(ar[archive_index(ar, gkey)].0 != gkey);
                } else {
                    assert(ar[j as int].0 != gkey);
                }
            }
            assert(archive_lookup(ar, gkey) == Option::Some(ar[j as int].1));
        }
        crate::resolver::resolve_plugin_file(self.archives[j].1.as_slice(), path)
    }
}

/// The outcome of serving file `path` of the installed package `identity`
/// out of a registry value: the resolver's steps in order — emptiness, path
/// safety before any storage access, identity to storage key, then the
/// stored archive's own manifest as the allow-list.
pub open spec fn spec_registry_resolve(reg: RegistryView, id: Seq<char>, path: Seq<char>) -> Result<
    (Seq<u8>, Seq<char>),
    crate::resolver::PluginFileErrorView,
> {
    if id.len() == 0 || path.len() == 0 {
        Result::Err(crate::resolver::PluginFileErrorView::NotFound("Not found"@))
    } else if !crate::paths::safe_path(path) {
        Result::Err(crate::resolver::PluginFileErrorView::Forbidden("Forbidden"@))
    } else if count_where(reg.doc.plugins, id_pred(id)) != 1 {
        Result::Err(crate::resolver::PluginFileErrorView::NotFound("Plugin not found"@))
    } else {
        let rec = reg.doc.plugins[first_where(reg.doc.plugins, id_pred(id))];
        match archive_lookup(reg.archives, storage_key_of(rec.name, rec.version)) {
            Option::None => Result::Err(
                crate::resolver::PluginFileErrorView::NotFound("Plugin not found"@),
            ),
            Option::Some(bytes) => crate::resolver::spec_resolve_file(bytes, path),
        }
    }
}

/// `count_where` distributes over concatenation.
pub proof fn lemma_count_where_concat(
    a: Seq<PluginInfoView>,
    b: Seq<PluginInfoView>,
    f: spec_fn(PluginInfoView) -> bool,
)
    ensures
        count_where(a + b, f) == count_where(a, f) + count_where(b, f),
    decreases a.len(),
{
    if a.len() == 0 {
        assert(a + b =~= b);
    } else {
        assert((a + b)[0] == a[0]);
        assert((a + b).skip(1) =~= a.skip(1) + b);
        lemma_count_where_concat(a.skip(1), b, f);
    }
}

/// A sequence's count is its two sides' counts plus the middle element's
/// contribution.
pub proof fn lemma_subrange_counts(
    ps: Seq<PluginInfoView>,
    idx: int,
    f: spec_fn(PluginInfoView) -> bool,
)
    requires
        0 <= idx < ps.len(),
    ensures
        count_where(ps, f) == count_where(ps.subrange(0, idx), f) + (if f(ps[idx]) {
            1nat
        } else {
            0nat
        }) + count_where(ps.subrange(idx + 1, ps.len() as int), f),
{
    let a = ps.subrange(0, idx);
    let b = ps.subrange(idx, ps.len() as int);
    assert(ps =~= a + b);
    lemma_count_where_concat(a, b, f);
    assert(b[0] == ps[idx]);
    assert(b.skip(1) =~= ps.subrange(idx + 1, ps.len() as int));
}

pub proof fn lemma_archive_index(ar: Seq<(Seq<char>, Seq<u8>)>, key: Seq<char>)
    ensures
        archive_index(ar, key) == -1 ==> forall|i: int|
            0 <= i < ar.len() ==> (#[trigger] ar[i]).0 != key,
        archive_index(ar, key) != -1 ==> {
            &&& 0 <= archive_index(ar, key) < ar.len()
            &&& ar[archive_index(ar, key)].0 == key
            &&& forall|i: int| 0 <= i < archive_index(ar, key) ==> (#[trigger] ar[i]).0 != key
        },
    decreases ar.len(),
{
    if ar.len() > 0 && ar[0].0 != key {
        lemma_archive_index(ar.skip(1), key);
        let r = archive_index(ar.skip(1), key);
        if r == -1 {
            assert forall|i: int| 0 <= i < ar.len() implies (#[trigger] ar[i]).0 != key by {
                if i > 0 {
                    assert(ar.skip(1)[i - 1] == ar[i]);
                }
            }
        } else {
            assert(ar.skip(1)[r] == ar[r + 1]);
            assert forall|i: int| 0 <= i < r + 1 implies (#[trigger] ar[i]).0 != key by {
                if i > 0 {
                    assert(ar.skip(1)[i - 1] == ar[i]);
                }
            }
        }
    }
}

} // verus!
