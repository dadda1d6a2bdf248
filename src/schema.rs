//! Resource schema metadata: what a schema document says of one resource
//! type, and the lookup of a type in a bundle of such documents.
//!
//! Reading the bundle and decoding its JSON documents is left to the caller,
//! which hands over the decoded fields as plain values.
use vstd::prelude::*;
use crate::text::{chars_of, ends_with, has_suffix, same_text, starts_with, string_of};

verus! {

/// The operations of a resource that need permissions.
#[derive(Clone, Copy, Debug, PartialEq, Eq, Hash, Structural)]
pub enum Handler {
    Create,
    Read,
    Update,
    Delete,
}

impl Handler {
    /// The handler's name, capitalised.
    pub fn name(&self) -> (r: &'static str)
        ensures
            r@ == handler_name(*self),
    {
        match self {
            Handler::Create => "Create",
            Handler::Read => "Read",
            Handler::Update => "Update",
            Handler::Delete => "Delete",
        }
    }
}

pub open spec fn handler_name(h: Handler) -> Seq<char> {
    match h {
        Handler::Create => "Create"@,
        Handler::Read => "Read"@,
        Handler::Update => "Update"@,
        Handler::Delete => "Delete"@,
    }
}

/// One entry of a schema document's `handlers`: its key, and the string
/// items of its `permissions` list where it has one (`None` for an item that
/// is not a string).
#[derive(Clone, Debug, PartialEq, Eq)]
pub struct HandlerEntry {
    pub name: String,
    pub permissions: Option<Vec<Option<String>>>,
}

/// The fields of one resource schema document.
#[derive(Clone, Debug, PartialEq, Eq)]
pub struct SchemaDocument {
    pub resource_type: String,
    pub description: Option<String>,
    pub handlers: Option<Vec<HandlerEntry>>,
    pub create_only_properties: Option<Vec<String>>,
    pub primary_identifier: Option<Vec<String>>,
    pub read_only_properties: Option<Vec<String>>,
    pub write_only_properties: Option<Vec<String>>,
}

/// What the index needs to know of a resource type.
#[derive(Clone, Debug, PartialEq, Eq)]
pub struct ResourceInfo {
    pub resource_type: String,
    pub description: Option<String>,
    /// The permissions of each handler, at most one entry per handler.
    pub handler_permissions: Vec<(Handler, Option<Vec<String>>)>,
    pub create_only_properties: Vec<String>,
    pub primary_identifier: String,
    pub read_only_properties: Vec<String>,
    pub write_only_properties: Vec<String>,
}

/// A resource type and its description, as offered for completion.
#[derive(Clone, Debug, PartialEq, Eq)]
pub struct Resource {
    pub resource_type: String,
    pub description: Option<String>,
}

/// The pointer prefix that property names carry in schema documents.
pub open spec fn properties_prefix() -> Seq<char> {
    seq!['/', 'p', 'r', 'o', 'p', 'e', 'r', 't', 'i', 'e', 's', '/']
}

/// `s` with its leading `/properties/` taken off, where it has one.
pub open spec fn stripped(s: Seq<char>) -> Seq<char> {
    if starts_with(s, properties_prefix()) {
        s.subrange(12, s.len() as int)
    } else {
        s
    }
}

fn prefix_at(chars: &Vec<char>, i: usize) -> (r: bool)
    requires
        i <= chars@.len(),
    ensures
        r == starts_with(chars@.subrange(i as int, chars@.len() as int), properties_prefix()),
{
    let ghost rest = chars@.subrange(i as int, chars@.len() as int);
    let p = ['/', 'p', 'r', 'o', 'p', 'e', 'r', 't', 'i', 'e', 's', '/'];
    let n = chars.len();
    if n - i < 12 {
        return false;
    }
    let mut k: usize = 0;
    while k < 12
        invariant
            n == chars@.len(),
            i + 12 <= n,
            k <= 12,
            rest == chars@.subrange(i as int, chars@.len() as int),
            p@ == properties_prefix(),
            forall|j: int| 0 <= j < k ==> rest[j] == p@[j],
        decreases 12 - k,
    {
        if chars[i + k] != p[k] {
            assert(rest.subrange(0, 12)[k as int] != properties_prefix()[k as int]);
            return false;
        }
        k = k + 1;
    }
    assert(rest.subrange(0, 12) =~= properties_prefix());
    true
}

/// `s` with its leading `/properties/` taken off, where it has one.
pub fn strip_properties_prefix(s: String) -> (r: String)
    ensures
        r@ == stripped(s@),
{
    let chars = chars_of(s.as_str());
    if prefix_at(&chars, 0) {
        assert(chars@.subrange(0, chars@.len() as int) =~= chars@);
        s.as_str().substring_char(12, chars.len()).to_owned()
    } else {
        assert(chars@.subrange(0, chars@.len() as int) =~= chars@);
        s
    }
}

pub open spec fn strings_view(v: Seq<String>) -> Seq<Seq<char>> {
    v.map_values(|s: String| s@)
}

/// The items of an optional list, none where it is absent.
pub open spec fn or_empty(v: Option<Vec<String>>) -> Seq<Seq<char>> {
    match v {
        Some(v) => strings_view(v@),
        None => seq![],
    }
}

/// Each item with its leading `/properties/` taken off.
pub open spec fn all_stripped(v: Seq<Seq<char>>) -> Seq<Seq<char>> {
    v.map_values(|s: Seq<char>| stripped(s))
}

/// The items joined with `|` between them.
pub open spec fn joined(v: Seq<Seq<char>>) -> Seq<char>
    decreases v.len(),
{
    if v.len() == 0 {
        seq![]
    } else if v.len() == 1 {
        v[0]
    } else {
        joined(v.drop_last()) + seq!['|'] + v.last()
    }
}

/// The handler that a `handlers` key names.
pub open spec fn handler_by_key(key: Seq<char>) -> Option<Handler> {
    if key == "create"@ {
        Some(Handler::Create)
    } else if key == "read"@ {
        Some(Handler::Read)
    } else if key == "update"@ {
        Some(Handler::Update)
    } else if key == "delete"@ {
        Some(Handler::Delete)
    } else {
        None
    }
}

/// The items that are strings.
pub open spec fn string_items(v: Seq<Option<String>>) -> Seq<Seq<char>>
    decreases v.len(),
{
    if v.len() == 0 {
        seq![]
    } else {
        string_items(v.drop_last()) + match v.last() {
            Some(s) => seq![s@],
            None => seq![],
        }
    }
}

/// The permissions that the entries give handler `h`: those of the last
/// entry for `h` that has a `permissions` list.
pub open spec fn granted(entries: Seq<HandlerEntry>, h: Handler) -> Option<Seq<Seq<char>>>
    decreases entries.len(),
{
    if entries.len() == 0 {
        None
    } else if handler_by_key(entries.last().name@) == Some(h) && entries.last().permissions is Some {
        Some(string_items(entries.last().permissions->0@))
    } else {
        granted(entries.drop_last(), h)
    }
}

/// `table` maps each handler that `entries` grant permissions to, and no
/// other, to those permissions, once.
pub open spec fn is_permission_table(table: Seq<(Handler, Option<Vec<String>>)>, entries: Seq<HandlerEntry>) -> bool {
    &&& forall|i: int, j: int| 0 <= i < j < table.len() ==> table[i].0 != table[j].0
    &&& forall|i: int|
        0 <= i < table.len() ==> (#[trigger] table[i]).1 is Some && granted(entries, table[i].0) == Some(
            strings_view(table[i].1->0@),
        )
    &&& forall|h: Handler| granted(entries, h) is Some ==> exists|i: int| 0 <= i < table.len() && (#[trigger] table[i]).0 == h
}

/// The handlers of a document, none where it has no `handlers`.
pub open spec fn entries_of(doc: SchemaDocument) -> Seq<HandlerEntry> {
    match doc.handlers {
        Some(v) => v@,
        None => seq![],
    }
}

/// `r` holds what `doc` says of its resource type.
pub open spec fn describes(r: ResourceInfo, doc: SchemaDocument) -> bool {
    &&& r.resource_type@ == doc.resource_type@
    &&& r.description == doc.description
    &&& strings_view(r.create_only_properties@) == all_stripped(or_empty(doc.create_only_properties))
    &&& strings_view(r.read_only_properties@) == all_stripped(or_empty(doc.read_only_properties))
    &&& strings_view(r.write_only_properties@) == all_stripped(or_empty(doc.write_only_properties))
    &&& r.primary_identifier@ == joined(all_stripped(or_empty(doc.primary_identifier)))
    &&& is_permission_table(r.handler_permissions@, entries_of(doc))
}

/// Each item of `v`, or none, with its leading `/properties/` taken off.
fn strip_all(v: Option<Vec<String>>) -> (r: Vec<String>)
    ensures
        strings_view(r@) == all_stripped(or_empty(v)),
{
    let mut out: Vec<String> = Vec::new();
    let items = match v {
        Some(items) => items,
        None => {
            assert(strings_view(out@) =~= all_stripped(or_empty(v)));
            return out;
        },
    };
    let ghost all = all_stripped(strings_view(items@));
    let mut i: usize = 0;
    while i < items.len()
        invariant
            i <= items@.len(),
            all == all_stripped(strings_view(items@)),
            strings_view(out@) == all.take(i as int),
        decreases items.len() - i,
    {
        let s = strip_properties_prefix(items[i].clone());
        let ghost prev = out@;
        out.push(s);
        assert(strings_view(out@) =~= strings_view(prev).push(all[i as int]));
        assert(all.take(i + 1) =~= all.take(i as int).push(all[i as int]));
        i = i + 1;
    }
    assert(all.take(items@.len() as int) =~= all);
    out
}

/// The items of `v` joined with `|` between them.
fn join_bar(v: &Vec<String>) -> (r: String)
    ensures
        r@ == joined(strings_view(v@)),
{
    let ghost sv = strings_view(v@);
    let mut out: Vec<char> = Vec::new();
    let mut i: usize = 0;
    while i < v.len()
        invariant
            i <= v@.len(),
            sv == strings_view(v@),
            out@ == joined(sv.take(i as int)),
        decreases v.len() - i,
    {
        let item = chars_of(v[i].as_str());
        if i > 0 {
            out.push('|');
        }
        let ghost before = out@;
        let mut k: usize = 0;
        while k < item.len()
            invariant
                k <= item@.len(),
                out@ == before + item@.take(k as int),
            decreases item.len() - k,
        {
            out.push(item[k]);
            assert(item@.take(k + 1) =~= item@.take(k as int).push(item@[k as int]));
            k = k + 1;
        }
        assert(item@.take(item@.len() as int) =~= item@);
        assert(sv.take(i + 1).drop_last() =~= sv.take(i as int));
        assert(sv.take(i + 1).last() == item@);
        if i == 0 {
            assert(sv.take(1) =~= seq![item@]);
            assert(out@ =~= item@);
        } else {
            assert(out@ =~= joined(sv.take(i as int)) + seq!['|'] + item@);
        }
        i = i + 1;
    }
    assert(sv.take(v@.len() as int) =~= sv);
    string_of(&out)
}

/// The handler that a `handlers` key names.
fn handler_for(key: &str) -> (r: Option<Handler>)
    ensures
        r == handler_by_key(key@),
{
    if same_text(key, "create") {
        Some(Handler::Create)
    } else if same_text(key, "read") {
        Some(Handler::Read)
    } else if same_text(key, "update") {
        Some(Handler::Update)
    } else if same_text(key, "delete") {
        Some(Handler::Delete)
    } else {
        None
    }
}

/// The items of `v` that are strings.
fn strings_in(v: &Vec<Option<String>>) -> (r: Vec<String>)
    ensures
        strings_view(r@) == string_items(v@),
{
    let mut out: Vec<String> = Vec::new();
    let mut i: usize = 0;
    while i < v.len()
        invariant
            i <= v@.len(),
            strings_view(out@) == string_items(v@.take(i as int)),
        decreases v.len() - i,
    {
        let ghost prev = out@;
        assert(v@.take(i + 1).drop_last() =~= v@.take(i as int));
        match &v[i] {
            Some(s) => {
                out.push(s.clone());
                assert(strings_view(out@) =~= strings_view(prev) + seq![s@]);
            },
            None => {
                assert(strings_view(out@) =~= strings_view(prev) + seq![]);
            },
        }
        i = i + 1;
    }
    assert(v@.take(v@.len() as int) =~= v@);
    out
}

/// The permission table of a document's handlers.
fn permission_table(handlers: &Option<Vec<HandlerEntry>>) -> (r: Vec<(Handler, Option<Vec<String>>)>)
    ensures
        is_permission_table(r@, match handlers {
            Some(v) => v@,
            None => seq![],
        }),
{
    let mut table: Vec<(Handler, Option<Vec<String>>)> = Vec::new();
    let entries = match handlers {
        Some(v) => v,
        None => return table,
    };
    let mut i: usize = 0;
    while i < entries.len()
        invariant
            i <= entries@.len(),
            is_permission_table(table@, entries@.take(i as int)),
        decreases entries.len() - i,
    {
        let e = &entries[i];
        let ghost pre = entries@.take(i as int);
        let ghost post = entries@.take(i + 1);
        assert(post.drop_last() =~= pre);
        assert(post.last() == *e);
        let h = handler_for(e.name.as_str());
        match (h, &e.permissions) {
            (Some(h), Some(items)) => {
                let perms = strings_in(items);
                let mut j: usize = 0;
                while j < table.len() && table[j].0 != h
                    invariant
                        j <= table@.len(),
                        forall|k: int| 0 <= k < j ==> table@[k].0 != h,
                    decreases table.len() - j,
                {
                    j = j + 1;
                }
                let ghost old_table = table@;
                if j < table.len() {
                    table.set(j, (h, Some(perms)));
                } else {
                    table.push((h, Some(perms)));
                }
                assert forall|g: Handler| granted(post, g) is Some implies exists|k: int|
                    0 <= k < table@.len() && (#[trigger] table@[k]).0 == g by {
                    if g == h {
                        assert(table@[j as int].0 == g);
                    } else {
                        assert(granted(post, g) == granted(pre, g));
                        assert(granted(pre, g) is Some);
                        let k = choose|k: int| 0 <= k < old_table.len() && (#[trigger] old_table[k]).0 == g;
                        assert(j < old_table.len() ==> old_table[j as int].0 == h);
                        assert(table@[k] == old_table[k]);
                        assert(table@[k].0 == g);
                    }
                }
                assert forall|k: int| 0 <= k < table@.len() implies (#[trigger] table@[k]).1 is Some && granted(
                    post,
                    table@[k].0,
                ) == Some(strings_view(table@[k].1->0@)) by {
                    if k != j {
                        assert(table@[k] == old_table[k]);
                    }
                }
            },
            _ => {
                assert forall|g: Handler| granted(post, g) == granted(pre, g) by {}
            },
        }
        i = i + 1;
    }
    assert(entries@.take(entries@.len() as int) =~= entries@);
    table
}

/// What a schema document says of its resource type: its name, description
/// and permissions, its property lists with their leading `/properties/` taken off, and its
/// primary identifier's properties joined with `|`.
pub fn resource_info_from_schema(doc: &SchemaDocument) -> (r: ResourceInfo)
    ensures
        describes(r, *doc),
{
    let handler_permissions = permission_table(&doc.handlers);
    let primary = strip_all(doc.primary_identifier.clone());
    ResourceInfo {
        resource_type: doc.resource_type.clone(),
        description: doc.description.clone(),
        handler_permissions,
        create_only_properties: strip_all(doc.create_only_properties.clone()),
        primary_identifier: join_bar(&primary),
        read_only_properties: strip_all(doc.read_only_properties.clone()),
        write_only_properties: strip_all(doc.write_only_properties.clone()),
    }
}

/// One document of a schema bundle: its file name, and its fields where it
/// could be decoded.
#[derive(Clone, Debug, PartialEq, Eq)]
pub struct SchemaFile {
    pub name: String,
    pub document: Option<SchemaDocument>,
}

/// The schema documents of all resource types, read once and handed to the
/// lookups that need them.
#[derive(Clone, Debug, PartialEq, Eq)]
pub struct SchemaBundle {
    pub files: Vec<SchemaFile>,
}

/// Why a resource type's schema could not be had.
#[derive(Clone, Debug, PartialEq, Eq)]
pub enum SchemaError {
    /// The bundle holds no document of that name.
    FileNotFound { filename: String },
    /// The document of that name could not be decoded.
    ParseJson { filename: String },
}

/// `c` in lower case, where it is an ASCII letter.
pub open spec fn ascii_lower(c: char) -> char {
    if 'A' <= c <= 'Z' {
        ((c as u32) + 32) as char
    } else {
        c
    }
}

/// `s[i..]` with each `::` replaced by `-`, from left to right.
pub open spec fn dashed_from(s: Seq<char>, i: int) -> Seq<char>
    decreases s.len() - i,
{
    if i >= s.len() || i < 0 {
        seq![]
    } else if i + 1 < s.len() && s[i] == ':' && s[i + 1] == ':' {
        seq!['-'] + dashed_from(s, i + 2)
    } else {
        seq![s[i]] + dashed_from(s, i + 1)
    }
}

/// The name of the bundle's document of resource type `t`: the type in
/// lower case, with `::` replaced by `-`, and `.json` after it.
pub open spec fn schema_file_name_of(t: Seq<char>) -> Seq<char> {
    dashed_from(t.map_values(|c: char| ascii_lower(c)), 0) + seq!['.', 'j', 's', 'o', 'n']
}

/// The name of the bundle's document of a resource type.
pub fn schema_file_name(resource_type: &str) -> (r: String)
    ensures
        r@ == schema_file_name_of(resource_type@),
{
    let chars = chars_of(resource_type);
    let ghost low = chars@.map_values(|c: char| ascii_lower(c));
    let mut lower: Vec<char> = Vec::new();
    let mut i: usize = 0;
    while i < chars.len()
        invariant
            i <= chars@.len(),
            low == chars@.map_values(|c: char| ascii_lower(c)),
            lower@ == low.take(i as int),
        decreases chars.len() - i,
    {
        let c = chars[i];
        let l = if 'A' <= c && c <= 'Z' {
            ((c as u8) + 32) as char
        } else {
            c
        };
        lower.push(l);
        assert(low.take(i + 1) =~= low.take(i as int).push(low[i as int]));
        i = i + 1;
    }
    assert(low.take(chars@.len() as int) =~= low);
    let mut out: Vec<char> = Vec::new();
    let mut j: usize = 0;
    while j < lower.len()
        invariant
            j <= lower@.len() + 1,
            lower@ == low,
            out@ + dashed_from(low, j as int) == dashed_from(low, 0),
        decreases lower.len() + 1 - j,
    {
        let ghost prev = out@;
        if j + 1 < lower.len() && lower[j] == ':' && lower[j + 1] == ':' {
            out.push('-');
            assert(prev + dashed_from(low, j as int) =~= out@ + dashed_from(low, j + 2));
            j = j + 2;
        } else {
            out.push(lower[j]);
            assert(prev + dashed_from(low, j as int) =~= out@ + dashed_from(low, j + 1));
            j = j + 1;
        }
    }
    assert(dashed_from(low, j as int) =~= Seq::<char>::empty());
    assert(out@ =~= dashed_from(low, 0));
    let ghost base = out@;
    out.push('.');
    out.push('j');
    out.push('s');
    out.push('o');
    out.push('n');
    assert(out@ =~= base + seq!['.', 'j', 's', 'o', 'n']);
    string_of(&out)
}

/// The index of the first file of `files`, from `i` on, named `name`.
pub open spec fn find_file(files: Seq<SchemaFile>, name: Seq<char>, i: int) -> Option<int>
    decreases files.len() - i,
{
    if i >= files.len() || i < 0 {
        None
    } else if files[i].name@ == name {
        Some(i)
    } else {
        find_file(files, name, i + 1)
    }
}

/// What the bundle says of resource type `resource_type`: the information
/// of the document named after it; `FileNotFound` where there is none, and
/// `ParseJson` where it could not be decoded.
pub fn extract_resource_from_bundle(bundle: &SchemaBundle, resource_type: &str) -> (r: Result<ResourceInfo, SchemaError>)
    ensures
        ({
            let name = schema_file_name_of(resource_type@);
            match find_file(bundle.files@, name, 0) {
                None => r matches Err(SchemaError::FileNotFound { filename }) && filename@ == name,
                Some(k) => match bundle.files@[k].document {
                    None => r matches Err(SchemaError::ParseJson { filename }) && filename@ == name,
                    Some(doc) => r matches Ok(info) && describes(info, doc),
                },
            }
        }),
{
    let name = schema_file_name(resource_type);
    let ghost n = name@;
    let mut i: usize = 0;
    while i < bundle.files.len()
        invariant
            i <= bundle.files@.len(),
            n == name@,
            n == schema_file_name_of(resource_type@),
            find_file(bundle.files@, n, i as int) == find_file(bundle.files@, n, 0),
        decreases bundle.files.len() - i,
    {
        let file = &bundle.files[i];
        if file.name == name {
            return match &file.document {
                Some(doc) => Ok(resource_info_from_schema(doc)),
                None => Err(SchemaError::ParseJson { filename: name }),
            };
        }
        i = i + 1;
    }
    Err(SchemaError::FileNotFound { filename: name })
}

/// The resource types of the decoded `.json` documents of `files`, in order.
pub open spec fn resources_of(files: Seq<SchemaFile>) -> Seq<(Seq<char>, Option<String>)>
    decreases files.len(),
{
    if files.len() == 0 {
        seq![]
    } else {
        resources_of(files.drop_last()) + match files.last().document {
            Some(doc) => if ends_with(files.last().name@, seq!['.', 'j', 's', 'o', 'n']) {
                seq![(doc.resource_type@, doc.description)]
            } else {
                seq![]
            },
            None => seq![],
        }
    }
}

pub open spec fn resources_view(v: Seq<Resource>) -> Seq<(Seq<char>, Option<String>)> {
    v.map_values(|r: Resource| (r.resource_type@, r.description))
}

/// Every resource type of the bundle with its description, for completion:
/// one for each `.json` document that could be decoded, in the bundle's order.
pub fn get_resource_types(bundle: &SchemaBundle) -> (r: Vec<Resource>)
    ensures
        resources_view(r@) == resources_of(bundle.files@),
{
    let ghost files = bundle.files@;
    let mut out: Vec<Resource> = Vec::new();
    let mut i: usize = 0;
    proof {
        reveal_strlit(".json");
        assert(".json"@ =~= seq!['.', 'j', 's', 'o', 'n']);
    }
    while i < bundle.files.len()
        invariant
            i <= files.len(),
            files == bundle.files@,
            ".json"@ == seq!['.', 'j', 's', 'o', 'n'],
            resources_view(out@) == resources_of(files.take(i as int)),
        decreases bundle.files.len() - i,
    {
        let file = &bundle.files[i];
        let ghost prev = out@;
        assert(files.take(i + 1).drop_last() =~= files.take(i as int));
        assert(files.take(i + 1).last() == *file);
        match &file.document {
            Some(doc) => {
                if has_suffix(file.name.as_str(), ".json") {
                    out.push(Resource { resource_type: doc.resource_type.clone(), description: doc.description.clone() });
                    assert(resources_view(out@) =~= resources_view(prev) + seq![(doc.resource_type@, doc.description)]);
                } else {
                    assert(resources_view(out@) =~= resources_view(prev) + seq![]);
                }
            },
            None => {
                assert(resources_view(out@) =~= resources_view(prev) + seq![]);
            },
        }
        i = i + 1;
    }
    assert(files.take(files.len() as int) =~= files);
    out
}

} // verus!
