//! The bookmark-store schema: between the typed tree and the JSON tree.
//!
//! Lowering (`bookmarks_to_json`, `children_to_json`) writes each record as
//! an object with a fixed field order; an optional field that is absent is
//! written as `null`.  Raising (`bookmarks_from_json`) validates the
//! document: every required field must be there with the right shape, and
//! a child must carry exactly one of a children sequence and a URL string
//! — the shape decides the variant, and an ambiguous child is refused.

use vstd::prelude::*;

use crate::json::Json;
use crate::json::JsonView;
use crate::json::json_elems_view;
use crate::json::json_fields_view;
use crate::json::json_view;
use crate::json::lemma_json_elems_view_index;
use crate::json::lemma_json_fields_view_index;
use crate::tree::Bookmarks;
use crate::tree::BookmarksView;
use crate::tree::Child;
use crate::tree::ChildView;
use crate::tree::Folder;
use crate::tree::FolderView;
use crate::tree::MetaInfo;
use crate::tree::MetaInfoView;
use crate::tree::Roots;
use crate::tree::RootsView;
use crate::tree::child_view;
use crate::tree::children_view;
use crate::tree::folder_view;
use crate::tree::opt_bytes_view;
use crate::tree::opt_meta_view;
use crate::extract::bytes_eq;
use crate::tree::wf_bookmarks;
use crate::tree::wf_child;
use crate::tree::wf_children;
use crate::tree::wf_folder;
use crate::tree::wf_roots;
use crate::extract::clone_bytes;

verus! {

/// Why a document was refused.
#[derive(Debug, Clone, Copy, PartialEq, Eq)]
pub enum ParseError {
    /// The text ended in the middle of a value.
    UnexpectedEnd,
    /// A byte that no JSON value can start or continue with here.
    UnexpectedByte,
    /// A number that is not a plain integer within signed 64-bit range.
    BadNumber,
    /// A string escape that is not supported.
    BadEscape,
    /// Bytes left over after the top-level value.
    TrailingData,
    /// A field or document with the wrong JSON shape.
    WrongType,
    /// A required field that is not there.
    MissingField,
    /// A child with both a children sequence and a URL string, or neither.
    AmbiguousChild,
}

fn bytes_to_vec(a: &[u8]) -> (r: Vec<u8>)
    ensures
        r@ == a@,
{
    let mut r: Vec<u8> = Vec::new();
    let mut i: usize = 0;
    while i < a.len()
        invariant
            i <= a.len(),
            r@ == a@.subrange(0, i as int),
        decreases a.len() - i,
    {
        r.push(a[i]);
        i += 1;
        assert(r@ =~= a@.subrange(0, i as int));
    }
    assert(r@ =~= a@);
    r
}

/// The field name "checksum".
pub open spec fn key_checksum() -> Seq<u8> {
    seq![99u8, 104u8, 101u8, 99u8, 107u8, 115u8, 117u8, 109u8]
}

fn build_key_checksum() -> (r: Vec<u8>)
    ensures
        r@ == key_checksum(),
{
    let a: [u8; 8] = [99u8, 104u8, 101u8, 99u8, 107u8, 115u8, 117u8, 109u8];
    let r = bytes_to_vec(a.as_slice());
    assert(a@ =~= key_checksum());
    r
}

/// The field name "roots".
pub open spec fn key_roots() -> Seq<u8> {
    seq![114u8, 111u8, 111u8, 116u8, 115u8]
}

fn build_key_roots() -> (r: Vec<u8>)
    ensures
        r@ == key_roots(),
{
    let a: [u8; 5] = [114u8, 111u8, 111u8, 116u8, 115u8];
    let r = bytes_to_vec(a.as_slice());
    assert(a@ =~= key_roots());
    r
}

/// The field name "sync_metadata".
pub open spec fn key_sync_metadata() -> Seq<u8> {
    seq![115u8, 121u8, 110u8, 99u8, 95u8, 109u8, 101u8, 116u8, 97u8, 100u8, 97u8, 116u8, 97u8]
}

fn build_key_sync_metadata() -> (r: Vec<u8>)
    ensures
        r@ == key_sync_metadata(),
{
    let a: [u8; 13] = [115u8, 121u8, 110u8, 99u8, 95u8, 109u8, 101u8, 116u8, 97u8, 100u8, 97u8, 116u8, 97u8];
    let r = bytes_to_vec(a.as_slice());
    assert(a@ =~= key_sync_metadata());
    r
}

/// The field name "version".
pub open spec fn key_version() -> Seq<u8> {
    seq![118u8, 101u8, 114u8, 115u8, 105u8, 111u8, 110u8]
}

fn build_key_version() -> (r: Vec<u8>)
    ensures
        r@ == key_version(),
{
    let a: [u8; 7] = [118u8, 101u8, 114u8, 115u8, 105u8, 111u8, 110u8];
    let r = bytes_to_vec(a.as_slice());
    assert(a@ =~= key_version());
    r
}

/// The field name "bookmark_bar".
pub open spec fn key_bookmark_bar() -> Seq<u8> {
    seq![98u8, 111u8, 111u8, 107u8, 109u8, 97u8, 114u8, 107u8, 95u8, 98u8, 97u8, 114u8]
}

fn build_key_bookmark_bar() -> (r: Vec<u8>)
    ensures
        r@ == key_bookmark_bar(),
{
    let a: [u8; 12] = [98u8, 111u8, 111u8, 107u8, 109u8, 97u8, 114u8, 107u8, 95u8, 98u8, 97u8, 114u8];
    let r = bytes_to_vec(a.as_slice());
    assert(a@ =~= key_bookmark_bar());
    r
}

/// The field name "other".
pub open spec fn key_other() -> Seq<u8> {
    seq![111u8, 116u8, 104u8, 101u8, 114u8]
}

fn build_key_other() -> (r: Vec<u8>)
    ensures
        r@ == key_other(),
{
    let a: [u8; 5] = [111u8, 116u8, 104u8, 101u8, 114u8];
    let r = bytes_to_vec(a.as_slice());
    assert(a@ =~= key_other());
    r
}

/// The field name "synced".
pub open spec fn key_synced() -> Seq<u8> {
    seq![115u8, 121u8, 110u8, 99u8, 101u8, 100u8]
}

fn build_key_synced() -> (r: Vec<u8>)
    ensures
        r@ == key_synced(),
{
    let a: [u8; 6] = [115u8, 121u8, 110u8, 99u8, 101u8, 100u8];
    let r = bytes_to_vec(a.as_slice());
    assert(a@ =~= key_synced());
    r
}

/// The field name "children".
pub open spec fn key_children() -> Seq<u8> {
    seq![99u8, 104u8, 105u8, 108u8, 100u8, 114u8, 101u8, 110u8]
}

fn build_key_children() -> (r: Vec<u8>)
    ensures
        r@ == key_children(),
{
    let a: [u8; 8] = [99u8, 104u8, 105u8, 108u8, 100u8, 114u8, 101u8, 110u8];
    let r = bytes_to_vec(a.as_slice());
    assert(a@ =~= key_children());
    r
}

/// The field name "date_added".
pub open spec fn key_date_added() -> Seq<u8> {
    seq![100u8, 97u8, 116u8, 101u8, 95u8, 97u8, 100u8, 100u8, 101u8, 100u8]
}

fn build_key_date_added() -> (r: Vec<u8>)
    ensures
        r@ == key_date_added(),
{
    let a: [u8; 10] = [100u8, 97u8, 116u8, 101u8, 95u8, 97u8, 100u8, 100u8, 101u8, 100u8];
    let r = bytes_to_vec(a.as_slice());
    assert(a@ =~= key_date_added());
    r
}

/// The field name "date_last_used".
pub open spec fn key_date_last_used() -> Seq<u8> {
    seq![100u8, 97u8, 116u8, 101u8, 95u8, 108u8, 97u8, 115u8, 116u8, 95u8, 117u8, 115u8, 101u8, 100u8]
}

fn build_key_date_last_used() -> (r: Vec<u8>)
    ensures
        r@ == key_date_last_used(),
{
    let a: [u8; 14] = [100u8, 97u8, 116u8, 101u8, 95u8, 108u8, 97u8, 115u8, 116u8, 95u8, 117u8, 115u8, 101u8, 100u8];
    let r = bytes_to_vec(a.as_slice());
    assert(a@ =~= key_date_last_used());
    r
}

/// The field name "date_modified".
pub open spec fn key_date_modified() -> Seq<u8> {
    seq![100u8, 97u8, 116u8, 101u8, 95u8, 109u8, 111u8, 100u8, 105u8, 102u8, 105u8, 101u8, 100u8]
}

fn build_key_date_modified() -> (r: Vec<u8>)
    ensures
        r@ == key_date_modified(),
{
    let a: [u8; 13] = [100u8, 97u8, 116u8, 101u8, 95u8, 109u8, 111u8, 100u8, 105u8, 102u8, 105u8, 101u8, 100u8];
    let r = bytes_to_vec(a.as_slice());
    assert(a@ =~= key_date_modified());
    r
}

/// The field name "guid".
pub open spec fn key_guid() -> Seq<u8> {
    seq![103u8, 117u8, 105u8, 100u8]
}

fn build_key_guid() -> (r: Vec<u8>)
    ensures
        r@ == key_guid(),
{
    let a: [u8; 4] = [103u8, 117u8, 105u8, 100u8];
    let r = bytes_to_vec(a.as_slice());
    assert(a@ =~= key_guid());
    r
}

/// The field name "id".
pub open spec fn key_id() -> Seq<u8> {
    seq![105u8, 100u8]
}

fn build_key_id() -> (r: Vec<u8>)
    ensures
        r@ == key_id(),
{
    let a: [u8; 2] = [105u8, 100u8];
    let r = bytes_to_vec(a.as_slice());
    assert(a@ =~= key_id());
    r
}

/// The field name "meta_info".
pub open spec fn key_meta_info() -> Seq<u8> {
    seq![109u8, 101u8, 116u8, 97u8, 95u8, 105u8, 110u8, 102u8, 111u8]
}

fn build_key_meta_info() -> (r: Vec<u8>)
    ensures
        r@ == key_meta_info(),
{
    let a: [u8; 9] = [109u8, 101u8, 116u8, 97u8, 95u8, 105u8, 110u8, 102u8, 111u8];
    let r = bytes_to_vec(a.as_slice());
    assert(a@ =~= key_meta_info());
    r
}

/// The field name "name".
pub open spec fn key_name() -> Seq<u8> {
    seq![110u8, 97u8, 109u8, 101u8]
}

fn build_key_name() -> (r: Vec<u8>)
    ensures
        r@ == key_name(),
{
    let a: [u8; 4] = [110u8, 97u8, 109u8, 101u8];
    let r = bytes_to_vec(a.as_slice());
    assert(a@ =~= key_name());
    r
}

/// The field name "type".
pub open spec fn key_type() -> Seq<u8> {
    seq![116u8, 121u8, 112u8, 101u8]
}

fn build_key_type() -> (r: Vec<u8>)
    ensures
        r@ == key_type(),
{
    let a: [u8; 4] = [116u8, 121u8, 112u8, 101u8];
    let r = bytes_to_vec(a.as_slice());
    assert(a@ =~= key_type());
    r
}

/// The field name "url".
pub open spec fn key_url() -> Seq<u8> {
    seq![117u8, 114u8, 108u8]
}

fn build_key_url() -> (r: Vec<u8>)
    ensures
        r@ == key_url(),
{
    let a: [u8; 3] = [117u8, 114u8, 108u8];
    let r = bytes_to_vec(a.as_slice());
    assert(a@ =~= key_url());
    r
}

/// The field name "power_bookmark_meta".
pub open spec fn key_power_bookmark_meta() -> Seq<u8> {
    seq![112u8, 111u8, 119u8, 101u8, 114u8, 95u8, 98u8, 111u8, 111u8, 107u8, 109u8, 97u8, 114u8, 107u8, 95u8, 109u8, 101u8, 116u8, 97u8]
}

fn build_key_power_bookmark_meta() -> (r: Vec<u8>)
    ensures
        r@ == key_power_bookmark_meta(),
{
    let a: [u8; 19] = [112u8, 111u8, 119u8, 101u8, 114u8, 95u8, 98u8, 111u8, 111u8, 107u8, 109u8, 97u8, 114u8, 107u8, 95u8, 109u8, 101u8, 116u8, 97u8];
    let r = bytes_to_vec(a.as_slice());
    assert(a@ =~= key_power_bookmark_meta());
    r
}

/// An optional string as a document value: `null` when absent.
pub open spec fn spec_opt_str_json(o: Option<Seq<u8>>) -> JsonView {
    match o {
        Option::None => JsonView::Null,
        Option::Some(s) => JsonView::Str(s),
    }
}

/// A metadata blob as a one-field object.
pub open spec fn spec_meta_json(m: MetaInfoView) -> JsonView {
    JsonView::Obj(seq![(key_power_bookmark_meta(), JsonView::Str(m.power_bookmark_meta))])
}

/// An optional metadata blob: `null` when absent.
pub open spec fn spec_opt_meta_json(o: Option<MetaInfoView>) -> JsonView {
    match o {
        Option::None => JsonView::Null,
        Option::Some(m) => spec_meta_json(m),
    }
}

/// The document form of a folder.
pub open spec fn spec_folder_to_json(f: FolderView) -> JsonView
    decreases f,
{
    JsonView::Obj(
        seq![
            (key_children(), JsonView::Arr(spec_children_to_json(f.children))),
            (key_date_added(), JsonView::Str(f.date_added)),
            (key_date_last_used(), JsonView::Str(f.date_last_used)),
            (key_date_modified(), spec_opt_str_json(f.date_modified)),
            (key_guid(), JsonView::Str(f.guid)),
            (key_id(), JsonView::Str(f.id)),
            (key_meta_info(), spec_opt_meta_json(f.meta_info)),
            (key_name(), JsonView::Str(f.name)),
            (key_type(), JsonView::Str(f.type_)),
            (key_url(), spec_opt_str_json(f.url)),
        ],
    )
}

/// The document form of a children sequence.
pub open spec fn spec_children_to_json(cs: Seq<ChildView>) -> Seq<JsonView>
    decreases cs,
{
    if cs.len() == 0 {
        Seq::empty()
    } else {
        seq![spec_child_to_json(cs[0])] + spec_children_to_json(cs.subrange(1, cs.len() as int))
    }
}

/// The document form of one child.
pub open spec fn spec_child_to_json(c: ChildView) -> JsonView
    decreases c,
{
    match c {
        ChildView::Folder(f) => spec_folder_to_json(f),
        ChildView::Bookmark {
            date_added,
            date_last_used,
            date_modified,
            guid,
            id,
            name,
            meta_info,
            type_,
            url,
        } => JsonView::Obj(
            seq![
                (key_date_added(), JsonView::Str(date_added)),
                (key_date_last_used(), JsonView::Str(date_last_used)),
                (key_date_modified(), spec_opt_str_json(date_modified)),
                (key_guid(), JsonView::Str(guid)),
                (key_id(), JsonView::Str(id)),
                (key_meta_info(), spec_opt_meta_json(meta_info)),
                (key_name(), JsonView::Str(name)),
                (key_type(), JsonView::Str(type_)),
                (key_url(), JsonView::Str(url)),
            ],
        ),
    }
}

/// The document form of the three roots.
pub open spec fn spec_roots_to_json(r: RootsView) -> JsonView {
    JsonView::Obj(
        seq![
            (key_bookmark_bar(), spec_folder_to_json(r.bookmark_bar)),
            (key_other(), spec_folder_to_json(r.other)),
            (key_synced(), spec_folder_to_json(r.synced)),
        ],
    )
}

/// The document form of the whole store.
pub open spec fn spec_bookmarks_to_json(t: BookmarksView) -> JsonView {
    JsonView::Obj(
        seq![
            (key_checksum(), JsonView::Str(t.checksum)),
            (key_roots(), spec_roots_to_json(t.roots)),
            (key_sync_metadata(), JsonView::Str(t.sync_metadata)),
            (key_version(), JsonView::Int(t.version)),
        ],
    )
}

fn opt_bytes_to_json(o: &Option<Vec<u8>>) -> (r: Json)
    ensures
        json_view(r) == spec_opt_str_json(opt_bytes_view(*o)),
{
    match o {
        Option::None => Json::Null,
        Option::Some(v) => Json::Str(clone_bytes(v)),
    }
}

fn opt_meta_to_json(o: &Option<MetaInfo>) -> (r: Json)
    ensures
        json_view(r) == spec_opt_meta_json(opt_meta_view(*o)),
{
    match o {
        Option::None => Json::Null,
        Option::Some(m) => {
            let mut fields: Vec<(Vec<u8>, Json)> = Vec::new();
            fields.push((build_key_power_bookmark_meta(), Json::Str(clone_bytes(
                &m.power_bookmark_meta,
            ))));
            let r = Json::Obj(fields);
            proof {
                lemma_json_fields_view_index(fields@);
                assert(json_fields_view(fields@) =~= spec_meta_json(m@)->Obj_0);
            }
            r
        },
    }
}

proof fn lemma_spec_children_to_json_snoc(cs: Seq<ChildView>, c: ChildView)
    ensures
        spec_children_to_json(cs.push(c)) == spec_children_to_json(cs).push(
            spec_child_to_json(c),
        ),
    decreases cs.len(),
{
    let whole = cs.push(c);
    if cs.len() == 0 {
        assert(whole[0] == c);
        assert(whole.subrange(1, whole.len() as int) =~= Seq::<ChildView>::empty());
        assert(spec_children_to_json(Seq::<ChildView>::empty()) =~= Seq::<JsonView>::empty());
        assert(spec_children_to_json(whole) == seq![spec_child_to_json(c)]
            + spec_children_to_json(whole.subrange(1, whole.len() as int)));
        assert(spec_children_to_json(cs) =~= Seq::<JsonView>::empty());
        assert(spec_children_to_json(cs.push(c)) =~= spec_children_to_json(cs).push(
            spec_child_to_json(c),
        ));
    } else {
        assert(whole[0] == cs[0]);
        assert(whole.subrange(1, whole.len() as int) =~= cs.subrange(1, cs.len() as int).push(c));
        lemma_spec_children_to_json_snoc(cs.subrange(1, cs.len() as int), c);
        assert(spec_children_to_json(cs.push(c)) =~= spec_children_to_json(cs).push(
            spec_child_to_json(c),
        ));
    }
}

/// The document nodes of a children sequence, in order.
pub fn children_to_json(cs: &Vec<Child>) -> (r: Vec<Json>)
    ensures
        json_elems_view(r@) == spec_children_to_json(children_view(cs@)),
    decreases *cs,
{
    let ghost vcs = children_view(cs@);
    proof {
        crate::extract::lemma_children_view_index(cs@);
    }
    let mut r: Vec<Json> = Vec::new();
    let mut i: usize = 0;
    while i < cs.len()
        invariant
            i <= cs.len(),
            vcs == children_view(cs@),
            vcs.len() == cs@.len(),
            forall|j: int| 0 <= j < cs@.len() ==> vcs[j] == child_view(cs@[j]),
            json_elems_view(r@) == spec_children_to_json(vcs.subrange(0, i as int)),
        decreases cs.len() - i,
    {
        let ghost prefix = vcs.subrange(0, i as int);
        let j = child_to_json(&cs[i]);
        proof {
            crate::json::lemma_json_elems_view_snoc(r@, j);
            lemma_spec_children_to_json_snoc(prefix, vcs[i as int]);
        }
        r.push(j);
        i += 1;
        proof {
            assert(vcs.subrange(0, i as int) =~= prefix.push(vcs[i - 1]));
            assert(json_elems_view(r@) =~= spec_children_to_json(vcs.subrange(0, i as int)));
        }
    }
    proof {
        assert(vcs.subrange(0, i as int) =~= vcs);
    }
    r
}

/// The document node of one child.
pub fn child_to_json(c: &Child) -> (r: Json)
    ensures
        json_view(r) == spec_child_to_json(child_view(*c)),
    decreases *c,
{
    match c {
        Child::Folder(f) => folder_to_json(f),
        Child::Bookmark {
            date_added,
            date_last_used,
            date_modified,
            guid,
            id,
            name,
            meta_info,
            type_,
            url,
        } => {
            let mut fields: Vec<(Vec<u8>, Json)> = Vec::new();
            fields.push((build_key_date_added(), Json::Str(clone_bytes(date_added))));
            fields.push((build_key_date_last_used(), Json::Str(clone_bytes(date_last_used))));
            fields.push((build_key_date_modified(), opt_bytes_to_json(date_modified)));
            fields.push((build_key_guid(), Json::Str(clone_bytes(guid))));
            fields.push((build_key_id(), Json::Str(clone_bytes(id))));
            fields.push((build_key_meta_info(), opt_meta_to_json(meta_info)));
            fields.push((build_key_name(), Json::Str(clone_bytes(name))));
            fields.push((build_key_type(), Json::Str(clone_bytes(type_))));
            fields.push((build_key_url(), Json::Str(clone_bytes(url))));
            let r = Json::Obj(fields);
            proof {
                lemma_json_fields_view_index(fields@);
                assert(json_fields_view(fields@) =~= spec_child_to_json(child_view(*c))->Obj_0);
            }
            r
        },
    }
}

/// The document node of a folder.
pub fn folder_to_json(f: &Folder) -> (r: Json)
    ensures
        json_view(r) == spec_folder_to_json(folder_view(*f)),
    decreases *f,
{
    let children = children_to_json(&f.children);
    let mut fields: Vec<(Vec<u8>, Json)> = Vec::new();
    fields.push((build_key_children(), Json::Arr(children)));
    fields.push((build_key_date_added(), Json::Str(clone_bytes(&f.date_added))));
    fields.push((build_key_date_last_used(), Json::Str(clone_bytes(&f.date_last_used))));
    fields.push((build_key_date_modified(), opt_bytes_to_json(&f.date_modified)));
    fields.push((build_key_guid(), Json::Str(clone_bytes(&f.guid))));
    fields.push((build_key_id(), Json::Str(clone_bytes(&f.id))));
    fields.push((build_key_meta_info(), opt_meta_to_json(&f.meta_info)));
    fields.push((build_key_name(), Json::Str(clone_bytes(&f.name))));
    fields.push((build_key_type(), Json::Str(clone_bytes(&f.type_))));
    fields.push((build_key_url(), opt_bytes_to_json(&f.url)));
    let r = Json::Obj(fields);
    proof {
        lemma_json_fields_view_index(fields@);
        assert(json_fields_view(fields@) =~= spec_folder_to_json(folder_view(*f))->Obj_0);
    }
    r
}

/// The document node of the whole store.
pub fn bookmarks_to_json(t: &Bookmarks) -> (r: Json)
    ensures
        json_view(r) == spec_bookmarks_to_json(t@),
{
    let bar = folder_to_json(&t.roots.bookmark_bar);
    let other = folder_to_json(&t.roots.other);
    let synced = folder_to_json(&t.roots.synced);
    let mut rfields: Vec<(Vec<u8>, Json)> = Vec::new();
    rfields.push((build_key_bookmark_bar(), bar));
    rfields.push((build_key_other(), other));
    rfields.push((build_key_synced(), synced));
    let roots = Json::Obj(rfields);
    proof {
        lemma_json_fields_view_index(rfields@);
        assert(json_fields_view(rfields@) =~= spec_roots_to_json(t.roots@)->Obj_0);
    }
    let mut fields: Vec<(Vec<u8>, Json)> = Vec::new();
    fields.push((build_key_checksum(), Json::Str(clone_bytes(&t.checksum))));
    fields.push((build_key_roots(), roots));
    fields.push((build_key_sync_metadata(), Json::Str(clone_bytes(&t.sync_metadata))));
    fields.push((build_key_version(), Json::Int(t.version)));
    let r = Json::Obj(fields);
    proof {
        lemma_json_fields_view_index(fields@);
        assert(json_fields_view(fields@) =~= spec_bookmarks_to_json(t@)->Obj_0);
    }
    r
}

/// First-match lookup of `key` among the fields from index `i` on.
pub open spec fn spec_obj_get_from(fs: Seq<(Seq<u8>, JsonView)>, key: Seq<u8>, i: int) -> Option<
    JsonView,
>
    decreases fs.len() - i,
{
    if i < 0 || i >= fs.len() {
        Option::None
    } else if fs[i].0 == key {
        Option::Some(fs[i].1)
    } else {
        spec_obj_get_from(fs, key, i + 1)
    }
}

/// The value of the first field named `key`, if any.
pub open spec fn spec_obj_get(fs: Seq<(Seq<u8>, JsonView)>, key: Seq<u8>) -> Option<JsonView> {
    spec_obj_get_from(fs, key, 0)
}

/// A required string field.
pub open spec fn spec_str_field(fs: Seq<(Seq<u8>, JsonView)>, key: Seq<u8>) -> Result<
    Seq<u8>,
    ParseError,
> {
    match spec_obj_get(fs, key) {
        Option::None => Result::Err(ParseError::MissingField),
        Option::Some(JsonView::Str(s)) => Result::Ok(s),
        Option::Some(_) => Result::Err(ParseError::WrongType),
    }
}

/// An optional string field: absent or `null` is no value.
pub open spec fn spec_opt_str_field(fs: Seq<(Seq<u8>, JsonView)>, key: Seq<u8>) -> Result<
    Option<Seq<u8>>,
    ParseError,
> {
    match spec_obj_get(fs, key) {
        Option::None => Result::Ok(Option::None),
        Option::Some(JsonView::Null) => Result::Ok(Option::None),
        Option::Some(JsonView::Str(s)) => Result::Ok(Option::Some(s)),
        Option::Some(_) => Result::Err(ParseError::WrongType),
    }
}

/// A required integer field.
pub open spec fn spec_int_field(fs: Seq<(Seq<u8>, JsonView)>, key: Seq<u8>) -> Result<
    int,
    ParseError,
> {
    match spec_obj_get(fs, key) {
        Option::None => Result::Err(ParseError::MissingField),
        Option::Some(JsonView::Int(v)) => Result::Ok(v),
        Option::Some(_) => Result::Err(ParseError::WrongType),
    }
}

/// An optional metadata field: an object with a `power_bookmark_meta`
/// string when present.
pub open spec fn spec_meta_field(fs: Seq<(Seq<u8>, JsonView)>) -> Result<
    Option<MetaInfoView>,
    ParseError,
> {
    match spec_obj_get(fs, key_meta_info()) {
        Option::None => Result::Ok(Option::None),
        Option::Some(JsonView::Null) => Result::Ok(Option::None),
        Option::Some(JsonView::Obj(mfs)) => match spec_str_field(mfs, key_power_bookmark_meta()) {
            Result::Ok(s) => Result::Ok(Option::Some(MetaInfoView { power_bookmark_meta: s })),
            Result::Err(e) => Result::Err(e),
        },
        Option::Some(_) => Result::Err(ParseError::WrongType),
    }
}

/// The non-children attributes of a folder, read off its fields.
pub open spec fn spec_folder_rest(
    fs: Seq<(Seq<u8>, JsonView)>,
    children: Seq<ChildView>,
) -> Result<FolderView, ParseError> {
    match spec_str_field(fs, key_date_added()) {
        Result::Err(e) => Result::Err(e),
        Result::Ok(date_added) => match spec_str_field(fs, key_date_last_used()) {
            Result::Err(e) => Result::Err(e),
            Result::Ok(date_last_used) => match spec_opt_str_field(fs, key_date_modified()) {
                Result::Err(e) => Result::Err(e),
                Result::Ok(date_modified) => match spec_str_field(fs, key_guid()) {
                    Result::Err(e) => Result::Err(e),
                    Result::Ok(guid) => match spec_str_field(fs, key_id()) {
                        Result::Err(e) => Result::Err(e),
                        Result::Ok(id) => match spec_meta_field(fs) {
                            Result::Err(e) => Result::Err(e),
                            Result::Ok(meta_info) => match spec_str_field(fs, key_name()) {
                                Result::Err(e) => Result::Err(e),
                                Result::Ok(name) => match spec_str_field(fs, key_type()) {
                                    Result::Err(e) => Result::Err(e),
                                    Result::Ok(type_) => match spec_opt_str_field(
                                        fs,
                                        key_url(),
                                    ) {
                                        Result::Err(e) => Result::Err(e),
                                        Result::Ok(url) => Result::Ok(
                                            FolderView {
                                                children,
                                                date_added,
                                                date_last_used,
                                                date_modified,
                                                guid,
                                                id,
                                                meta_info,
                                                name,
                                                type_,
                                                url,
                                            },
                                        ),
                                    },
                                },
                            },
                        },
                    },
                },
            },
        },
    }
}

/// The children of a folder: the first `children` field, which must be an
/// array, each entry of which must be a valid child.
pub open spec fn spec_children_field(fs: Seq<(Seq<u8>, JsonView)>, i: int) -> Result<
    Seq<ChildView>,
    ParseError,
>
    decreases fs, 1int, fs.len() - i,
{
    if i < 0 || i >= fs.len() {
        Result::Err(ParseError::MissingField)
    } else if fs[i].0 == key_children() {
        match fs[i].1 {
            JsonView::Arr(es) => spec_children_from_json(es),
            _ => Result::Err(ParseError::WrongType),
        }
    } else {
        spec_children_field(fs, i + 1)
    }
}

/// What raising a folder node yields: the tree, or the first fault found.
pub open spec fn spec_folder_from_json(j: JsonView) -> Result<FolderView, ParseError>
    decreases j, 0int, 0int,
{
    match j {
        JsonView::Obj(fs) => match spec_children_field(fs, 0) {
            Result::Err(e) => Result::Err(e),
            Result::Ok(children) => spec_folder_rest(fs, children),
        },
        _ => Result::Err(ParseError::WrongType),
    }
}

/// What raising a children array yields, first fault first.
pub open spec fn spec_children_from_json(es: Seq<JsonView>) -> Result<Seq<ChildView>, ParseError>
    decreases es, 2int, 0int,
{
    if es.len() == 0 {
        Result::Ok(Seq::empty())
    } else {
        match spec_child_from_json(es[0]) {
            Result::Err(e) => Result::Err(e),
            Result::Ok(c) => match spec_children_from_json(es.subrange(1, es.len() as int)) {
                Result::Err(e) => Result::Err(e),
                Result::Ok(rest) => Result::Ok(seq![c] + rest),
            },
        }
    }
}

/// What raising one child yields.  The shape decides the variant: a
/// children array and no URL string makes a folder, a URL string and no
/// children array makes a bookmark, and any other combination is refused
/// as structurally ambiguous.
pub open spec fn spec_child_from_json(j: JsonView) -> Result<ChildView, ParseError>
    decreases j, 3int, 0int,
{
    match j {
        JsonView::Obj(fs) => {
            let has_children = spec_obj_get(fs, key_children()) matches Option::Some(
                JsonView::Arr(_),
            );
            let has_url = spec_obj_get(fs, key_url()) matches Option::Some(JsonView::Str(_));
            if has_children == has_url {
                Result::Err(ParseError::AmbiguousChild)
            } else if has_children {
                match spec_folder_from_json(j) {
                    Result::Err(e) => Result::Err(e),
                    Result::Ok(f) => Result::Ok(ChildView::Folder(f)),
                }
            } else {
                match spec_str_field(fs, key_date_added()) {
                    Result::Err(e) => Result::Err(e),
                    Result::Ok(date_added) => match spec_str_field(fs, key_date_last_used()) {
                        Result::Err(e) => Result::Err(e),
                        Result::Ok(date_last_used) => match spec_opt_str_field(
                            fs,
                            key_date_modified(),
                        ) {
                            Result::Err(e) => Result::Err(e),
                            Result::Ok(date_modified) => match spec_str_field(fs, key_guid()) {
                                Result::Err(e) => Result::Err(e),
                                Result::Ok(guid) => match spec_str_field(fs, key_id()) {
                                    Result::Err(e) => Result::Err(e),
                                    Result::Ok(id) => match spec_meta_field(fs) {
                                        Result::Err(e) => Result::Err(e),
                                        Result::Ok(meta_info) => match spec_str_field(
                                            fs,
                                            key_name(),
                                        ) {
                                            Result::Err(e) => Result::Err(e),
                                            Result::Ok(name) => match spec_str_field(
                                                fs,
                                                key_type(),
                                            ) {
                                                Result::Err(e) => Result::Err(e),
                                                Result::Ok(type_) => match spec_str_field(
                                                    fs,
                                                    key_url(),
                                                ) {
                                                    Result::Err(e) => Result::Err(e),
                                                    Result::Ok(url) => Result::Ok(
                                                        ChildView::Bookmark {
                                                            date_added,
                                                            date_last_used,
                                                            date_modified,
                                                            guid,
                                                            id,
                                                            name,
                                                            meta_info,
                                                            type_,
                                                            url,
                                                        },
                                                    ),
                                                },
                                            },
                                        },
                                    },
                                },
                            },
                        },
                    },
                }
            }
        },
        _ => Result::Err(ParseError::WrongType),
    }
}

/// What raising the three roots yields.
pub open spec fn spec_roots_from_json(j: JsonView) -> Result<RootsView, ParseError> {
    match j {
        JsonView::Obj(rfs) => match spec_obj_get(rfs, key_bookmark_bar()) {
            Option::None => Result::Err(ParseError::MissingField),
            Option::Some(bj) => match spec_folder_from_json(bj) {
                Result::Err(e) => Result::Err(e),
                Result::Ok(bookmark_bar) => match spec_obj_get(rfs, key_other()) {
                    Option::None => Result::Err(ParseError::MissingField),
                    Option::Some(oj) => match spec_folder_from_json(oj) {
                        Result::Err(e) => Result::Err(e),
                        Result::Ok(other) => match spec_obj_get(rfs, key_synced()) {
                            Option::None => Result::Err(ParseError::MissingField),
                            Option::Some(sj) => match spec_folder_from_json(sj) {
                                Result::Err(e) => Result::Err(e),
                                Result::Ok(synced) => Result::Ok(
                                    RootsView { bookmark_bar, other, synced },
                                ),
                            },
                        },
                    },
                },
            },
        },
        _ => Result::Err(ParseError::WrongType),
    }
}

/// What raising the whole store yields.
pub open spec fn spec_bookmarks_from_json(j: JsonView) -> Result<BookmarksView, ParseError> {
    match j {
        JsonView::Obj(fs) => match spec_str_field(fs, key_checksum()) {
            Result::Err(e) => Result::Err(e),
            Result::Ok(checksum) => match spec_obj_get(fs, key_roots()) {
                Option::None => Result::Err(ParseError::MissingField),
                Option::Some(rj) => match spec_roots_from_json(rj) {
                    Result::Err(e) => Result::Err(e),
                    Result::Ok(roots) => match spec_str_field(fs, key_sync_metadata()) {
                        Result::Err(e) => Result::Err(e),
                        Result::Ok(sync_metadata) => match spec_int_field(fs, key_version()) {
                            Result::Err(e) => Result::Err(e),
                            Result::Ok(version) => Result::Ok(
                                BookmarksView { checksum, roots, sync_metadata, version },
                            ),
                        },
                    },
                },
            },
        },
        _ => Result::Err(ParseError::WrongType),
    }
}

/// A byte-string result, viewed.
pub open spec fn bytes_res_view(r: Result<Vec<u8>, ParseError>) -> Result<Seq<u8>, ParseError> {
    match r {
        Result::Ok(v) => Result::Ok(v@),
        Result::Err(e) => Result::Err(e),
    }
}

/// An optional byte-string result, viewed.
pub open spec fn opt_bytes_res_view(r: Result<Option<Vec<u8>>, ParseError>) -> Result<
    Option<Seq<u8>>,
    ParseError,
> {
    match r {
        Result::Ok(v) => Result::Ok(opt_bytes_view(v)),
        Result::Err(e) => Result::Err(e),
    }
}

/// An optional metadata result, viewed.
pub open spec fn meta_res_view(r: Result<Option<MetaInfo>, ParseError>) -> Result<
    Option<MetaInfoView>,
    ParseError,
> {
    match r {
        Result::Ok(v) => Result::Ok(opt_meta_view(v)),
        Result::Err(e) => Result::Err(e),
    }
}

/// A folder result, viewed.
pub open spec fn folder_res_view(r: Result<Folder, ParseError>) -> Result<
    FolderView,
    ParseError,
> {
    match r {
        Result::Ok(f) => Result::Ok(folder_view(f)),
        Result::Err(e) => Result::Err(e),
    }
}

/// A child result, viewed.
pub open spec fn child_res_view(r: Result<Child, ParseError>) -> Result<ChildView, ParseError> {
    match r {
        Result::Ok(c) => Result::Ok(child_view(c)),
        Result::Err(e) => Result::Err(e),
    }
}

/// A children result, viewed.
pub open spec fn children_res_view(r: Result<Vec<Child>, ParseError>) -> Result<
    Seq<ChildView>,
    ParseError,
> {
    match r {
        Result::Ok(cs) => Result::Ok(children_view(cs@)),
        Result::Err(e) => Result::Err(e),
    }
}

/// A roots result, viewed.
pub open spec fn roots_res_view(r: Result<Roots, ParseError>) -> Result<RootsView, ParseError> {
    match r {
        Result::Ok(x) => Result::Ok(x@),
        Result::Err(e) => Result::Err(e),
    }
}

/// A store result, viewed.
pub open spec fn bookmarks_res_view(r: Result<Bookmarks, ParseError>) -> Result<
    BookmarksView,
    ParseError,
> {
    match r {
        Result::Ok(x) => Result::Ok(x@),
        Result::Err(e) => Result::Err(e),
    }
}

fn obj_find(fs: &Vec<(Vec<u8>, Json)>, key: &[u8]) -> (r: Option<usize>)
    ensures
        (match r {
            Option::Some(i) => 0 <= i < fs@.len() && fs@[i as int].0@ == key@ && spec_obj_get(
                json_fields_view(fs@),
                key@,
            ) == Option::Some(json_view(fs@[i as int].1)),
            Option::None => spec_obj_get(json_fields_view(fs@), key@) is None,
        }),
{
    let ghost vfs = json_fields_view(fs@);
    proof {
        lemma_json_fields_view_index(fs@);
    }
    let mut i: usize = 0;
    while i < fs.len()
        invariant
            i <= fs.len(),
            vfs == json_fields_view(fs@),
            vfs.len() == fs@.len(),
            forall|j: int| 0 <= j < fs@.len() ==> vfs[j] == (fs@[j].0@, json_view(fs@[j].1)),
            spec_obj_get_from(vfs, key@, 0) == spec_obj_get_from(vfs, key@, i as int),
        decreases fs.len() - i,
    {
        if bytes_eq(fs[i].0.as_slice(), key) {
            return Option::Some(i);
        }
        i += 1;
    }
    Option::None
}

fn get_str_field(fs: &Vec<(Vec<u8>, Json)>, key: &[u8]) -> (r: Result<Vec<u8>, ParseError>)
    ensures
        bytes_res_view(r) == spec_str_field(json_fields_view(fs@), key@),
{
    match obj_find(fs, key) {
        Option::None => Result::Err(ParseError::MissingField),
        Option::Some(i) => match &fs[i].1 {
            Json::Str(s) => Result::Ok(clone_bytes(s)),
            _ => Result::Err(ParseError::WrongType),
        },
    }
}

fn get_opt_str_field(fs: &Vec<(Vec<u8>, Json)>, key: &[u8]) -> (r: Result<
    Option<Vec<u8>>,
    ParseError,
>)
    ensures
        opt_bytes_res_view(r) == spec_opt_str_field(json_fields_view(fs@), key@),
{
    match obj_find(fs, key) {
        Option::None => Result::Ok(Option::None),
        Option::Some(i) => match &fs[i].1 {
            Json::Null => Result::Ok(Option::None),
            Json::Str(s) => Result::Ok(Option::Some(clone_bytes(s))),
            _ => Result::Err(ParseError::WrongType),
        },
    }
}

fn get_int_field(fs: &Vec<(Vec<u8>, Json)>, key: &[u8]) -> (r: Result<i64, ParseError>)
    ensures
        (match r {
            Result::Ok(v) => spec_int_field(json_fields_view(fs@), key@) == Result::Ok::<
                int,
                ParseError,
            >(v as int),
            Result::Err(e) => spec_int_field(json_fields_view(fs@), key@) == Result::Err::<
                int,
                ParseError,
            >(e),
        }),
{
    match obj_find(fs, key) {
        Option::None => Result::Err(ParseError::MissingField),
        Option::Some(i) => match &fs[i].1 {
            Json::Int(v) => Result::Ok(*v),
            _ => Result::Err(ParseError::WrongType),
        },
    }
}

fn get_meta_field(fs: &Vec<(Vec<u8>, Json)>) -> (r: Result<Option<MetaInfo>, ParseError>)
    ensures
        meta_res_view(r) == spec_meta_field(json_fields_view(fs@)),
{
    let key = build_key_meta_info();
    match obj_find(fs, key.as_slice()) {
        Option::None => Result::Ok(Option::None),
        Option::Some(i) => match &fs[i].1 {
            Json::Null => Result::Ok(Option::None),
            Json::Obj(mfs) => {
                let pkey = build_key_power_bookmark_meta();
                match get_str_field(mfs, pkey.as_slice()) {
                    Result::Ok(s) => Result::Ok(Option::Some(MetaInfo { power_bookmark_meta: s })),
                    Result::Err(e) => Result::Err(e),
                }
            },
            _ => Result::Err(ParseError::WrongType),
        },
    }
}

fn get_children_field(fs: &Vec<(Vec<u8>, Json)>, i: usize) -> (r: Result<Vec<Child>, ParseError>)
    requires
        i <= fs@.len(),
    ensures
        children_res_view(r) == spec_children_field(json_fields_view(fs@), i as int),
    decreases *fs, 1int, fs@.len() - i,
{
    proof {
        lemma_json_fields_view_index(fs@);
    }
    if i == fs.len() {
        Result::Err(ParseError::MissingField)
    } else {
        let ckey = build_key_children();
        if bytes_eq(fs[i].0.as_slice(), ckey.as_slice()) {
            match &fs[i].1 {
                Json::Arr(es) => children_from_json(es),
                _ => Result::Err(ParseError::WrongType),
            }
        } else {
            get_children_field(fs, i + 1)
        }
    }
}

/// Raise a folder node into a `Folder`, or say what is wrong with it.
pub fn folder_from_json(j: &Json) -> (r: Result<Folder, ParseError>)
    ensures
        folder_res_view(r) == spec_folder_from_json(json_view(*j)),
    decreases *j, 0int, 0int,
{
    match j {
        Json::Obj(fs) => {
            let children = match get_children_field(fs, 0) {
                Result::Err(e) => {
                    return Result::Err(e);
                },
                Result::Ok(cs) => cs,
            };
            let date_added = match get_str_field(fs, build_key_date_added().as_slice()) {
                Result::Err(e) => {
                    return Result::Err(e);
                },
                Result::Ok(v) => v,
            };
            let date_last_used = match get_str_field(fs, build_key_date_last_used().as_slice()) {
                Result::Err(e) => {
                    return Result::Err(e);
                },
                Result::Ok(v) => v,
            };
            let date_modified = match get_opt_str_field(fs, build_key_date_modified().as_slice()) {
                Result::Err(e) => {
                    return Result::Err(e);
                },
                Result::Ok(v) => v,
            };
            let guid = match get_str_field(fs, build_key_guid().as_slice()) {
                Result::Err(e) => {
                    return Result::Err(e);
                },
                Result::Ok(v) => v,
            };
            let id = match get_str_field(fs, build_key_id().as_slice()) {
                Result::Err(e) => {
                    return Result::Err(e);
                },
                Result::Ok(v) => v,
            };
            let meta_info = match get_meta_field(fs) {
                Result::Err(e) => {
                    return Result::Err(e);
                },
                Result::Ok(v) => v,
            };
            let name = match get_str_field(fs, build_key_name().as_slice()) {
                Result::Err(e) => {
                    return Result::Err(e);
                },
                Result::Ok(v) => v,
            };
            let type_ = match get_str_field(fs, build_key_type().as_slice()) {
                Result::Err(e) => {
                    return Result::Err(e);
                },
                Result::Ok(v) => v,
            };
            let url = match get_opt_str_field(fs, build_key_url().as_slice()) {
                Result::Err(e) => {
                    return Result::Err(e);
                },
                Result::Ok(v) => v,
            };
            Result::Ok(
                Folder {
                    children,
                    date_added,
                    date_last_used,
                    date_modified,
                    guid,
                    id,
                    meta_info,
                    name,
                    type_,
                    url,
                },
            )
        },
        _ => Result::Err(ParseError::WrongType),
    }
}

/// Raise a children array, first fault first.
pub fn children_from_json(es: &Vec<Json>) -> (r: Result<Vec<Child>, ParseError>)
    ensures
        children_res_view(r) == spec_children_from_json(json_elems_view(es@)),
    decreases *es, 2int, 0int,
{
    proof {
        lemma_json_elems_view_index(es@);
    }
    let ghost ves = json_elems_view(es@);
    let mut out: Vec<Child> = Vec::new();
    let mut i: usize = 0;
    proof {
        assert(ves.subrange(0, ves.len() as int) =~= ves);
        assert(children_view(out@) =~= Seq::<ChildView>::empty());
        if spec_children_from_json(ves) is Ok {
            assert(children_view(out@) + spec_children_from_json(ves)->Ok_0
                =~= spec_children_from_json(ves)->Ok_0);
        }
    }
    while i < es.len()
        invariant
            i <= es.len(),
            ves == json_elems_view(es@),
            ves.len() == es@.len(),
            forall|j: int| 0 <= j < es@.len() ==> ves[j] == json_view(es@[j]),
            spec_children_from_json(ves) matches Result::Ok(whole) ==> {
                &&& spec_children_from_json(ves.subrange(i as int, ves.len() as int)) is Ok
                &&& children_view(out@) + spec_children_from_json(
                    ves.subrange(i as int, ves.len() as int),
                )->Ok_0 == whole
            },
            spec_children_from_json(ves) is Err ==> spec_children_from_json(
                ves.subrange(i as int, ves.len() as int),
            ) == spec_children_from_json(ves),
        decreases es.len() - i,
    {
        let ghost suffix = ves.subrange(i as int, ves.len() as int);
        proof {
            assert(suffix.len() > 0);
            assert(suffix[0] == ves[i as int]);
            assert(suffix.subrange(1, suffix.len() as int) =~= ves.subrange(
                i + 1,
                ves.len() as int,
            ));
        }
        match child_from_json(&es[i]) {
            Result::Err(e) => {
                return Result::Err(e);
            },
            Result::Ok(c) => {
                proof {
                    crate::extract::lemma_children_view_snoc(out@, c);
                }
                out.push(c);
            },
        }
        i += 1;
        proof {
            let rest = ves.subrange(i as int, ves.len() as int);
            if spec_children_from_json(ves) is Ok {
                assert(spec_children_from_json(suffix) == Result::Ok::<_, ParseError>(
                    seq![child_view(out@.last())] + spec_children_from_json(rest)->Ok_0,
                ));
                assert(children_view(out@) + spec_children_from_json(rest)->Ok_0
                    =~= spec_children_from_json(ves)->Ok_0);
            }
        }
    }
    proof {
        assert(ves.subrange(i as int, ves.len() as int) =~= Seq::<JsonView>::empty());
        assert(spec_children_from_json(Seq::<JsonView>::empty()) == Result::Ok::<
            Seq<ChildView>,
            ParseError,
        >(Seq::empty()));
        if spec_children_from_json(ves) is Ok {
            assert(children_view(out@) =~= spec_children_from_json(ves)->Ok_0);
        }
    }
    Result::Ok(out)
}

/// Raise one child.  The shape decides the variant; an ambiguous child is
/// refused.
#[verifier::rlimit(60)]
pub fn child_from_json(j: &Json) -> (r: Result<Child, ParseError>)
    ensures
        child_res_view(r) == spec_child_from_json(json_view(*j)),
    decreases *j, 3int, 0int,
{
    match j {
        Json::Obj(fs) => {
            let has_children = match obj_find(fs, build_key_children().as_slice()) {
                Option::Some(i) => matches!(&fs[i].1, Json::Arr(_)),
                Option::None => false,
            };
            let has_url = match obj_find(fs, build_key_url().as_slice()) {
                Option::Some(i) => matches!(&fs[i].1, Json::Str(_)),
                Option::None => false,
            };
            if has_children == has_url {
                Result::Err(ParseError::AmbiguousChild)
            } else if has_children {
                match folder_from_json(j) {
                    Result::Err(e) => Result::Err(e),
                    Result::Ok(f) => Result::Ok(Child::Folder(f)),
                }
            } else {
                let date_added = match get_str_field(fs, build_key_date_added().as_slice()) {
                    Result::Err(e) => {
                        return Result::Err(e);
                    },
                    Result::Ok(v) => v,
                };
                let date_last_used = match get_str_field(
                    fs,
                    build_key_date_last_used().as_slice(),
                ) {
                    Result::Err(e) => {
                        return Result::Err(e);
                    },
                    Result::Ok(v) => v,
                };
                let date_modified = match get_opt_str_field(
                    fs,
                    build_key_date_modified().as_slice(),
                ) {
                    Result::Err(e) => {
                        return Result::Err(e);
                    },
                    Result::Ok(v) => v,
                };
                let guid = match get_str_field(fs, build_key_guid().as_slice()) {
                    Result::Err(e) => {
                        return Result::Err(e);
                    },
                    Result::Ok(v) => v,
                };
                let id = match get_str_field(fs, build_key_id().as_slice()) {
                    Result::Err(e) => {
                        return Result::Err(e);
                    },
                    Result::Ok(v) => v,
                };
                let meta_info = match get_meta_field(fs) {
                    Result::Err(e) => {
                        return Result::Err(e);
                    },
                    Result::Ok(v) => v,
                };
                let name = match get_str_field(fs, build_key_name().as_slice()) {
                    Result::Err(e) => {
                        return Result::Err(e);
                    },
                    Result::Ok(v) => v,
                };
                let type_ = match get_str_field(fs, build_key_type().as_slice()) {
                    Result::Err(e) => {
                        return Result::Err(e);
                    },
                    Result::Ok(v) => v,
                };
                let url = match get_str_field(fs, build_key_url().as_slice()) {
                    Result::Err(e) => {
                        return Result::Err(e);
                    },
                    Result::Ok(v) => v,
                };
                Result::Ok(
                    Child::Bookmark {
                        date_added,
                        date_last_used,
                        date_modified,
                        guid,
                        id,
                        name,
                        meta_info,
                        type_,
                        url,
                    },
                )
            }
        },
        _ => Result::Err(ParseError::WrongType),
    }
}

/// Raise the three roots.
pub fn roots_from_json(j: &Json) -> (r: Result<Roots, ParseError>)
    ensures
        roots_res_view(r) == spec_roots_from_json(json_view(*j)),
{
    match j {
        Json::Obj(rfs) => {
            let bookmark_bar = match obj_find(rfs, build_key_bookmark_bar().as_slice()) {
                Option::None => {
                    return Result::Err(ParseError::MissingField);
                },
                Option::Some(i) => match folder_from_json(&rfs[i].1) {
                    Result::Err(e) => {
                        return Result::Err(e);
                    },
                    Result::Ok(f) => f,
                },
            };
            let other = match obj_find(rfs, build_key_other().as_slice()) {
                Option::None => {
                    return Result::Err(ParseError::MissingField);
                },
                Option::Some(i) => match folder_from_json(&rfs[i].1) {
                    Result::Err(e) => {
                        return Result::Err(e);
                    },
                    Result::Ok(f) => f,
                },
            };
            let synced = match obj_find(rfs, build_key_synced().as_slice()) {
                Option::None => {
                    return Result::Err(ParseError::MissingField);
                },
                Option::Some(i) => match folder_from_json(&rfs[i].1) {
                    Result::Err(e) => {
                        return Result::Err(e);
                    },
                    Result::Ok(f) => f,
                },
            };
            Result::Ok(Roots { bookmark_bar, other, synced })
        },
        _ => Result::Err(ParseError::WrongType),
    }
}

/// Raise the whole store document.
pub fn bookmarks_from_json(j: &Json) -> (r: Result<Bookmarks, ParseError>)
    ensures
        bookmarks_res_view(r) == spec_bookmarks_from_json(json_view(*j)),
{
    match j {
        Json::Obj(fs) => {
            let checksum = match get_str_field(fs, build_key_checksum().as_slice()) {
                Result::Err(e) => {
                    return Result::Err(e);
                },
                Result::Ok(v) => v,
            };
            let roots = match obj_find(fs, build_key_roots().as_slice()) {
                Option::None => {
                    return Result::Err(ParseError::MissingField);
                },
                Option::Some(i) => match roots_from_json(&fs[i].1) {
                    Result::Err(e) => {
                        return Result::Err(e);
                    },
                    Result::Ok(r) => r,
                },
            };
            let sync_metadata = match get_str_field(fs, build_key_sync_metadata().as_slice()) {
                Result::Err(e) => {
                    return Result::Err(e);
                },
                Result::Ok(v) => v,
            };
            let version = match get_int_field(fs, build_key_version().as_slice()) {
                Result::Err(e) => {
                    return Result::Err(e);
                },
                Result::Ok(v) => v,
            };
            Result::Ok(Bookmarks { checksum, roots, sync_metadata, version })
        },
        _ => Result::Err(ParseError::WrongType),
    }
}

proof fn lemma_keys_distinct()
    ensures
        key_children() != key_date_added(),
        key_children() != key_date_last_used(),
        key_children() != key_date_modified(),
        key_children() != key_guid(),
        key_children() != key_id(),
        key_children() != key_meta_info(),
        key_children() != key_name(),
        key_children() != key_type(),
        key_children() != key_url(),
        key_date_added() != key_date_last_used(),
        key_date_added() != key_date_modified(),
        key_date_added() != key_guid(),
        key_date_added() != key_id(),
        key_date_added() != key_meta_info(),
        key_date_added() != key_name(),
        key_date_added() != key_type(),
        key_date_added() != key_url(),
        key_date_last_used() != key_date_modified(),
        key_date_last_used() != key_guid(),
        key_date_last_used() != key_id(),
        key_date_last_used() != key_meta_info(),
        key_date_last_used() != key_name(),
        key_date_last_used() != key_type(),
        key_date_last_used() != key_url(),
        key_date_modified() != key_guid(),
        key_date_modified() != key_id(),
        key_date_modified() != key_meta_info(),
        key_date_modified() != key_name(),
        key_date_modified() != key_type(),
        key_date_modified() != key_url(),
        key_guid() != key_id(),
        key_guid() != key_meta_info(),
        key_guid() != key_name(),
        key_guid() != key_type(),
        key_guid() != key_url(),
        key_id() != key_meta_info(),
        key_id() != key_name(),
        key_id() != key_type(),
        key_id() != key_url(),
        key_meta_info() != key_name(),
        key_meta_info() != key_type(),
        key_meta_info() != key_url(),
        key_name() != key_type(),
        key_name() != key_url(),
        key_type() != key_url(),
        key_checksum() != key_roots(),
        key_checksum() != key_sync_metadata(),
        key_checksum() != key_version(),
        key_roots() != key_sync_metadata(),
        key_roots() != key_version(),
        key_sync_metadata() != key_version(),
        key_bookmark_bar() != key_other(),
        key_bookmark_bar() != key_synced(),
        key_other() != key_synced(),
{
    assert(key_children().len() == 8);
    assert(key_date_added().len() == 10);
    assert(key_date_last_used().len() == 14);
    assert(key_date_modified().len() == 13);
    assert(key_guid().len() == 4);
    assert(key_id().len() == 2);
    assert(key_meta_info().len() == 9);
    assert(key_name().len() == 4);
    assert(key_type().len() == 4);
    assert(key_url().len() == 3);
    assert(key_guid()[0] == 103);
    assert(key_name()[0] == 110);
    assert(key_type()[0] == 116);
    assert(key_checksum().len() == 8);
    assert(key_roots().len() == 5);
    assert(key_sync_metadata().len() == 13);
    assert(key_version().len() == 7);
    assert(key_bookmark_bar().len() == 12);
    assert(key_other().len() == 5);
    assert(key_synced().len() == 6);
}

/// Law: raising a well-formed folder's document form gives the folder
/// back, every attribute and every descendant alike.
pub proof fn lemma_folder_round_trip(f: FolderView)
    requires
        wf_folder(f),
    ensures
        spec_folder_from_json(spec_folder_to_json(f)) == Result::Ok::<FolderView, ParseError>(f),
    decreases f, 0int, 0int,
{
    lemma_keys_distinct();
    reveal_with_fuel(spec_obj_get_from, 12);
    let j = spec_folder_to_json(f);
    let fs = j->Obj_0;
    assert(spec_obj_get(fs, key_children()) == Option::Some(
        JsonView::Arr(spec_children_to_json(f.children)),
    ));
    assert(spec_obj_get(fs, key_date_added()) == Option::Some(JsonView::Str(f.date_added)));
    assert(spec_obj_get(fs, key_date_last_used()) == Option::Some(
        JsonView::Str(f.date_last_used),
    ));
    assert(spec_obj_get(fs, key_date_modified()) == Option::Some(
        spec_opt_str_json(f.date_modified),
    ));
    assert(spec_obj_get(fs, key_guid()) == Option::Some(JsonView::Str(f.guid)));
    assert(spec_obj_get(fs, key_id()) == Option::Some(JsonView::Str(f.id)));
    assert(spec_obj_get(fs, key_meta_info()) == Option::Some(spec_opt_meta_json(f.meta_info)));
    assert(spec_obj_get(fs, key_name()) == Option::Some(JsonView::Str(f.name)));
    assert(spec_obj_get(fs, key_type()) == Option::Some(JsonView::Str(f.type_)));
    assert(spec_obj_get(fs, key_url()) == Option::Some(spec_opt_str_json(f.url)));
    match f.meta_info {
        Option::None => {
            assert(spec_meta_field(fs) == Result::Ok::<Option<MetaInfoView>, ParseError>(
                Option::None,
            ));
        },
        Option::Some(m) => {
            let mfs = spec_meta_json(m)->Obj_0;
            assert(spec_obj_get(mfs, key_power_bookmark_meta()) == Option::Some(
                JsonView::Str(m.power_bookmark_meta),
            ));
            assert(MetaInfoView { power_bookmark_meta: m.power_bookmark_meta } == m);
            assert(spec_meta_field(fs) == Result::Ok::<Option<MetaInfoView>, ParseError>(
                Option::Some(m),
            ));
        },
    }
    assert(fs[0].0 == key_children());
    lemma_children_round_trip(f.children);
    assert(spec_children_field(fs, 0) == Result::Ok::<Seq<ChildView>, ParseError>(f.children));
    assert(spec_folder_rest(fs, f.children) == Result::Ok::<FolderView, ParseError>(f));
}

/// Law: raising the document form of a well-formed children sequence
/// gives the sequence back, in order.
pub proof fn lemma_children_round_trip(cs: Seq<ChildView>)
    requires
        wf_children(cs),
    ensures
        spec_children_from_json(spec_children_to_json(cs)) == Result::Ok::<
            Seq<ChildView>,
            ParseError,
        >(cs),
    decreases cs, 2int, 0int,
{
    let es = spec_children_to_json(cs);
    if cs.len() == 0 {
        assert(es =~= Seq::<JsonView>::empty());
        assert(spec_children_from_json(es) == Result::Ok::<Seq<ChildView>, ParseError>(
            Seq::empty(),
        ));
        assert(cs =~= Seq::<ChildView>::empty());
    } else {
        let rest = cs.subrange(1, cs.len() as int);
        let rest_json = spec_children_to_json(rest);
        assert(es[0] == spec_child_to_json(cs[0]));
        assert(es.subrange(1, es.len() as int) =~= rest_json);
        lemma_child_round_trip(cs[0]);
        lemma_children_round_trip(rest);
        assert(spec_children_from_json(es) == Result::Ok::<Seq<ChildView>, ParseError>(
            seq![cs[0]] + rest,
        ));
        assert(seq![cs[0]] + rest =~= cs);
    }
}

/// Law: raising the document form of a well-formed child gives the child
/// back, with the same variant.
pub proof fn lemma_child_round_trip(c: ChildView)
    requires
        wf_child(c),
    ensures
        spec_child_from_json(spec_child_to_json(c)) == Result::Ok::<ChildView, ParseError>(c),
    decreases c, 3int, 0int,
{
    lemma_keys_distinct();
    reveal_with_fuel(spec_obj_get_from, 12);
    match c {
        ChildView::Folder(f) => {
            let j = spec_folder_to_json(f);
            let fs = j->Obj_0;
            assert(spec_obj_get(fs, key_children()) == Option::Some(
                JsonView::Arr(spec_children_to_json(f.children)),
            ));
            assert(spec_obj_get(fs, key_url()) == Option::Some(spec_opt_str_json(f.url)));
            assert(f.url is None);
            lemma_folder_round_trip(f);
        },
        ChildView::Bookmark {
            date_added,
            date_last_used,
            date_modified,
            guid,
            id,
            name,
            meta_info,
            type_,
            url,
        } => {
            let j = spec_child_to_json(c);
            let fs = j->Obj_0;
            assert(spec_obj_get(fs, key_children()) is None);
            assert(spec_obj_get(fs, key_url()) == Option::Some(JsonView::Str(url)));
            assert(spec_obj_get(fs, key_date_added()) == Option::Some(JsonView::Str(date_added)));
            assert(spec_obj_get(fs, key_date_last_used()) == Option::Some(
                JsonView::Str(date_last_used),
            ));
            assert(spec_obj_get(fs, key_date_modified()) == Option::Some(
                spec_opt_str_json(date_modified),
            ));
            assert(spec_obj_get(fs, key_guid()) == Option::Some(JsonView::Str(guid)));
            assert(spec_obj_get(fs, key_id()) == Option::Some(JsonView::Str(id)));
            assert(spec_obj_get(fs, key_meta_info()) == Option::Some(
                spec_opt_meta_json(meta_info),
            ));
            assert(spec_obj_get(fs, key_name()) == Option::Some(JsonView::Str(name)));
            assert(spec_obj_get(fs, key_type()) == Option::Some(JsonView::Str(type_)));
            match meta_info {
                Option::None => {
                    assert(spec_meta_field(fs) == Result::Ok::<Option<MetaInfoView>, ParseError>(
                        Option::None,
                    ));
                },
                Option::Some(m) => {
                    let mfs = spec_meta_json(m)->Obj_0;
                    assert(spec_obj_get(mfs, key_power_bookmark_meta()) == Option::Some(
                        JsonView::Str(m.power_bookmark_meta),
                    ));
                    assert(MetaInfoView { power_bookmark_meta: m.power_bookmark_meta } == m);
                    assert(spec_meta_field(fs) == Result::Ok::<Option<MetaInfoView>, ParseError>(
                        Option::Some(m),
                    ));
                },
            }
            assert(spec_child_from_json(j) == Result::Ok::<ChildView, ParseError>(c));
        },
    }
}

/// Law: raising the document form of well-formed roots gives them back.
pub proof fn lemma_roots_round_trip(r: RootsView)
    requires
        wf_roots(r),
    ensures
        spec_roots_from_json(spec_roots_to_json(r)) == Result::Ok::<RootsView, ParseError>(r),
{
    lemma_keys_distinct();
    reveal_with_fuel(spec_obj_get_from, 5);
    let rfs = spec_roots_to_json(r)->Obj_0;
    assert(spec_obj_get(rfs, key_bookmark_bar()) == Option::Some(
        spec_folder_to_json(r.bookmark_bar),
    ));
    assert(spec_obj_get(rfs, key_other()) == Option::Some(spec_folder_to_json(r.other)));
    assert(spec_obj_get(rfs, key_synced()) == Option::Some(spec_folder_to_json(r.synced)));
    lemma_folder_round_trip(r.bookmark_bar);
    lemma_folder_round_trip(r.other);
    lemma_folder_round_trip(r.synced);
    assert(RootsView { bookmark_bar: r.bookmark_bar, other: r.other, synced: r.synced } == r);
}

/// Law: lowering a well-formed store to its document form and raising it
/// again gives the store back — every field value, the order of every
/// children sequence, and the presence or absence of every optional field
/// are preserved.
pub proof fn lemma_bookmarks_round_trip(t: BookmarksView)
    requires
        wf_bookmarks(t),
    ensures
        spec_bookmarks_from_json(spec_bookmarks_to_json(t)) == Result::Ok::<
            BookmarksView,
            ParseError,
        >(t),
{
    lemma_keys_distinct();
    reveal_with_fuel(spec_obj_get_from, 6);
    let fs = spec_bookmarks_to_json(t)->Obj_0;
    assert(spec_obj_get(fs, key_checksum()) == Option::Some(JsonView::Str(t.checksum)));
    assert(spec_obj_get(fs, key_roots()) == Option::Some(spec_roots_to_json(t.roots)));
    assert(spec_obj_get(fs, key_sync_metadata()) == Option::Some(JsonView::Str(t.sync_metadata)));
    assert(spec_obj_get(fs, key_version()) == Option::Some(JsonView::Int(t.version)));
    lemma_roots_round_trip(t.roots);
    assert(BookmarksView {
        checksum: t.checksum,
        roots: t.roots,
        sync_metadata: t.sync_metadata,
        version: t.version,
    } == t);
}

/// Law: a child document with both a children sequence and a URL string,
/// or neither, is refused as structurally ambiguous.
pub proof fn lemma_ambiguous_child_rejected(fs: Seq<(Seq<u8>, JsonView)>)
    ensures
        ((spec_obj_get(fs, key_children()) matches Option::Some(JsonView::Arr(_))) == (
        spec_obj_get(fs, key_url()) matches Option::Some(JsonView::Str(_))))
            ==> spec_child_from_json(JsonView::Obj(fs)) == Result::Err::<ChildView, ParseError>(
            ParseError::AmbiguousChild,
        ),
{
}

/// The output of one extraction, as the poll monitor writes it: the
/// bookmark list rendered as a JSON array.
pub open spec fn spec_serialize_children(cs: Seq<ChildView>) -> Seq<u8> {
    crate::json::spec_render(JsonView::Arr(spec_children_to_json(cs)))
}

/// Render a bookmark list as a JSON array.
pub fn serialize_children(cs: &Vec<Child>) -> (out: Vec<u8>)
    ensures
        out@ == spec_serialize_children(children_view(cs@)),
{
    let es = children_to_json(cs);
    let j = Json::Arr(es);
    crate::json::render_json(&j)
}

/// A whole store, rendered back to document text.
pub open spec fn spec_serialize_bookmarks(t: BookmarksView) -> Seq<u8> {
    crate::json::spec_render(spec_bookmarks_to_json(t))
}

/// Render a whole store back to document text.
pub fn serialize_bookmarks(t: &Bookmarks) -> (out: Vec<u8>)
    ensures
        out@ == spec_serialize_bookmarks(t@),
{
    let j = bookmarks_to_json(t);
    crate::json::render_json(&j)
}

/// What parsing document text into a store yields.
pub open spec fn spec_parse_bookmarks(s: Seq<u8>) -> Result<BookmarksView, ParseError> {
    match crate::parse::spec_parse_json(s) {
        Result::Err(e) => Result::Err(e),
        Result::Ok(j) => spec_bookmarks_from_json(j),
    }
}

/// Parse document text into a store: JSON syntax first, then the schema.
pub fn parse_bookmarks(s: &[u8]) -> (r: Result<Bookmarks, ParseError>)
    requires
        2 * s@.len() + 2 <= usize::MAX,
    ensures
        bookmarks_res_view(r) == spec_parse_bookmarks(s@),
{
    match crate::parse::parse_json(s) {
        Result::Err(e) => Result::Err(e),
        Result::Ok(j) => bookmarks_from_json(&j),
    }
}

/// What one poll-detected change produces from the file's bytes: parse
/// the store, extract the captured bookmarks of the bookmark bar, and
/// render them — or the first fault of the document.
pub open spec fn spec_process(s: Seq<u8>) -> Result<Seq<u8>, ParseError> {
    match spec_parse_bookmarks(s) {
        Result::Err(e) => Result::Err(e),
        Result::Ok(t) => Result::Ok(
            spec_serialize_children(crate::extract::spec_extract(t.roots.bookmark_bar)),
        ),
    }
}

/// The poll monitor's whole computing step, from file bytes to output
/// bytes.
pub fn process_bookmarks(input: &[u8]) -> (r: Result<Vec<u8>, ParseError>)
    requires
        2 * input@.len() + 2 <= usize::MAX,
    ensures
        bytes_res_view(r) == spec_process(input@),
{
    match parse_bookmarks(input) {
        Result::Err(e) => Result::Err(e),
        Result::Ok(t) => {
            let captured = crate::extract::extract_bookmarks(&t.roots.bookmark_bar);
            Result::Ok(serialize_children(&captured))
        },
    }
}

} // verus!
