//! In-memory model of the bookmark store.
//!
//! All textual attributes are kept as raw bytes: the document on disk is a
//! byte sequence, and nothing in the extraction logic needs to interpret
//! them beyond equality.  `Child` is an explicit tagged union: a child of a
//! folder is either itself a folder (it has a children sequence) or a
//! bookmark (it has a URL), never both and never neither; the codec
//! enforces that shape when it builds a tree.

use vstd::prelude::*;

verus! {

/// Optional extension-metadata blob attached to a folder or bookmark.
#[derive(Debug, PartialEq, Eq)]
pub struct MetaInfo {
    pub power_bookmark_meta: Vec<u8>,
}

/// A named folder: an ordered children sequence plus identity attributes.
#[derive(Debug, PartialEq, Eq)]
pub struct Folder {
    pub children: Vec<Child>,
    pub date_added: Vec<u8>,
    pub date_last_used: Vec<u8>,
    pub date_modified: Option<Vec<u8>>,
    pub guid: Vec<u8>,
    pub id: Vec<u8>,
    pub meta_info: Option<MetaInfo>,
    pub name: Vec<u8>,
    pub type_: Vec<u8>,
    pub url: Option<Vec<u8>>,
}

/// One entry of a folder's children sequence.
#[derive(Debug, PartialEq, Eq)]
pub enum Child {
    Folder(Folder),
    Bookmark {
        date_added: Vec<u8>,
        date_last_used: Vec<u8>,
        date_modified: Option<Vec<u8>>,
        guid: Vec<u8>,
        id: Vec<u8>,
        name: Vec<u8>,
        meta_info: Option<MetaInfo>,
        type_: Vec<u8>,
        url: Vec<u8>,
    },
}

/// The three fixed roots of the store.
#[derive(Debug, PartialEq, Eq)]
pub struct Roots {
    pub bookmark_bar: Folder,
    pub other: Folder,
    pub synced: Folder,
}

/// The whole bookmark store.
#[derive(Debug, PartialEq, Eq)]
pub struct Bookmarks {
    pub checksum: Vec<u8>,
    pub roots: Roots,
    pub sync_metadata: Vec<u8>,
    pub version: i64,
}

/// Mathematical model of `MetaInfo`.
pub struct MetaInfoView {
    pub power_bookmark_meta: Seq<u8>,
}

/// Mathematical model of `Folder`.
pub struct FolderView {
    pub children: Seq<ChildView>,
    pub date_added: Seq<u8>,
    pub date_last_used: Seq<u8>,
    pub date_modified: Option<Seq<u8>>,
    pub guid: Seq<u8>,
    pub id: Seq<u8>,
    pub meta_info: Option<MetaInfoView>,
    pub name: Seq<u8>,
    pub type_: Seq<u8>,
    pub url: Option<Seq<u8>>,
}

/// Mathematical model of `Child`.
pub enum ChildView {
    Folder(FolderView),
    Bookmark {
        date_added: Seq<u8>,
        date_last_used: Seq<u8>,
        date_modified: Option<Seq<u8>>,
        guid: Seq<u8>,
        id: Seq<u8>,
        name: Seq<u8>,
        meta_info: Option<MetaInfoView>,
        type_: Seq<u8>,
        url: Seq<u8>,
    },
}

/// Mathematical model of `Roots`.
pub struct RootsView {
    pub bookmark_bar: FolderView,
    pub other: FolderView,
    pub synced: FolderView,
}

/// Mathematical model of `Bookmarks`.
pub struct BookmarksView {
    pub checksum: Seq<u8>,
    pub roots: RootsView,
    pub sync_metadata: Seq<u8>,
    pub version: int,
}

pub open spec fn opt_bytes_view(o: Option<Vec<u8>>) -> Option<Seq<u8>> {
    match o {
        Option::None => Option::None,
        Option::Some(v) => Option::Some(v@),
    }
}

pub open spec fn opt_meta_view(o: Option<MetaInfo>) -> Option<MetaInfoView> {
    match o {
        Option::None => Option::None,
        Option::Some(m) => Option::Some(m@),
    }
}

pub open spec fn children_view(cs: Seq<Child>) -> Seq<ChildView>
    decreases cs,
{
    if cs.len() == 0 {
        Seq::empty()
    } else {
        seq![child_view(cs[0])] + children_view(cs.subrange(1, cs.len() as int))
    }
}

pub open spec fn folder_view(f: Folder) -> FolderView
    decreases f,
{
    FolderView {
        children: children_view(f.children@),
        date_added: f.date_added@,
        date_last_used: f.date_last_used@,
        date_modified: opt_bytes_view(f.date_modified),
        guid: f.guid@,
        id: f.id@,
        meta_info: opt_meta_view(f.meta_info),
        name: f.name@,
        type_: f.type_@,
        url: opt_bytes_view(f.url),
    }
}

pub open spec fn child_view(c: Child) -> ChildView
    decreases c,
{
    match c {
        Child::Folder(f) => ChildView::Folder(folder_view(f)),
        Child::Bookmark {
            date_added,
            date_last_used,
            date_modified,
            guid,
            id,
            name,
            meta_info,
            type_,
            url,
        } => ChildView::Bookmark {
            date_added: date_added@,
            date_last_used: date_last_used@,
            date_modified: opt_bytes_view(date_modified),
            guid: guid@,
            id: id@,
            name: name@,
            meta_info: opt_meta_view(meta_info),
            type_: type_@,
            url: url@,
        },
    }
}

impl View for MetaInfo {
    type V = MetaInfoView;

    open spec fn view(&self) -> MetaInfoView {
        MetaInfoView { power_bookmark_meta: self.power_bookmark_meta@ }
    }
}

impl View for Folder {
    type V = FolderView;

    open spec fn view(&self) -> FolderView {
        folder_view(*self)
    }
}

impl View for Child {
    type V = ChildView;

    open spec fn view(&self) -> ChildView {
        child_view(*self)
    }
}

impl View for Roots {
    type V = RootsView;

    open spec fn view(&self) -> RootsView {
        RootsView {
            bookmark_bar: self.bookmark_bar@,
            other: self.other@,
            synced: self.synced@,
        }
    }
}

impl View for Bookmarks {
    type V = BookmarksView;

    open spec fn view(&self) -> BookmarksView {
        BookmarksView {
            checksum: self.checksum@,
            roots: self.roots@,
            sync_metadata: self.sync_metadata@,
            version: self.version as int,
        }
    }
}

/// Well-formedness of one child: a folder appearing as a child carries no
/// URL of its own, there as everywhere below it.
pub open spec fn wf_child(c: ChildView) -> bool
    decreases c,
{
    match c {
        ChildView::Folder(f) => f.url is None && wf_folder(f),
        ChildView::Bookmark { .. } => true,
    }
}

/// Well-formedness of a children sequence.
pub open spec fn wf_children(cs: Seq<ChildView>) -> bool
    decreases cs,
{
    if cs.len() == 0 {
        true
    } else {
        wf_child(cs[0]) && wf_children(cs.subrange(1, cs.len() as int))
    }
}

/// Well-formedness of a folder: all its children are well-formed.  The
/// folder's own URL is unconstrained; only folders in child position
/// must lack one.
pub open spec fn wf_folder(f: FolderView) -> bool
    decreases f,
{
    wf_children(f.children)
}

/// Well-formedness of the roots.
pub open spec fn wf_roots(r: RootsView) -> bool {
    wf_folder(r.bookmark_bar) && wf_folder(r.other) && wf_folder(r.synced)
}

/// Well-formedness of the whole store.
pub open spec fn wf_bookmarks(t: BookmarksView) -> bool {
    wf_roots(t.roots)
}

} // verus!
