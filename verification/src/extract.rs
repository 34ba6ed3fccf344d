//! The bookmark extractor.
//!
//! `extract_bookmarks` walks a folder's children depth-first, in order.  A
//! bookmark child goes straight into the output, whatever the enclosing
//! folder is called.  A folder child is opened only if its name is exactly
//! "capture"; any other folder is skipped whole, however promising its
//! contents.  The output is therefore a flat, ordered list of bookmarks.

use vstd::prelude::*;

use crate::tree::Child;
use crate::tree::ChildView;
use crate::tree::Folder;
use crate::tree::FolderView;
use crate::tree::child_view;
use crate::tree::children_view;
use crate::tree::folder_view;

verus! {

/// The byte string "capture", the one folder name the extractor opens.
pub open spec fn capture_name() -> Seq<u8> {
    seq![99u8, 97u8, 112u8, 116u8, 117u8, 114u8, 101u8]
}

/// What extraction returns for a whole folder.
pub open spec fn spec_extract(f: FolderView) -> Seq<ChildView>
    decreases f,
{
    spec_extract_children(f.children)
}

/// What extraction returns for a children sequence, front to back.
pub open spec fn spec_extract_children(cs: Seq<ChildView>) -> Seq<ChildView>
    decreases cs,
{
    if cs.len() == 0 {
        Seq::empty()
    } else {
        spec_extract_child(cs[0]) + spec_extract_children(cs.subrange(1, cs.len() as int))
    }
}

/// What one child contributes to the extraction of its parent.
pub open spec fn spec_extract_child(c: ChildView) -> Seq<ChildView>
    decreases c,
{
    match c {
        ChildView::Folder(f) => if f.name == capture_name() {
            spec_extract_children(f.children)
        } else {
            Seq::empty()
        },
        ChildView::Bookmark { .. } => seq![c],
    }
}

proof fn lemma_extract_children_snoc(cs: Seq<ChildView>, c: ChildView)
    ensures
        spec_extract_children(cs.push(c)) == spec_extract_children(cs) + spec_extract_child(c),
    decreases cs.len(),
{
    let whole = cs.push(c);
    if cs.len() == 0 {
        assert(whole[0] == c);
        assert(whole.subrange(1, whole.len() as int) =~= Seq::<ChildView>::empty());
        assert(spec_extract_children(Seq::<ChildView>::empty()) =~= Seq::<ChildView>::empty());
        assert(spec_extract_children(whole) == spec_extract_child(c) + spec_extract_children(
            whole.subrange(1, whole.len() as int),
        ));
        assert(spec_extract_children(cs) =~= Seq::<ChildView>::empty());
        assert(spec_extract_children(cs.push(c)) =~= spec_extract_children(cs)
            + spec_extract_child(c));
    } else {
        assert(whole[0] == cs[0]);
        assert(whole.subrange(1, whole.len() as int) =~= cs.subrange(1, cs.len() as int).push(c));
        lemma_extract_children_snoc(cs.subrange(1, cs.len() as int), c);
        assert(spec_extract_children(cs.push(c)) =~= spec_extract_children(cs)
            + spec_extract_child(c));
    }
}

pub(crate) proof fn lemma_children_view_snoc(cs: Seq<Child>, c: Child)
    ensures
        children_view(cs.push(c)) == children_view(cs).push(child_view(c)),
    decreases cs.len(),
{
    let whole = cs.push(c);
    if cs.len() == 0 {
        assert(whole[0] == c);
        assert(whole.subrange(1, whole.len() as int) =~= Seq::<Child>::empty());
        assert(children_view(Seq::<Child>::empty()) =~= Seq::<ChildView>::empty());
        assert(children_view(whole) == seq![child_view(c)] + children_view(
            whole.subrange(1, whole.len() as int),
        ));
        assert(children_view(cs) =~= Seq::<ChildView>::empty());
        assert(children_view(cs.push(c)) =~= children_view(cs).push(child_view(c)));
    } else {
        assert(whole[0] == cs[0]);
        assert(whole.subrange(1, whole.len() as int) =~= cs.subrange(1, cs.len() as int).push(c));
        lemma_children_view_snoc(cs.subrange(1, cs.len() as int), c);
        assert(children_view(cs.push(c)) =~= children_view(cs).push(child_view(c)));
    }
}

pub(crate) proof fn lemma_children_view_index(cs: Seq<Child>)
    ensures
        children_view(cs).len() == cs.len(),
        forall|i: int| 0 <= i < cs.len() ==> children_view(cs)[i] == child_view(cs[i]),
    decreases cs.len(),
{
    if cs.len() > 0 {
        lemma_children_view_index(cs.subrange(1, cs.len() as int));
    }
}

/// Byte-for-byte equality of two byte slices.
pub(crate) fn bytes_eq(a: &[u8], b: &[u8]) -> (r: bool)
    ensures
        r == (a@ == b@),
{
    if a.len() != b.len() {
        assert(a@ != b@);
        return false;
    }
    let mut i: usize = 0;
    while i < a.len()
        invariant
            i <= a.len(),
            a.len() == b.len(),
            forall|j: int| 0 <= j < i ==> a@[j] == b@[j],
        decreases a.len() - i,
    {
        if a[i] != b[i] {
            return false;
        }
        i += 1;
    }
    assert(a@ =~= b@);
    true
}

/// Whether a folder name is exactly "capture".
fn is_capture_name(name: &Vec<u8>) -> (r: bool)
    ensures
        r == (name@ == capture_name()),
{
    let cap: [u8; 7] = [99u8, 97u8, 112u8, 116u8, 117u8, 114u8, 101u8];
    let r = bytes_eq(name.as_slice(), cap.as_slice());
    assert(cap@ =~= capture_name());
    r
}

pub(crate) fn clone_bytes(v: &Vec<u8>) -> (r: Vec<u8>)
    ensures
        r@ == v@,
{
    let mut r: Vec<u8> = Vec::new();
    let mut i: usize = 0;
    while i < v.len()
        invariant
            i <= v.len(),
            r@ == v@.subrange(0, i as int),
        decreases v.len() - i,
    {
        r.push(v[i]);
        i += 1;
        assert(r@ =~= v@.subrange(0, i as int));
    }
    assert(r@ =~= v@);
    r
}

pub(crate) fn clone_opt_bytes(o: &Option<Vec<u8>>) -> (r: Option<Vec<u8>>)
    ensures
        crate::tree::opt_bytes_view(r) == crate::tree::opt_bytes_view(*o),
{
    match o {
        Option::None => Option::None,
        Option::Some(v) => Option::Some(clone_bytes(v)),
    }
}

pub(crate) fn clone_opt_meta(o: &Option<crate::tree::MetaInfo>) -> (r: Option<crate::tree::MetaInfo>)
    ensures
        crate::tree::opt_meta_view(r) == crate::tree::opt_meta_view(*o),
{
    match o {
        Option::None => Option::None,
        Option::Some(m) => Option::Some(
            crate::tree::MetaInfo { power_bookmark_meta: clone_bytes(&m.power_bookmark_meta) },
        ),
    }
}

/// Collect, in depth-first encounter order, every bookmark reachable from
/// `folder` through "capture" folders alone, plus the bookmarks lying
/// directly in `folder` itself.
pub fn extract_bookmarks(folder: &Folder) -> (out: Vec<Child>)
    ensures
        children_view(out@) == spec_extract(folder@),
    decreases *folder,
{
    let mut out: Vec<Child> = Vec::new();
    let ghost cs = folder@.children;
    proof {
        lemma_children_view_index(folder.children@);
    }
    let mut i: usize = 0;
    while i < folder.children.len()
        invariant
            i <= folder.children.len(),
            cs == folder@.children,
            cs == children_view(folder.children@),
            cs.len() == folder.children@.len(),
            forall|j: int| 0 <= j < cs.len() ==> cs[j] == child_view(folder.children@[j]),
            children_view(out@) == spec_extract_children(cs.subrange(0, i as int)),
        decreases folder.children.len() - i,
    {
        let ghost prefix = cs.subrange(0, i as int);
        let child = &folder.children[i];
        assert(child_view(*child) == cs[i as int]);
        match child {
            Child::Folder(f) => {
                if is_capture_name(&f.name) {
                    let mut sub = extract_bookmarks(f);
                    proof {
                        lemma_children_view_concat(out@, sub@);
                    }
                    out.append(&mut sub);
                    assert(spec_extract_child(cs[i as int]) == spec_extract(folder_view(*f)));
                } else {
                    assert(spec_extract_child(cs[i as int]) =~= Seq::<ChildView>::empty());
                }
            },
            Child::Bookmark {
                date_added,
                date_last_used,
                date_modified,
                guid,
                id,
                name,
                meta_info,
                type_,
                url,
            } => {
                let copy = Child::Bookmark {
                    date_added: clone_bytes(date_added),
                    date_last_used: clone_bytes(date_last_used),
                    date_modified: clone_opt_bytes(date_modified),
                    guid: clone_bytes(guid),
                    id: clone_bytes(id),
                    name: clone_bytes(name),
                    meta_info: clone_opt_meta(meta_info),
                    type_: clone_bytes(type_),
                    url: clone_bytes(url),
                };
                proof {
                    assert(child_view(copy) == child_view(*child));
                    lemma_children_view_snoc(out@, copy);
                }
                out.push(copy);
                assert(spec_extract_child(cs[i as int]) =~= seq![cs[i as int]]);
            },
        }
        i += 1;
        proof {
            assert(cs.subrange(0, i as int) =~= prefix.push(cs[i - 1]));
            lemma_extract_children_snoc(prefix, cs[i - 1]);
            assert(children_view(out@) =~= spec_extract_children(cs.subrange(0, i as int)));
        }
    }
    proof {
        assert(cs.subrange(0, i as int) =~= cs);
    }
    out
}

proof fn lemma_extract_children_only_bookmarks(cs: Seq<ChildView>)
    ensures
        forall|i: int|
            0 <= i < spec_extract_children(cs).len() ==> spec_extract_children(cs)[i] is Bookmark,
    decreases cs,
{
    if cs.len() > 0 {
        lemma_extract_child_only_bookmarks(cs[0]);
        lemma_extract_children_only_bookmarks(cs.subrange(1, cs.len() as int));
    }
}

proof fn lemma_extract_child_only_bookmarks(c: ChildView)
    ensures
        forall|i: int|
            0 <= i < spec_extract_child(c).len() ==> spec_extract_child(c)[i] is Bookmark,
    decreases c,
{
    match c {
        ChildView::Folder(f) => {
            if f.name == capture_name() {
                lemma_extract_children_only_bookmarks(f.children);
            }
        },
        ChildView::Bookmark { .. } => {},
    }
}

/// Law: whatever the input tree, extraction yields bookmark entries only,
/// never a folder.
pub proof fn lemma_extract_only_bookmarks(f: FolderView)
    ensures
        forall|i: int| 0 <= i < spec_extract(f).len() ==> spec_extract(f)[i] is Bookmark,
{
    lemma_extract_children_only_bookmarks(f.children);
}

proof fn lemma_skip_non_capture_children(cs: Seq<ChildView>, i: int)
    requires
        0 <= i < cs.len(),
        cs[i] is Folder,
        cs[i]->Folder_0.name != capture_name(),
    ensures
        spec_extract_children(cs.remove(i)) == spec_extract_children(cs),
    decreases i,
{
    let rest = cs.subrange(1, cs.len() as int);
    if i == 0 {
        assert(spec_extract_child(cs[0]) =~= Seq::<ChildView>::empty());
        assert(cs.remove(0) =~= rest);
        assert(spec_extract_children(cs) =~= spec_extract_children(rest));
    } else {
        let shorter = cs.remove(i);
        assert(shorter[0] == cs[0]);
        assert(shorter.subrange(1, shorter.len() as int) =~= rest.remove(i - 1));
        lemma_skip_non_capture_children(rest, i - 1);
        assert(spec_extract_children(cs.remove(i)) =~= spec_extract_children(cs));
    }
}

/// Law: a folder child whose name is not "capture" contributes nothing:
/// removing it, contents and all, leaves the extraction result unchanged,
/// so in particular every bookmark nested under it is excluded.
pub proof fn lemma_non_capture_folder_skipped(f: FolderView, i: int)
    requires
        0 <= i < f.children.len(),
        f.children[i] is Folder,
        f.children[i]->Folder_0.name != capture_name(),
    ensures
        spec_extract(f) == spec_extract(
            FolderView { children: f.children.remove(i), ..f },
        ),
{
    lemma_skip_non_capture_children(f.children, i);
}

proof fn lemma_extract_children_singleton(c: ChildView)
    ensures
        spec_extract_children(seq![c]) == spec_extract_child(c),
{
    let s = seq![c];
    assert(s[0] == c);
    assert(s.subrange(1, 1) =~= Seq::<ChildView>::empty());
    assert(spec_extract_children(Seq::<ChildView>::empty()) =~= Seq::<ChildView>::empty());
    assert(spec_extract_children(s) =~= spec_extract_child(c));
}

/// Law: a bookmark sitting in a "capture" folder that itself sits in a
/// "capture" folder is carried out, exactly once.
pub proof fn lemma_nested_capture_included(
    f: FolderView,
    g: FolderView,
    h: FolderView,
    b: ChildView,
)
    requires
        f.children == seq![ChildView::Folder(g)],
        g.name == capture_name(),
        g.children == seq![ChildView::Folder(h)],
        h.name == capture_name(),
        h.children == seq![b],
        b is Bookmark,
    ensures
        spec_extract(f) == seq![b],
{
    lemma_extract_children_singleton(ChildView::Folder(g));
    lemma_extract_children_singleton(ChildView::Folder(h));
    lemma_extract_children_singleton(b);
}

proof fn lemma_direct_bookmark_in_children(cs: Seq<ChildView>, i: int)
    requires
        0 <= i < cs.len(),
        cs[i] is Bookmark,
    ensures
        spec_extract_children(cs).contains(cs[i]),
    decreases i,
{
    let rest = cs.subrange(1, cs.len() as int);
    let head = spec_extract_child(cs[0]);
    if i == 0 {
        assert(head =~= seq![cs[0]]);
        assert(spec_extract_children(cs)[0] == cs[0]);
        assert(spec_extract_children(cs).contains(cs[0]));
    } else {
        lemma_direct_bookmark_in_children(rest, i - 1);
        let k = choose|k: int|
            0 <= k < spec_extract_children(rest).len() && spec_extract_children(rest)[k] == cs[i];
        assert(spec_extract_children(cs)[head.len() + k] == cs[i]);
        assert(spec_extract_children(cs).contains(cs[i]));
    }
}

/// Law: a bookmark lying directly in the folder handed to the extractor is
/// in the result, with no "capture" folder around it.
pub proof fn lemma_direct_bookmark_included(f: FolderView, i: int)
    requires
        0 <= i < f.children.len(),
        f.children[i] is Bookmark,
    ensures
        spec_extract(f).contains(f.children[i]),
{
    lemma_direct_bookmark_in_children(f.children, i);
}

proof fn lemma_children_view_concat(a: Seq<Child>, b: Seq<Child>)
    ensures
        children_view(a + b) == children_view(a) + children_view(b),
    decreases b.len(),
{
    if b.len() == 0 {
        assert(a + b =~= a);
        assert(children_view(a) + children_view(b) =~= children_view(a));
    } else {
        let front = b.subrange(0, b.len() - 1);
        lemma_children_view_concat(a, front);
        lemma_children_view_snoc(a + front, b.last());
        lemma_children_view_snoc(front, b.last());
        assert(a + b =~= (a + front).push(b.last()));
        assert(b =~= front.push(b.last()));
        assert(children_view(a + b) =~= children_view(a) + children_view(b));
    }
}

} // verus!
