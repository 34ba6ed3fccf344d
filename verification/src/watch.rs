//! The directory watcher's decision logic.
//!
//! The watcher consumes a stream of filesystem events for the directory
//! that holds the bookmark store.  Exactly one shape of event is reported:
//! a two-sided rename whose affected paths include the target file; every
//! other event is discarded.  The event values arrive from outside; this
//! module holds the model they are read into and the filter itself.

use vstd::prelude::*;

verus! {

/// How a rename notification relates its two sides.
#[derive(Debug, Clone, PartialEq, Eq)]
pub enum RenameKind {
    Any,
    To,
    From,
    Both,
    Other,
}

/// What a modify notification touched.
#[derive(Debug, Clone, PartialEq, Eq)]
pub enum ModifyEventKind {
    Any,
    Data,
    Metadata,
    Name(RenameKind),
    Other,
}

/// The kind of a filesystem event.
#[derive(Debug, Clone, PartialEq, Eq)]
pub enum WatchEventKind {
    Any,
    Access,
    Create,
    Modify(ModifyEventKind),
    Remove,
    Other,
}

/// One filesystem event: its kind and the paths it touched, each path as
/// its raw bytes.
#[derive(Debug, Clone, PartialEq, Eq)]
pub struct WatchEvent {
    pub kind: WatchEventKind,
    pub paths: Vec<Vec<u8>>,
}

/// Mathematical model of `WatchEvent`.
pub struct WatchEventView {
    pub kind: WatchEventKind,
    pub paths: Seq<Seq<u8>>,
}

pub open spec fn paths_view(ps: Seq<Vec<u8>>) -> Seq<Seq<u8>> {
    ps.map(|i: int, p: Vec<u8>| p@)
}

impl View for WatchEvent {
    type V = WatchEventView;

    open spec fn view(&self) -> WatchEventView {
        WatchEventView { kind: self.kind, paths: paths_view(self.paths@) }
    }
}

/// Whether an event is reported: it is a two-sided rename and one of its
/// paths is exactly the target file's path.
pub open spec fn spec_event_matches(e: WatchEventView, target: Seq<u8>) -> bool {
    &&& e.kind == WatchEventKind::Modify(ModifyEventKind::Name(RenameKind::Both))
    &&& exists|i: int| 0 <= i < e.paths.len() && e.paths[i] == target
}

/// Decide whether an event is reported.
pub fn event_matches(e: &WatchEvent, target: &[u8]) -> (r: bool)
    ensures
        r == spec_event_matches(e@, target@),
{
    let is_rename_both = match &e.kind {
        WatchEventKind::Modify(m) => match m {
            ModifyEventKind::Name(k) => match k {
                RenameKind::Both => true,
                _ => false,
            },
            _ => false,
        },
        _ => false,
    };
    if !is_rename_both {
        return false;
    }
    let mut i: usize = 0;
    while i < e.paths.len()
        invariant
            i <= e.paths.len(),
            e.kind == WatchEventKind::Modify(ModifyEventKind::Name(RenameKind::Both)),
            forall|j: int| 0 <= j < i ==> e@.paths[j] != target@,
            e@.paths.len() == e.paths@.len(),
            forall|j: int| 0 <= j < e.paths@.len() ==> e@.paths[j] == e.paths@[j]@,
        decreases e.paths.len() - i,
    {
        if crate::extract::bytes_eq(e.paths[i].as_slice(), target) {
            proof {
                assert(e.kind == WatchEventKind::Modify(ModifyEventKind::Name(RenameKind::Both)));
                assert(e@.paths[i as int] == target@);
                assert(exists|j: int| 0 <= j < e@.paths.len() && e@.paths[j] == target@);
            }
            return true;
        }
        i += 1;
    }
    false
}

/// The target file's path: the configured directory text followed
/// immediately by the file name, nothing inserted and nothing normalized.
pub fn target_path(directory: &[u8], file_name: &[u8]) -> (r: Vec<u8>)
    ensures
        r@ == directory@ + file_name@,
{
    let mut r: Vec<u8> = Vec::new();
    let mut i: usize = 0;
    while i < directory.len()
        invariant
            i <= directory.len(),
            r@ == directory@.subrange(0, i as int),
        decreases directory.len() - i,
    {
        r.push(directory[i]);
        i += 1;
        assert(r@ =~= directory@.subrange(0, i as int));
    }
    assert(r@ =~= directory@);
    let mut i: usize = 0;
    while i < file_name.len()
        invariant
            i <= file_name.len(),
            r@ == directory@ + file_name@.subrange(0, i as int),
        decreases file_name.len() - i,
    {
        r.push(file_name[i]);
        i += 1;
        assert(r@ =~= directory@ + file_name@.subrange(0, i as int));
    }
    assert(r@ =~= directory@ + file_name@);
    r
}

} // verus!
