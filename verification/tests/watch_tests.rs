use bookmark_capture::event_matches;
use bookmark_capture::target_path;
use bookmark_capture::watch::ModifyEventKind;
use bookmark_capture::watch::RenameKind;
use bookmark_capture::watch::WatchEventKind;
use bookmark_capture::WatchEvent;

fn rename_both(paths: Vec<&str>) -> WatchEvent {
    WatchEvent {
        kind: WatchEventKind::Modify(ModifyEventKind::Name(RenameKind::Both)),
        paths: paths.into_iter().map(|p| p.as_bytes().to_vec()).collect(),
    }
}

#[test]
fn two_sided_rename_of_target_matches() {
    let e = rename_both(vec!["/home/u/.config/Bookmarks.tmp", "/home/u/.config/Bookmarks"]);
    assert!(event_matches(&e, b"/home/u/.config/Bookmarks"));
}

#[test]
fn rename_of_another_file_does_not_match() {
    let e = rename_both(vec!["/home/u/.config/History", "/home/u/.config/History-old"]);
    assert!(!event_matches(&e, b"/home/u/.config/Bookmarks"));
}

#[test]
fn one_sided_rename_does_not_match() {
    for kind in [
        WatchEventKind::Modify(ModifyEventKind::Name(RenameKind::To)),
        WatchEventKind::Modify(ModifyEventKind::Name(RenameKind::From)),
        WatchEventKind::Modify(ModifyEventKind::Name(RenameKind::Any)),
        WatchEventKind::Modify(ModifyEventKind::Data),
        WatchEventKind::Create,
        WatchEventKind::Remove,
    ] {
        let e = WatchEvent {
            kind,
            paths: vec![b"/home/u/.config/Bookmarks".to_vec()],
        };
        assert!(!event_matches(&e, b"/home/u/.config/Bookmarks"));
    }
}

#[test]
fn path_must_match_exactly() {
    let e = rename_both(vec!["/home/u/.config/Bookmarks2"]);
    assert!(!event_matches(&e, b"/home/u/.config/Bookmarks"));
    let e2 = rename_both(vec![]);
    assert!(!event_matches(&e2, b"/home/u/.config/Bookmarks"));
}

#[test]
fn target_path_is_plain_concatenation() {
    assert_eq!(
        target_path(b"/home/u/.config/", b"Bookmarks"),
        b"/home/u/.config/Bookmarks".to_vec()
    );
    assert_eq!(
        target_path(b"/home/u/.config", b"Bookmarks"),
        b"/home/u/.configBookmarks".to_vec()
    );
}
