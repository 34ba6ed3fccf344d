use bookmark_capture::extract_bookmarks;
use bookmark_capture::Child;
use bookmark_capture::Folder;

fn folder(name: &str, children: Vec<Child>) -> Folder {
    Folder {
        children,
        date_added: b"13350000000000000".to_vec(),
        date_last_used: b"0".to_vec(),
        date_modified: None,
        guid: b"folder-guid".to_vec(),
        id: b"1".to_vec(),
        meta_info: None,
        name: name.as_bytes().to_vec(),
        type_: b"folder".to_vec(),
        url: None,
    }
}

fn bookmark(url: &str) -> Child {
    Child::Bookmark {
        date_added: b"13350000000000001".to_vec(),
        date_last_used: b"0".to_vec(),
        date_modified: None,
        guid: b"bookmark-guid".to_vec(),
        id: b"2".to_vec(),
        name: b"a bookmark".to_vec(),
        meta_info: None,
        type_: b"url".to_vec(),
        url: url.as_bytes().to_vec(),
    }
}

fn urls(out: &[Child]) -> Vec<Vec<u8>> {
    out.iter()
        .map(|c| match c {
            Child::Bookmark { url, .. } => url.clone(),
            Child::Folder(_) => panic!("folder variant in extraction output"),
        })
        .collect()
}

#[test]
fn output_holds_only_bookmarks() {
    let tree = folder(
        "bar",
        vec![
            bookmark("http://a"),
            Child::Folder(folder("capture", vec![bookmark("http://b")])),
            Child::Folder(folder("misc", vec![bookmark("http://c")])),
        ],
    );
    let out = extract_bookmarks(&tree);
    for c in &out {
        assert!(matches!(c, Child::Bookmark { .. }));
    }
    assert_eq!(out.len(), 2);
}

#[test]
fn bookmark_under_other_folder_is_excluded() {
    let tree = folder(
        "bar",
        vec![Child::Folder(folder("other", vec![bookmark("http://a")]))],
    );
    let out = extract_bookmarks(&tree);
    assert!(out.is_empty());
}

#[test]
fn non_capture_folder_is_not_descended() {
    let inner = Child::Folder(folder("capture", vec![bookmark("http://hidden")]));
    let tree = folder("bar", vec![Child::Folder(folder("shelf", vec![inner]))]);
    let out = extract_bookmarks(&tree);
    assert!(out.is_empty());
}

#[test]
fn nested_capture_bookmark_included_once() {
    let inner = folder("capture", vec![bookmark("http://deep")]);
    let outer = folder("capture", vec![Child::Folder(inner)]);
    let tree = folder("bar", vec![Child::Folder(outer)]);
    let out = extract_bookmarks(&tree);
    assert_eq!(urls(&out), vec![b"http://deep".to_vec()]);
}

#[test]
fn top_level_bookmark_included_without_capture() {
    let tree = folder("bar", vec![bookmark("http://top")]);
    let out = extract_bookmarks(&tree);
    assert_eq!(urls(&out), vec![b"http://top".to_vec()]);
}

#[test]
fn three_branch_scenario() {
    let tree = folder(
        "bar",
        vec![
            Child::Folder(folder("other", vec![bookmark("http://a")])),
            Child::Folder(folder(
                "capture",
                vec![bookmark("http://b"), bookmark("http://c")],
            )),
            bookmark("http://d"),
        ],
    );
    let out = extract_bookmarks(&tree);
    assert_eq!(
        urls(&out),
        vec![
            b"http://b".to_vec(),
            b"http://c".to_vec(),
            b"http://d".to_vec()
        ]
    );
}

#[test]
fn depth_first_order_is_kept() {
    let inner = folder("capture", vec![bookmark("http://2")]);
    let cap = folder(
        "capture",
        vec![bookmark("http://1"), Child::Folder(inner), bookmark("http://3")],
    );
    let tree = folder("bar", vec![Child::Folder(cap), bookmark("http://4")]);
    let out = extract_bookmarks(&tree);
    assert_eq!(
        urls(&out),
        vec![
            b"http://1".to_vec(),
            b"http://2".to_vec(),
            b"http://3".to_vec(),
            b"http://4".to_vec()
        ]
    );
}

#[test]
fn capture_name_must_match_exactly() {
    let tree = folder(
        "bar",
        vec![
            Child::Folder(folder("Capture", vec![bookmark("http://a")])),
            Child::Folder(folder("capture ", vec![bookmark("http://b")])),
            Child::Folder(folder("captures", vec![bookmark("http://c")])),
        ],
    );
    let out = extract_bookmarks(&tree);
    assert!(out.is_empty());
}

#[test]
fn duplicate_bookmarks_stay_duplicated() {
    let tree = folder(
        "bar",
        vec![
            Child::Folder(folder("capture", vec![bookmark("http://same")])),
            Child::Folder(folder("capture", vec![bookmark("http://same")])),
        ],
    );
    let out = extract_bookmarks(&tree);
    assert_eq!(
        urls(&out),
        vec![b"http://same".to_vec(), b"http://same".to_vec()]
    );
}
