use simplewiki::view::{arrange_groups, find_prev_next, view_for_file, view_from_capture, PrevNextResult, View, ViewGroup};

fn groups() -> Vec<ViewGroup> {
    vec![
        ViewGroup {
            key: "a".into(),
            views: vec![
                View { name: "1".into(), file_name: "a/1".into() },
                View { name: "2".into(), file_name: "a/2".into() },
                View { name: "3".into(), file_name: "a/3".into() },
            ],
        },
        ViewGroup {
            key: "b".into(),
            views: vec![
                View { name: "4".into(), file_name: "b/4".into() },
                View { name: "5".into(), file_name: "b/5".into() },
                View { name: "6".into(), file_name: "b/6".into() },
            ],
        },
    ]
}

#[test]
fn view_format() {
    let view = View { name: "Sigurd".into(), file_name: "file".into() };
    let display = view.to_string();
    assert!(display == "{View file_name=file}");
}

#[test]
fn previous_next() {
    let groups = groups();

    let res = find_prev_next(&groups, "a/3");
    assert_eq!(res.prev.map(|x| x.name), Some("2".into()));
    assert_eq!(res.next.map(|x| x.name), Some("4".into()));

    let res = find_prev_next(&groups, "b/4");
    assert_eq!(res.prev.map(|x| x.name), Some("3".into()));
    assert_eq!(res.next.map(|x| x.name), Some("5".into()));

    let res = find_prev_next(&groups, "b/6");
    assert_eq!(res.prev.map(|x| x.name), Some("5".into()));
    assert_eq!(res.next.map(|x| x.name), None);

    let res = find_prev_next(&groups, "a/1");
    assert_eq!(res.prev.map(|x| x.name), None);
    assert_eq!(res.next.map(|x| x.name), Some("2".into()));

    let res = find_prev_next(&groups, "a/2");
    assert_eq!(res.prev.map(|x| x.name), Some("1".into()));
    assert_eq!(res.next.map(|x| x.name), Some("3".into()));

    let res = find_prev_next(&groups, "a\\2");
    assert_eq!(res.prev.map(|x| x.name), Some("1".into()));
    assert_eq!(res.next.map(|x| x.name), Some("3".into()));

    let res = find_prev_next(&groups, "b/6");
    assert_eq!(res.prev.map(|x| x.name), Some("5".into()));
    assert_eq!(res.next.map(|x| x.name), None);
}

#[test]
fn unknown_page_falls_back_to_last() {
    let res = find_prev_next(&groups(), "c/9");
    assert_eq!(res.prev.map(|x| x.name), Some("5".into()));
    assert_eq!(res.next.map(|x| x.name), None);
}

#[test]
fn no_pages_no_neighbours() {
    let res = find_prev_next(&[], "a/1");
    assert!(res.prev.is_none());
    assert!(res.next.is_none());
    let single = vec![ViewGroup { key: "a".into(), views: vec![View { name: "1".into(), file_name: "a/1".into() }] }];
    let res = find_prev_next(&single, "a/1");
    assert!(res.prev.is_none());
    assert!(res.next.is_none());
}

#[test]
fn empty_prev_next_and_group() {
    let r = PrevNextResult::new();
    assert!(r.prev.is_none() && r.next.is_none());
    let g = ViewGroup::new("docs");
    assert_eq!(g.key, "docs");
    assert!(g.views.is_empty());
}

#[test]
fn markdown_file_becomes_a_view() {
    let v = view_for_file("notes", "todo.md").unwrap();
    assert_eq!(v.name, "todo");
    assert_eq!(v.file_name, "notes/todo");
    assert!(view_for_file("notes", "image.png").is_none());
    let v = view_for_file("a", "x.md.md").unwrap();
    assert_eq!(v.name, "x.md");
}

#[test]
fn capture_outcome_becomes_a_view() {
    assert!(view_from_capture("g", None).is_none());
    let v = view_from_capture("g", Some(Some("p".to_string()))).unwrap();
    assert_eq!(v.name, "p");
    assert_eq!(v.file_name, "g/p");
    let v = view_from_capture("g", Some(None)).unwrap();
    assert_eq!(v.name, "");
    assert_eq!(v.file_name, "g/");
}

#[test]
fn cloned_view_is_equal() {
    let v = View { name: "n".into(), file_name: "f".into() };
    let c = v.clone();
    assert_eq!(c.name, "n");
    assert_eq!(c.file_name, "f");
}

#[test]
fn root_group_first_and_empty_groups_left_out() {
    let root = ViewGroup { key: "/".into(), views: vec![View { name: "home".into(), file_name: "home".into() }] };
    let mut subdirs = groups();
    subdirs.insert(1, ViewGroup::new("empty"));
    let listed = arrange_groups(root, subdirs);
    let keys: Vec<&str> = listed.iter().map(|g| g.key.as_str()).collect();
    assert_eq!(keys, vec!["/", "a", "b"]);

    let listed = arrange_groups(ViewGroup::new("/"), groups());
    let keys: Vec<&str> = listed.iter().map(|g| g.key.as_str()).collect();
    assert_eq!(keys, vec!["a", "b"]);
}
