use fs_test_helpers::{compare_contents, Fake, FsOp};

fn segments(parts: &[&str]) -> Vec<String> {
    parts.iter().map(|p| p.to_string()).collect()
}

#[test]
fn file_has_name_and_no_contents() {
    let f = Fake::file("bar.file");
    assert_eq!(f.name(), "bar.file");
    assert_eq!(f.contents(), None);
}

#[test]
fn dir_has_name_and_no_contents() {
    let d = Fake::dir("foo", vec![Fake::file("bar.file")]);
    assert_eq!(d.name(), "foo");
    assert_eq!(d.contents(), None);
}

#[test]
fn fill_with_stores_exact_text() {
    let f = Fake::file("one.file").fill_with("foobarbaz");
    assert_eq!(f.name(), "one.file");
    assert_eq!(f.contents(), Some("foobarbaz"));
}

#[test]
fn fill_with_uuid_stores_compact_lowercase_hex() {
    let f = Fake::file("one.file").fill_with_uuid();
    assert_eq!(f.name(), "one.file");
    let contents = f.contents().expect("a filled file holds contents");
    assert_eq!(contents.len(), 32);
    assert!(contents.chars().all(|c| c.is_ascii_hexdigit() && !c.is_ascii_uppercase()));
}

#[test]
fn two_uuid_fills_differ() {
    let one = Fake::file("one.file").fill_with_uuid();
    let two = Fake::file("two.file").fill_with_uuid();
    let b1: Vec<u8> = one.contents().unwrap().as_bytes().to_vec();
    let b2: Vec<u8> = two.contents().unwrap().as_bytes().to_vec();
    assert!(compare_contents(&b1, &b2).is_err());
}

#[test]
fn nested_tree_plans_depth_first_left_to_right() {
    let tree = Fake::dir(
        "foo",
        vec![
            Fake::file("bar.file"),
            Fake::dir("baz", vec![Fake::file("fobe.file"), Fake::file("quux.file")]),
        ],
    );
    let plan = tree.create_plan(&Vec::new());
    assert_eq!(
        plan,
        vec![
            FsOp::CreateDir { path: segments(&["foo"]) },
            FsOp::CreateFile { path: segments(&["foo", "bar.file"]), contents: None },
            FsOp::CreateDir { path: segments(&["foo", "baz"]) },
            FsOp::CreateFile { path: segments(&["foo", "baz", "fobe.file"]), contents: None },
            FsOp::CreateFile { path: segments(&["foo", "baz", "quux.file"]), contents: None },
        ]
    );
}

#[test]
fn plan_creates_one_op_per_node() {
    let tree = Fake::dir(
        "foo",
        vec![
            Fake::file("bar.file"),
            Fake::dir("baz", vec![Fake::file("fobe.file"), Fake::file("quux.file")]),
        ],
    );
    let plan = tree.create_plan(&Vec::new());
    let dirs = plan.iter().filter(|op| matches!(op, FsOp::CreateDir { .. })).count();
    let files = plan.iter().filter(|op| matches!(op, FsOp::CreateFile { .. })).count();
    assert_eq!(dirs, 2);
    assert_eq!(files, 3);
    assert_eq!(plan.len(), 5);
}

#[test]
fn filled_file_round_trips_through_its_plan() {
    let f = Fake::file("one.file").fill_with("payload bytes");
    let plan = f.create_plan(&Vec::new());
    assert_eq!(
        plan,
        vec![FsOp::CreateFile {
            path: segments(&["one.file"]),
            contents: Some("payload bytes".to_string()),
        }]
    );
    let written: Vec<u8> = match &plan[0] {
        FsOp::CreateFile { contents: Some(c), .. } => c.as_bytes().to_vec(),
        _ => panic!("expected a file-creating operation"),
    };
    let given: Vec<u8> = b"payload bytes".to_vec();
    assert!(compare_contents(&given, &written).is_ok());
}

#[test]
fn plan_respects_caller_base() {
    let f = Fake::file("one.file");
    let plan = f.create_plan(&segments(&["base", "dir"]));
    assert_eq!(
        plan,
        vec![FsOp::CreateFile { path: segments(&["base", "dir", "one.file"]), contents: None }]
    );
}

#[test]
fn copied_uuid_contents_compare_equal() {
    let one = Fake::file("one.file").fill_with_uuid();
    let copied_text = one.contents().unwrap().to_string();
    let two = Fake::file("two.file").fill_with(&copied_text);
    let b1: Vec<u8> = one.contents().unwrap().as_bytes().to_vec();
    let b2: Vec<u8> = two.contents().unwrap().as_bytes().to_vec();
    assert_eq!(compare_contents(&b1, &b2), Ok(()));
}
