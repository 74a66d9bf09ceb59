use scandir::toc::Toc;

fn strings(v: &[&str]) -> Vec<String> {
    v.iter().map(|s| s.to_string()).collect()
}

fn sample() -> Toc {
    Toc {
        dirs: strings(&["d"]),
        files: strings(&["f1", "f2"]),
        symlinks: strings(&["l"]),
        other: vec![],
        errors: strings(&["e"]),
    }
}

#[test]
fn new_toc_is_empty() {
    let t = Toc::new();
    assert!(t.is_empty());
    assert!(Toc::default().is_empty());
    assert!(!sample().is_empty());
}

#[test]
fn getters_copy_lists() {
    let t = sample();
    assert_eq!(t.dirs(), strings(&["d"]));
    assert_eq!(t.files(), strings(&["f1", "f2"]));
    assert_eq!(t.symlinks(), strings(&["l"]));
    assert!(t.other().is_empty());
    assert_eq!(t.errors(), strings(&["e"]));
    let moved = Toc::from_owned(t.clone());
    assert_eq!(moved.files, t.files);
}

#[test]
fn extend_with_empty_root_appends_as_is() {
    let mut t = Toc::new();
    t.files.push("x".to_string());
    t.extend("", &sample());
    assert_eq!(t.files, strings(&["x", "f1", "f2"]));
    assert_eq!(t.dirs, strings(&["d"]));
    assert_eq!(t.errors, strings(&["e"]));
}

#[test]
fn extend_places_entries_below_root() {
    let mut t = Toc::new();
    t.extend("sub/dir", &sample());
    assert_eq!(t.dirs, strings(&["sub/dir/d"]));
    assert_eq!(t.files, strings(&["sub/dir/f1", "sub/dir/f2"]));
    assert_eq!(t.symlinks, strings(&["sub/dir/l"]));
    assert_eq!(t.errors, strings(&["sub/dir/e"]));
}

#[test]
fn extend_nested_equals_joined_root() {
    let mut inner = Toc::new();
    inner.extend("b", &sample());
    let mut twice = Toc::new();
    twice.extend("a", &inner);
    let mut once = Toc::new();
    once.extend("a/b", &sample());
    assert_eq!(twice.files, once.files);
    assert_eq!(twice.dirs, once.dirs);
    assert_eq!(twice.errors, once.errors);
}

#[test]
fn extend_by_empty_changes_nothing() {
    let mut t = sample();
    t.extend("root", &Toc::new());
    assert_eq!(t.files, sample().files);
    assert_eq!(t.dirs, sample().dirs);
}

#[test]
fn speedy_of_empty_toc() {
    assert_eq!(Toc::new().to_speedy().unwrap(), vec![0u8; 20]);
}

#[test]
fn speedy_of_sample_toc() {
    let mut t = Toc::new();
    t.files.push("ab".to_string());
    let b = t.to_speedy().unwrap();
    let mut expected = vec![0u8; 4];
    expected.extend_from_slice(&[1, 0, 0, 0, 2, 0, 0, 0, b'a', b'b']);
    expected.extend_from_slice(&[0u8; 12]);
    assert_eq!(b, expected);
}

#[test]
fn bincode_of_sample_toc() {
    let mut t = Toc::new();
    t.dirs.push("ab".to_string());
    let b = t.to_bincode().unwrap();
    let mut expected = vec![1u8, 0, 0, 0, 0, 0, 0, 0, 2, 0, 0, 0, 0, 0, 0, 0, b'a', b'b'];
    expected.extend_from_slice(&[0u8; 32]);
    assert_eq!(b, expected);
}

#[test]
fn json_of_sample_toc() {
    let mut t = Toc::new();
    t.files.push("a\"b".to_string());
    t.errors.push("e".to_string());
    assert_eq!(
        t.to_json().unwrap(),
        "{\"dirs\":[],\"files\":[\"a\\\"b\"],\"symlinks\":[],\"other\":[],\"errors\":[\"e\"]}"
    );
}
