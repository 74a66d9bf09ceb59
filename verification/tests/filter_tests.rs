use scandir::entry::{DirEntryInfo, EntryKind};
use scandir::error::ErrorKind;
use scandir::filter::{child_kept, create_filter, filter_children, filter_dir, filter_direntry, Filter};
use scandir::glob::{GlobPattern, MatchOptions};
use scandir::options::Options;
use scandir::text::get_root_path_len;

fn patterns(v: &[&str]) -> Vec<GlobPattern> {
    let mut o = Options::new("/".to_string(), false);
    o.file_include = Some(v.iter().map(|s| s.to_string()).collect());
    create_filter(&o).unwrap().unwrap().file_include
}

fn info(name: &str, parent: &str, kind: EntryKind) -> DirEntryInfo {
    DirEntryInfo {
        file_name: name.to_string(),
        file_name_is_utf8: true,
        parent_path: parent.to_string(),
        parent_path_is_utf8: true,
        kind,
        metadata: None,
        metadata_ext: None,
    }
}

#[test]
fn root_path_len_adds_separator() {
    assert_eq!(get_root_path_len("/tmp"), 5);
    assert_eq!(get_root_path_len("/tmp/"), 5);
    assert_eq!(get_root_path_len("/"), 1);
    assert_eq!(get_root_path_len(""), 1);
    assert_eq!(get_root_path_len("/tmp/ä"), 8);
}

#[test]
fn pattern_compile_error_message() {
    let mut o = Options::new("/".to_string(), false);
    o.file_exclude = Some(vec!["*.txt".to_string(), "a**".to_string()]);
    match create_filter(&o) {
        Err(e) => assert_eq!(
            e.message,
            "file_exclude: Pattern syntax error near position 0: recursive wildcards must form a single path component"
        ),
        Ok(_) => panic!("pattern should not compile"),
    }
}

#[test]
fn create_filter_without_patterns_gives_none() {
    let o = Options::new("/tmp".to_string(), false);
    assert!(create_filter(&o).unwrap().is_none());
    let mut o2 = Options::new("/tmp".to_string(), false);
    o2.dir_include = Some(vec![]);
    assert!(create_filter(&o2).unwrap().is_none());
}

#[test]
fn create_filter_reports_first_bad_list() {
    let mut o = Options::new("/tmp".to_string(), false);
    o.file_include = Some(vec!["a**".to_string()]);
    o.dir_exclude = Some(vec!["ok".to_string(), "[".to_string()]);
    match create_filter(&o) {
        Err(e) => {
            assert_eq!(e.kind, ErrorKind::InvalidInput);
            assert!(e.message.starts_with("dir_exclude: Pattern syntax error"), "{}", e.message);
        }
        Ok(_) => panic!("expected an error"),
    }
}

#[test]
fn create_filter_case_options() {
    let mut o = Options::new("/tmp".to_string(), false);
    o.file_include = Some(vec!["*.txt".to_string()]);
    let f = create_filter(&o).unwrap().unwrap();
    assert_eq!(f.file_include.len(), 1);
    assert_eq!(f.options.unwrap().case_sensitive, false);
    o.case_sensitive = true;
    let f = create_filter(&o).unwrap().unwrap();
    assert!(f.options.is_none());
}

#[test]
fn filter_direntry_matches() {
    let p = patterns(&["*.txt"]);
    assert!(filter_direntry("a.txt", &p, None, false));
    assert!(!filter_direntry("a.rs", &p, None, false));
    assert!(!filter_direntry("A.TXT", &p, None, false));
    let ci = Some(MatchOptions { case_sensitive: false, ..MatchOptions::new() });
    assert!(filter_direntry("A.TXT", &p, ci, false));
}

#[test]
fn filter_direntry_empty_cases() {
    let p = patterns(&["*.txt"]);
    assert!(filter_direntry("", &p, None, true));
    assert!(!filter_direntry("", &p, None, false));
    assert!(filter_direntry("x", &vec![], None, true));
    assert!(!filter_direntry("x", &vec![], None, false));
}

#[test]
fn filter_direntry_recursive_pattern_matches_directory_itself() {
    let p = patterns(&["/dir/**"]);
    assert!(filter_direntry("/dir", &p, None, false));
    assert!(filter_direntry("/dir/sub", &p, None, false));
    assert!(!filter_direntry("/other", &p, None, false));
}

#[test]
fn filter_dir_uses_relative_key() {
    let f = Filter {
        dir_include: vec![],
        dir_exclude: patterns(&["/skip"]),
        file_include: vec![],
        file_exclude: vec![],
        options: None,
    };
    let root_len = get_root_path_len("/root");
    assert!(!filter_dir(root_len, &info("skip", "/root", EntryKind::Dir), &f));
    assert!(filter_dir(root_len, &info("keep", "/root", EntryKind::Dir), &f));
    assert!(filter_dir(root_len, &info("skip", "/root/a", EntryKind::Dir), &f));
    let mut non_utf8 = info("skip", "/root", EntryKind::Dir);
    non_utf8.file_name_is_utf8 = false;
    assert!(filter_dir(root_len, &non_utf8, &f));
}

#[test]
fn filter_children_keeps_passing_entries_and_reports_errors() {
    let f = Filter {
        dir_include: vec![],
        dir_exclude: vec![],
        file_include: patterns(&["*.txt"]),
        file_exclude: patterns(&["secret*"]),
        options: None,
    };
    let mut children: Vec<Result<DirEntryInfo, String>> = vec![
        Ok(info("a.txt", "/r", EntryKind::File)),
        Err("denied".to_string()),
        Ok(info("b.rs", "/r", EntryKind::File)),
        Ok(info("secret.txt", "/r", EntryKind::File)),
        Ok(info("sub", "/r", EntryKind::Dir)),
    ];
    assert!(!child_kept(&children[1], &f, 3));
    let errors = filter_children(&mut children, &Some(f), 3);
    assert_eq!(errors, vec!["denied".to_string()]);
    let names: Vec<String> = children.iter().map(|c| c.as_ref().unwrap().file_name.clone()).collect();
    assert_eq!(names, vec!["a.txt".to_string(), "sub".to_string()]);
}

#[test]
fn filter_children_without_filter_changes_nothing() {
    let mut children: Vec<Result<DirEntryInfo, String>> =
        vec![Err("x".to_string()), Ok(info("a", "/r", EntryKind::File))];
    let errors = filter_children(&mut children, &None, 3);
    assert!(errors.is_empty());
    assert_eq!(children.len(), 2);
}
