use scandir::entry::{DirEntryInfo, EntryKind};
use scandir::toc::Toc;
use scandir::walk::{attach_filter_errors, dir_listing, merge_listings, root_entry_listing, update_toc};
use scandir::walk_store::WalkStore;
use scandir::codec::{listings_to_bincode, listings_to_json, listings_to_speedy};

fn info(name: &str, kind: EntryKind) -> DirEntryInfo {
    DirEntryInfo {
        file_name: name.to_string(),
        file_name_is_utf8: true,
        parent_path: "/r".to_string(),
        parent_path_is_utf8: true,
        kind,
        metadata: None,
        metadata_ext: None,
    }
}

fn listing(key: &str, files: &[&str], errors: &[&str]) -> (String, Toc) {
    let mut t = Toc::new();
    t.files = files.iter().map(|s| s.to_string()).collect();
    t.errors = errors.iter().map(|s| s.to_string()).collect();
    (key.to_string(), t)
}

#[test]
fn update_toc_sorts_by_type() {
    let mut t = Toc::new();
    update_toc(&info("d", EntryKind::Dir), &mut t);
    update_toc(&info("f", EntryKind::File), &mut t);
    update_toc(&info("l", EntryKind::Symlink), &mut t);
    update_toc(&info("o", EntryKind::Other), &mut t);
    assert_eq!(t.dirs, vec!["d"]);
    assert_eq!(t.files, vec!["f"]);
    assert_eq!(t.symlinks, vec!["l"]);
    assert_eq!(t.other, vec!["o"]);
    let (key, root) = root_entry_listing(&info("only", EntryKind::File));
    assert_eq!(key, "");
    assert_eq!(root.files, vec!["only"]);
}

#[test]
fn dir_listing_keys_and_contents() {
    let children = vec![Ok(info("a", EntryKind::File)), Err("oops".to_string())];
    let (key, toc) = dir_listing("/root/sub", true, 6, vec!["filter".to_string()], &children).unwrap();
    assert_eq!(key, "sub");
    assert_eq!(toc.files, vec!["a"]);
    assert_eq!(toc.errors, vec!["filter", "oops"]);
    let (root_key, _) = dir_listing("/root", true, 6, vec![], &children).unwrap();
    assert_eq!(root_key, "");
    assert!(dir_listing("/", true, 6, vec![], &children).is_none());
    assert!(dir_listing("/root/x", false, 6, vec![], &children).is_none());
}

#[test]
fn merge_places_names_below_keys() {
    let entries = vec![listing("", &["top"], &[]), listing("a/b", &["x", "y"], &["e"])];
    let t = merge_listings(&entries);
    assert_eq!(t.files, vec!["top", "a/b/x", "a/b/y"]);
    assert_eq!(t.errors, vec!["a/b/e"]);
}

#[test]
fn filter_errors_go_to_first_listing() {
    let mut entries = vec![listing("", &[], &["w"]), listing("a", &[], &[])];
    attach_filter_errors(&mut entries, vec!["f1".to_string(), "f2".to_string()]);
    assert_eq!(entries[0].1.errors, vec!["w", "f1", "f2"]);
    let mut none: Vec<(String, Toc)> = vec![];
    attach_filter_errors(&mut none, vec!["f".to_string()]);
    assert_eq!(none.len(), 1);
    assert_eq!(none[0].0, "");
    assert_eq!(none[0].1.errors, vec!["f"]);
    let mut unchanged = vec![listing("", &[], &[])];
    attach_filter_errors(&mut unchanged, vec![]);
    assert!(unchanged[0].1.errors.is_empty());
}

#[test]
fn walk_store_results_and_errors() {
    let mut s = WalkStore::new(true);
    let new = s.results(vec![listing("a", &["f"], &[])], true);
    assert_eq!(new.len(), 1);
    assert!(!s.has_errors());
    assert_eq!(s.results_cnt(false, Some(1)), 2);
    assert_eq!(s.results_cnt(true, Some(1)), 1);
    assert_eq!(s.results_cnt(true, None), 1);
    let errs = s.errors(vec![listing("b", &[], &["e1", "e2"])], true);
    assert_eq!(errs, vec![("b".to_string(), "e1".to_string()), ("b".to_string(), "e2".to_string())]);
    assert!(s.has_errors());
    assert_eq!(s.errors_cnt(), 2);
    let stats = s.statistics();
    assert_eq!(stats.files, 1);
    assert_eq!(stats.errors, vec!["e1", "e2"]);
    let all = s.results(vec![], false);
    assert_eq!(all.len(), 2);
    assert_eq!(s.entries.len(), 0);
    s.clear();
    assert!(!s.has_errors());
}

#[test]
fn walk_store_without_storing() {
    let mut s = WalkStore::new(false);
    let r = s.results(vec![listing("a", &["f"], &[])], false);
    assert_eq!(r.len(), 1);
    assert!(!s.has_results(false, false));
    assert!(s.has_results(false, true));
}

#[test]
fn listings_serialize() {
    let entries = vec![listing("k", &["f"], &[])];
    let json = listings_to_json(&entries).unwrap();
    assert_eq!(json, "[[\"k\",{\"dirs\":[],\"files\":[\"f\"],\"symlinks\":[],\"other\":[],\"errors\":[]}]]");
    assert_eq!(listings_to_json(&vec![]).unwrap(), "[]");
    let sp = listings_to_speedy(&entries).unwrap();
    assert_eq!(&sp[0..4], &[1, 0, 0, 0]);
    assert_eq!(&sp[4..9], &[1, 0, 0, 0, b'k']);
    assert_eq!(sp.len(), 4 + 5 + 20 + 5);
    let bc = listings_to_bincode(&entries).unwrap();
    assert_eq!(&bc[0..8], &[1, 0, 0, 0, 0, 0, 0, 0]);
    assert_eq!(bc.len(), 8 + 9 + 40 + 9);
}

fn many_errors(n: usize) -> Vec<String> {
    (0..n).map(|i| format!("e{}", i)).collect()
}

#[test]
fn attached_and_merged_errors_are_capped() {
    let mut none: Vec<(String, Toc)> = vec![];
    attach_filter_errors(&mut none, many_errors(1001));
    assert_eq!(none[0].1.errors.len(), 1000);
    let t = merge_listings(&none);
    assert_eq!(t.errors.len(), 1000);
    assert_eq!(t.errors[999], "e999");

    let mut some = vec![listing("", &[], &["w"])];
    attach_filter_errors(&mut some, many_errors(1200));
    assert_eq!(some[0].1.errors.len(), 1000);
    assert_eq!(some[0].1.errors[0], "w");

    let a = listing("a", &[], &many_errors(600).iter().map(|s| s.as_str()).collect::<Vec<_>>());
    let b = listing("b", &[], &many_errors(600).iter().map(|s| s.as_str()).collect::<Vec<_>>());
    let merged = merge_listings(&vec![a, b]);
    assert_eq!(merged.errors.len(), 1000);
    assert_eq!(merged.errors[0], "a/e0");
    assert_eq!(merged.errors[999], "b/e399");
}

#[test]
fn dir_listing_keeps_every_error() {
    let children: Vec<Result<DirEntryInfo, String>> = (0..10).map(|i| Err(format!("c{}", i))).collect();
    let (_, toc) = dir_listing("/root/sub", true, 6, many_errors(995), &children).unwrap();
    assert_eq!(toc.errors.len(), 1005);
    assert_eq!(toc.errors[1004], "c9");
    let mut s = WalkStore::new(true);
    s.results(vec![("sub".to_string(), toc)], true);
    assert_eq!(s.errors_cnt(), 1000);
}

#[test]
fn walk_store_statistics_cap_errors() {
    let mut s = WalkStore::new(true);
    let a = listing("a", &[], &many_errors(800).iter().map(|s| s.as_str()).collect::<Vec<_>>());
    let b = listing("b", &[], &many_errors(800).iter().map(|s| s.as_str()).collect::<Vec<_>>());
    s.results(vec![a, b], true);
    let stats = s.statistics();
    assert_eq!(stats.errors.len(), 1000);
}

#[test]
fn timed_walk_collect_without_storing_loses_nothing() {
    let mut s = WalkStore::new(false);
    let mut gathered = WalkStore::new(true);
    s.gather(&mut gathered, vec![listing("a", &["f"], &["e"])]);
    assert!(s.has_errors());
    assert!(s.entries.is_empty());
    let all = s.finish_gathering(gathered, vec![listing("b", &["g"], &[])]);
    let t = merge_listings(&all);
    assert_eq!(t.files, vec!["a/f", "b/g"]);
    assert_eq!(t.errors, vec!["a/e"]);
}

#[test]
fn walk_statistics_fit() {
    let s = WalkStore::new(true);
    assert!(s.statistics_fit());
    let mut t = WalkStore::new(true);
    t.results(vec![listing("a", &["f"], &[])], true);
    assert!(t.statistics_fit());
    assert_eq!(t.statistics().files, 1);
}

#[test]
fn walk_store_caps_kept_errors_in_all() {
    let mut s = WalkStore::new(true);
    let errs = many_errors(700);
    let refs: Vec<&str> = errs.iter().map(|e| e.as_str()).collect();
    let new = s.results(vec![listing("a", &["f"], &refs), listing("b", &["g"], &refs)], true);
    assert_eq!(new[1].1.errors.len(), 700);
    assert_eq!(s.errors_cnt(), 1000);
    s.results(vec![listing("c", &["h"], &refs)], true);
    assert_eq!(s.errors_cnt(), 1000);
    let all = s.results(vec![], false);
    assert_eq!(all.len(), 3);
    assert_eq!(all[0].1.errors.len(), 700);
    assert_eq!(all[1].1.errors.len(), 300);
    assert_eq!(all[1].1.errors[299], "e299");
    assert!(all[2].1.errors.is_empty());
    assert_eq!(all[2].1.files, vec!["h"]);
}

#[test]
fn listings_json_escapes_strings() {
    let entries = vec![listing("k\"", &["a\nb", "\u{1}é\\", "\u{1f}\t"], &[])];
    let json = listings_to_json(&entries).unwrap();
    assert_eq!(
        json,
        "[[\"k\\\"\",{\"dirs\":[],\"files\":[\"a\\nb\",\"\\u0001é\\\\\",\"\\u001f\\t\"],\"symlinks\":[],\"other\":[],\"errors\":[]}]]"
    );
}

#[test]
fn walk_statistics_over_two_calls() {
    let mut s = WalkStore::new(true);
    let errs = many_errors(600);
    let refs: Vec<&str> = errs.iter().map(|e| e.as_str()).collect();
    s.results(vec![listing("a", &["f1", "f2"], &refs)], true);
    s.results(vec![listing("b", &["f3"], &refs), listing("c", &[], &["x"])], true);
    let st = s.statistics();
    assert_eq!(st.files, 3);
    assert_eq!(st.errors.len(), 1000);
    assert_eq!(st.errors[0], "e0");
    assert_eq!(st.errors[600], "e0");
    assert_eq!(st.errors[999], "e399");
}

#[test]
fn timed_walk_collect_matches_full_merge_without_errors() {
    let received_first = || vec![listing("", &["top"], &[]), listing("a", &["x"], &[])];
    let received_last = || vec![listing("a/b", &["y"], &[])];
    let mut all = received_first();
    all.extend(received_last());
    for store in [false, true] {
        let mut s = WalkStore::new(store);
        let mut gathered = WalkStore::new(true);
        s.gather(&mut gathered, received_first());
        let given = s.finish_gathering(gathered, received_last());
        let t = merge_listings(&given);
        let full = merge_listings(&all);
        assert_eq!(t.files, full.files);
        assert_eq!(t.files, vec!["top", "a/x", "a/b/y"]);
        assert!(t.errors.is_empty());
    }
}
