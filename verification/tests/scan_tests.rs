use scandir::entry::{create_entry, DirEntryInfo, EntryKind, EntryMeta, EntryMetaExt, ScandirResult};
use scandir::options::{Options, ReturnType};
use scandir::results::ScandirResults;
use scandir::scan::{dir_is_reported, dir_results, root_entry_results, DirectCollector, FileBudget, MAX_STORED_ERRORS};
use scandir::scan_store::ScandirStore;
use scandir::text::get_root_path_len;

fn info(name: &str, parent: &str, kind: EntryKind) -> DirEntryInfo {
    DirEntryInfo {
        file_name: name.to_string(),
        file_name_is_utf8: true,
        parent_path: parent.to_string(),
        parent_path_is_utf8: true,
        kind,
        metadata: Some(EntryMeta { size: 10, created: None, changed: None, modified: None, accessed: None }),
        metadata_ext: None,
    }
}

fn ext_file(name: &str, ino: u64, nlink: u64, blocks: u64) -> ScandirResult {
    let mut i = info(name, "/r", EntryKind::File);
    i.metadata_ext = Some(EntryMetaExt {
        st_mode: 0o100644,
        st_ino: ino,
        st_dev: 1,
        st_nlink: nlink,
        st_blksize: 4096,
        st_blocks: blocks,
        st_uid: 0,
        st_gid: 0,
        st_rdev: 0,
    });
    create_entry(3, &ReturnType::Ext, &i)
}

#[test]
fn entry_paths_are_relative_to_root() {
    let root_len = get_root_path_len("/root");
    match create_entry(root_len, &ReturnType::Base, &info("a.txt", "/root/sub/dir", EntryKind::File)) {
        ScandirResult::DirEntry(d) => {
            assert_eq!(d.path, "sub/dir/a.txt");
            assert!(d.is_file && !d.is_dir && !d.is_symlink);
            assert_eq!(d.st_size, 10);
        }
        _ => panic!("wrong variant"),
    }
    match create_entry(root_len, &ReturnType::Base, &info("top", "/root", EntryKind::Dir)) {
        ScandirResult::DirEntry(d) => {
            assert_eq!(d.path, "top");
            assert!(d.is_dir);
        }
        _ => panic!("wrong variant"),
    }
}

#[test]
fn extended_entries_default_block_size() {
    match create_entry(3, &ReturnType::Ext, &info("l", "/r", EntryKind::Symlink)) {
        ScandirResult::DirEntryExt(d) => {
            assert!(d.is_symlink);
            assert_eq!(d.st_blksize, 4096);
            assert_eq!(d.st_ino, 0);
            assert_eq!(d.st_size, 10);
        }
        _ => panic!("wrong variant"),
    }
}

#[test]
fn results_categories_cover_all_entries() {
    let mut r = ScandirResults::new();
    r.push_entry(create_entry(3, &ReturnType::Base, &info("d", "/r", EntryKind::Dir)));
    r.push_entry(create_entry(3, &ReturnType::Base, &info("f", "/r", EntryKind::File)));
    r.push_entry(create_entry(3, &ReturnType::Base, &info("l", "/r", EntryKind::Symlink)));
    r.push_entry(create_entry(3, &ReturnType::Base, &info("p", "/r", EntryKind::Other)));
    r.push_entry(ScandirResult::Error(("x".to_string(), "bad".to_string())));
    assert_eq!(r.results.len(), 4);
    assert_eq!(r.errors.len(), 1);
    assert_eq!(r.len(), 5);
    assert_eq!(r.dirs().len() + r.files().len() + r.symlinks().len() + r.other().len(), r.results.len());
    assert!(r.dirs().iter().all(|e| e.is_dir()));
    assert!(r.files().iter().all(|e| e.is_file()));
    assert!(r.symlinks().iter().all(|e| e.is_symlink()));
    assert_eq!(r.files()[0].path(), "f");
    let mut copy = ScandirResults::new();
    copy.extend(&r);
    assert_eq!(copy.len(), 5);
    copy.clear();
    assert!(copy.is_empty());
}

#[test]
fn statistics_count_hard_links_once() {
    let mut r = ScandirResults::new();
    r.push_entry(ext_file("a", 7, 2, 8));
    r.push_entry(ext_file("b", 7, 2, 8));
    r.push_entry(ext_file("c", 9, 1, 1));
    r.push_entry(create_entry(3, &ReturnType::Base, &info("d", "/r", EntryKind::Dir)));
    let s = r.statistics();
    assert_eq!(s.files, 2);
    assert_eq!(s.hlinks, 1);
    assert_eq!(s.dirs, 1);
    assert_eq!(s.size, 10 + 10 + 10 + 4096);
    assert_eq!(s.usage, 8 * 512 + 8 * 512 + 512 + 4096);
}

#[test]
fn statistics_count_devices_and_pipes() {
    let mut dev = info("dev", "/r", EntryKind::Other);
    dev.metadata_ext = Some(EntryMetaExt {
        st_mode: 0o020644, st_ino: 1, st_dev: 1, st_nlink: 1, st_blksize: 4096, st_blocks: 0,
        st_uid: 0, st_gid: 0, st_rdev: 5,
    });
    let mut pipe = dev.clone();
    pipe.metadata_ext = Some(EntryMetaExt { st_rdev: 0, st_mode: 0o010644, ..pipe.metadata_ext.unwrap() });
    let mut r = ScandirResults::new();
    r.push_entry(create_entry(3, &ReturnType::Ext, &dev));
    r.push_entry(create_entry(3, &ReturnType::Ext, &pipe));
    let s = r.statistics();
    assert_eq!(s.devices, 1);
    assert_eq!(s.pipes, 1);
    assert_eq!(s.size, 8192);
}

#[test]
fn file_budget_stops_after_maximum() {
    let mut b = FileBudget::new(2);
    assert!(b.count(false));
    assert!(b.count(true));
    assert!(!b.count(false));
    assert_eq!(b.file_cnt, 2);
    let mut unlimited = FileBudget::new(0);
    for _ in 0..10 {
        assert!(unlimited.count(false));
    }
}

#[test]
fn collector_caps_errors() {
    let mut c = DirectCollector::new(3, ReturnType::Base, 0);
    for i in 0..MAX_STORED_ERRORS + 5 {
        c.on_error(format!("e{}", i));
    }
    assert!(c.on_entry(&info("f", "/r", EntryKind::File)));
    let r = c.finish(vec!["late".to_string()]);
    assert_eq!(r.errors.len(), MAX_STORED_ERRORS);
    assert_eq!(r.results.len(), 1);

    let mut c2 = DirectCollector::new(3, ReturnType::Base, 1);
    c2.on_error("walk".to_string());
    assert!(!c2.on_entry(&info("f", "/r", EntryKind::File)));
    assert!(!c2.on_entry(&info("g", "/r", EntryKind::File)));
    let r2 = c2.finish(vec!["filter".to_string()]);
    assert_eq!(r2.errors, vec![(String::new(), "walk".to_string()), (String::new(), "filter".to_string())]);
    assert_eq!(r2.results.len(), 1);
    assert_eq!(r2.results[0].path(), "f");
}

#[test]
fn directory_results_put_errors_first() {
    let children = vec![Ok(info("a", "/r/s", EntryKind::File)), Err("gone".to_string())];
    let r = dir_results(vec!["filtered".to_string()], &children, 3, &ReturnType::Base);
    assert_eq!(r.len(), 3);
    assert_eq!(r[0].error().unwrap().1, "filtered");
    assert_eq!(r[1].path(), "s/a");
    assert_eq!(r[2].error().unwrap().1, "gone");
    assert!(dir_is_reported("/r", true, 3));
    assert!(!dir_is_reported("/", true, 3));
    assert!(!dir_is_reported("/r", false, 3));
}

#[test]
fn root_file_gives_single_entry() {
    let r = root_entry_results(6, &ReturnType::Base, &info("file", "/root", EntryKind::File));
    assert_eq!(r.results.len(), 1);
    assert_eq!(r.results[0].path(), "file");
}

#[test]
fn store_accumulates_results() {
    let mut s = ScandirStore::new(true);
    let first = s.results(vec![create_entry(3, &ReturnType::Base, &info("a", "/r", EntryKind::File))], true);
    assert_eq!(first.results.len(), 1);
    assert_eq!(s.results_cnt(false, Some(2)), 3);
    assert_eq!(s.results_cnt(true, None), 0);
    assert_eq!(s.entries_cnt(true, None), 1);
    assert!(s.has_results(false, false));
    assert!(!s.has_results(true, false));
    let all = s.results(
        vec![ScandirResult::Error(("p".to_string(), "m".to_string())),
             create_entry(3, &ReturnType::Base, &info("b", "/r", EntryKind::File))],
        false,
    );
    assert_eq!(all.results.len(), 2);
    assert_eq!(all.errors.len(), 1);
    assert_eq!(s.entries.len(), 0);
    assert!(!s.has_errors());

    let mut unstored = ScandirStore::new(false);
    let r = unstored.results(vec![create_entry(3, &ReturnType::Base, &info("a", "/r", EntryKind::File))], false);
    assert_eq!(r.results.len(), 1);
    assert!(unstored.entries.is_empty());
}

#[test]
fn store_keeps_collected_results() {
    let mut s = ScandirStore::new(false);
    let mut r = ScandirResults::new();
    r.errors.push(("x".to_string(), "y".to_string()));
    let back = s.keep_collected(r);
    assert_eq!(back.errors.len(), 1);
    assert!(s.has_errors());
    assert_eq!(s.errors_cnt(), 1);
}

#[test]
fn options_builders() {
    let mut o = Options::new("/r".to_string(), true);
    assert_eq!(o.max_depth, usize::MAX);
    assert!(o.skip_hidden);
    o.set_max_depth(0);
    assert_eq!(o.max_depth, usize::MAX);
    o.set_max_depth(3);
    assert_eq!(o.max_depth, 3);
    o.set_max_file_cnt(0);
    assert_eq!(o.max_file_cnt, usize::MAX);
    o.set_extended(true);
    assert_eq!(o.return_type, ReturnType::Ext);
    o.set_extended(false);
    assert_eq!(o.return_type, ReturnType::Base);
}

#[test]
fn collector_never_holds_more_than_maximum_files() {
    let mut c = DirectCollector::new(3, ReturnType::Base, 3);
    assert!(c.on_entry(&info("d", "/r", EntryKind::Dir)));
    assert!(c.on_entry(&info("a", "/r", EntryKind::File)));
    assert!(c.on_entry(&info("b", "/r", EntryKind::File)));
    assert!(!c.on_entry(&info("c", "/r", EntryKind::File)));
    assert!(!c.on_entry(&info("x", "/r", EntryKind::File)));
    assert!(c.on_entry(&info("e", "/r", EntryKind::Dir)));
    let r = c.finish(Vec::new());
    let files = r.results.iter().filter(|e| !e.is_dir()).count();
    assert_eq!(files, 3);
    assert_eq!(r.results.len(), 5);
}

#[test]
fn store_caps_received_errors() {
    let mut s = ScandirStore::new(true);
    let mut received = Vec::new();
    for i in 0..MAX_STORED_ERRORS + 7 {
        received.push(ScandirResult::Error((format!("p{}", i), "m".to_string())));
    }
    let r = s.results(received, true);
    assert_eq!(r.errors.len(), MAX_STORED_ERRORS + 7);
    assert_eq!(s.errors_cnt(), MAX_STORED_ERRORS);
    let more = vec![ScandirResult::Error(("late".to_string(), "m".to_string()))];
    let r2 = s.results_timeout(more);
    assert_eq!(r2.errors.len(), 1);
    assert_eq!(s.errors_cnt(), MAX_STORED_ERRORS);
    let all = s.results(Vec::new(), false);
    assert_eq!(all.errors.len(), MAX_STORED_ERRORS);
    assert_eq!(all.errors[0].0, "p0");
    assert_eq!(all.errors[MAX_STORED_ERRORS - 1].0, format!("p{}", MAX_STORED_ERRORS - 1));
}

#[test]
fn timed_collect_without_storing_loses_nothing() {
    let mut s = ScandirStore::new(false);
    let mut gathered = ScandirStore::new(true);
    s.gather(&mut gathered, vec![create_entry(3, &ReturnType::Base, &info("a", "/r", EntryKind::File))]);
    s.gather(&mut gathered, vec![ScandirResult::Error(("p".to_string(), "m".to_string()))]);
    assert!(s.entries.results.is_empty());
    let r = s.finish_gathering(gathered, vec![create_entry(3, &ReturnType::Base, &info("b", "/r", EntryKind::File))]);
    assert_eq!(r.results.len(), 2);
    assert_eq!(r.results[0].path(), "a");
    assert_eq!(r.results[1].path(), "b");
    assert_eq!(r.errors, vec![("p".to_string(), "m".to_string())]);
}

#[test]
fn timed_collect_while_storing_gives_all_kept() {
    let mut s = ScandirStore::new(true);
    let mut gathered = ScandirStore::new(true);
    s.gather(&mut gathered, vec![create_entry(3, &ReturnType::Base, &info("a", "/r", EntryKind::File))]);
    assert_eq!(s.entries.results.len(), 1);
    assert!(gathered.entries.results.is_empty());
    let r = s.finish_gathering(gathered, vec![create_entry(3, &ReturnType::Base, &info("b", "/r", EntryKind::File))]);
    assert_eq!(r.results.len(), 2);
    assert!(s.entries.results.is_empty());
}

#[test]
fn statistics_fit_checks_totals() {
    let mut r = ScandirResults::new();
    r.results.push(create_entry(3, &ReturnType::Base, &info("a", "/r", EntryKind::File)));
    assert!(r.statistics_fit());
    let mut big = info("b", "/r", EntryKind::File);
    big.metadata = Some(EntryMeta { size: u64::MAX, created: None, changed: None, modified: None, accessed: None });
    r.results.push(create_entry(3, &ReturnType::Base, &big));
    assert!(!r.statistics_fit());
}

#[test]
fn statistics_by_flags_and_distinct_inodes() {
    let mut r = ScandirResults::new();
    r.push_entry(ext_file("a", 5, 3, 2));
    r.push_entry(ext_file("b", 5, 3, 2));
    r.push_entry(ext_file("c", 5, 3, 2));
    r.push_entry(ext_file("d", 6, 2, 4));
    r.push_entry(ext_file("e", 7, 1, 1));
    r.push_entry(create_entry(3, &ReturnType::Base, &info("l", "/r", EntryKind::Symlink)));
    r.push_entry(create_entry(3, &ReturnType::Base, &info("s", "/r", EntryKind::Dir)));
    let s = r.statistics();
    // five file entries: four linked ones over two inodes, one plain file
    assert_eq!(s.files + s.hlinks, 5);
    assert_eq!(s.hlinks, 4 - 2);
    assert_eq!(s.dirs, 1);
    assert_eq!(s.slinks, 1);
    assert_eq!(s.size, 5 * 10 + 4096 * 2);
    assert_eq!(s.usage, (2 + 2 + 2 + 4 + 1) * 512 + 4096 * 2);
}
