use melodium_libs::fs::local::{self, create, open_plan, read, scan, scan_filtering, scan_listing, Filtering, ReadResult};
use melodium_libs::fs::path::{composition, extension, file_name, file_stem, parent};

#[test]
fn path_composition() {
    assert_eq!(extension("foo/bar.txt"), Some("txt".to_string()));
    assert_eq!(file_stem("foo/bar.txt"), Some("bar".to_string()));
    assert_eq!(file_name("foo/bar.txt"), Some("bar.txt".to_string()));
    assert_eq!(parent("foo/bar.txt"), Some("foo".to_string()));
    assert_eq!(file_name("/usr/bin/"), Some("bin".to_string()));
    assert_eq!(file_name("etc/./"), Some("etc".to_string()));
    assert_eq!(file_name("/"), Some("".to_string()));
    assert_eq!(file_name("foo/.."), None);
    assert_eq!(parent("/usr/bin"), Some("/usr".to_string()));
    assert_eq!(parent("/"), None);
    assert_eq!(extension(".bashrc"), None);
    assert_eq!(file_stem(".bashrc"), Some(".bashrc".to_string()));
    assert_eq!(extension("archive.tar.gz"), Some("gz".to_string()));
    assert_eq!(file_stem("archive.tar.gz"), Some("archive.tar".to_string()));
    assert_eq!(extension("noext"), None);
    assert_eq!(file_stem("noext"), Some("noext".to_string()));
}

#[test]
fn path_composition_stream() {
    let c = composition(&vec!["a/b.c".to_string(), "/".to_string()]);
    assert_eq!(c.extension, vec![Some("c".to_string()), None]);
    assert_eq!(c.file_name, vec![Some("b.c".to_string()), Some("".to_string())]);
    assert_eq!(c.file_stem, vec![Some("b".to_string()), None]);
    assert_eq!(c.parent, vec![Some("a".to_string()), None]);
}

#[test]
fn reading_files() {
    let r = read(None, &vec![ReadResult::Chunk(vec![1, 2]), ReadResult::Chunk(vec![3]), ReadResult::End, ReadResult::Chunk(vec![9])]);
    assert!(r.reached && r.completed && !r.failed && r.finished);
    assert_eq!(r.data, vec![vec![1, 2], vec![3]]);
    let r = read(None, &vec![ReadResult::Chunk(vec![1]), ReadResult::Failure("io".to_string())]);
    assert!(r.reached && r.failed && !r.completed);
    assert_eq!(r.data, vec![vec![1]]);
    assert_eq!(r.errors, vec!["io".to_string()]);
    let r = read(Some("not found".to_string()), &vec![]);
    assert!(!r.reached && r.failed && r.finished);
    assert_eq!(r.errors, vec!["not found".to_string()]);
}

#[test]
fn writing_files_reports_running_amounts() {
    let r = local::write(None, &vec![3, 4, 5], None);
    assert_eq!(r.amounts, vec![3, 7, 12]);
    assert!(r.completed && !r.failed && r.finished);
    let r = local::write(None, &vec![3, 4, 5], Some((2, "disk full".to_string())));
    assert_eq!(r.amounts, vec![3, 7]);
    assert!(r.failed && !r.completed);
    assert_eq!(r.errors, vec!["disk full".to_string()]);
    let r = local::write(Some("denied".to_string()), &vec![1], None);
    assert!(r.amounts.is_empty() && r.failed);
}

#[test]
fn creating_directories() {
    assert_eq!(create(Ok(())), (true, false, None));
    assert_eq!(create(Err("exists".to_string())), (false, true, Some("exists".to_string())));
}

#[test]
fn scanning_directories() {
    let r = scan(&vec![Ok("a".to_string()), Err("denied".to_string()), Ok("b".to_string())]);
    assert_eq!(r.entries, vec!["a".to_string(), "b".to_string()]);
    assert_eq!(r.errors, vec!["denied".to_string()]);
    assert!(r.failed && !r.completed && r.finished);
    assert!(scan(&vec![Ok("a".to_string())]).completed);
    assert!(scan_filtering(Some((true, false)), false, true) == Filtering::IgnoreDir);
    assert!(scan_filtering(Some((true, false)), true, false) == Filtering::Continue);
    assert!(scan_filtering(Some((false, true)), true, false) == Filtering::IgnoreDir);
    assert!(scan_filtering(Some((false, false)), false, false) == Filtering::Continue);
    assert!(scan_filtering(None, false, false) == Filtering::Continue);
}

#[test]
fn writing_replaces_the_file_unless_appending() {
    let p = open_plan(false, true, false);
    assert!(p.write && p.truncate && !p.append && p.create && !p.create_new);
    let p = open_plan(true, false, true);
    assert!(p.append && !p.truncate && !p.create && p.create_new);
}

#[test]
fn scanning_sends_every_entry_and_goes_into_subdirectories_when_recursive() {
    let listing = vec![
        ("dir/f".to_string(), Some((false, false))),
        ("dir/d".to_string(), Some((true, false))),
        ("dir/l".to_string(), Some((false, true))),
        ("dir/u".to_string(), None),
    ];
    let (sent, into) = scan_listing(&listing, false, true);
    assert_eq!(sent, vec!["dir/f".to_string(), "dir/d".to_string(), "dir/l".to_string(), "dir/u".to_string()]);
    assert_eq!(into, vec!["dir/l".to_string()]);
    let (_, into) = scan_listing(&listing, true, false);
    assert_eq!(into, vec!["dir/d".to_string()]);
}
