use file_search::entry::{DirEntry, EntryKind};
use file_search::query::get_search_data;
use file_search::report::{Elapsed, MatchResult};
use file_search::tree::{search_files, Tree};
use file_search::walker::{Request, Walker};

fn part(text: &str) -> Option<String> {
    if text.is_empty() {
        None
    } else {
        Some(String::from(text))
    }
}

fn entry(path: &str, stem: &str, extension: &str, kind: EntryKind) -> DirEntry {
    DirEntry {
        path: String::from(path),
        stem: part(stem),
        extension: part(extension),
        kind,
        size_bytes: None,
    }
}

fn file(path: &str, stem: &str, extension: &str) -> Tree {
    Tree { entry: entry(path, stem, extension, EntryKind::File), children: None }
}

fn dir(path: &str, stem: &str, children: Option<Vec<Tree>>) -> Tree {
    Tree { entry: entry(path, stem, "", EntryKind::Directory), children }
}

fn paths(found: &[MatchResult]) -> Vec<&str> {
    found.iter().map(|result| result.path.as_str()).collect()
}

const START: Elapsed = Elapsed { nanos: 0 };

#[test]
fn files_are_found_by_name_in_every_directory() {
    let tree = vec![
        file("/t/report.txt", "report", "txt"),
        dir("/t/sub", "sub", Some(vec![file("/t/sub/report_old.csv", "report_old", "csv")])),
    ];
    let query = get_search_data("/t", "report", "").unwrap();
    let (found, stats) = search_files(query, Some(tree), START).unwrap();
    assert_eq!(paths(&found), vec!["/t/report.txt", "/t/sub/report_old.csv"]);
    assert_eq!(stats.count, 2);
}

#[test]
fn files_are_found_by_extension_in_every_directory() {
    let tree = vec![
        file("/t/a.log", "a", "log"),
        file("/t/b.txt", "b", "txt"),
        dir("/t/sub", "sub", Some(vec![file("/t/sub/c.log", "c", "log")])),
    ];
    let query = get_search_data("/t", "", "log").unwrap();
    let (found, stats) = search_files(query, Some(tree), START).unwrap();
    assert_eq!(paths(&found), vec!["/t/a.log", "/t/sub/c.log"]);
    assert_eq!(stats.count, 2);
}

#[test]
fn directory_and_file_are_found_by_name() {
    let tree = vec![dir("/t/data", "data", Some(Vec::new())), file("/t/data.txt", "data", "txt")];
    let query = get_search_data("/t", "data", "").unwrap();
    let (found, stats) = search_files(query, Some(tree), START).unwrap();
    assert_eq!(paths(&found), vec!["/t/data", "/t/data.txt"]);
    assert_eq!(stats.count, 2);
}

#[test]
fn unreadable_directory_is_passed_over() {
    let tree = vec![
        dir("/t/locked", "locked", None),
        dir("/t/ok", "ok", Some(vec![file("/t/ok/target.txt", "target", "txt")])),
    ];
    let query = get_search_data("/t", "target", "").unwrap();
    let (found, stats) = search_files(query, Some(tree), START).unwrap();
    assert_eq!(paths(&found), vec!["/t/ok/target.txt"]);
    assert_eq!(stats.count, 1);
}

#[test]
fn unreadable_matching_directory_is_still_reported() {
    let tree = vec![dir("/t/target_dir", "target_dir", None), file("/t/target", "target", "")];
    let query = get_search_data("/t", "target", "").unwrap();
    let (found, _) = search_files(query, Some(tree), START).unwrap();
    assert_eq!(paths(&found), vec!["/t/target_dir", "/t/target"]);
}

#[test]
fn unreadable_root_yields_nothing() {
    let query = get_search_data("/nowhere", "x", "").unwrap();
    let (found, stats) = search_files(query, None, Elapsed { nanos: 5 }).unwrap();
    assert!(found.is_empty());
    assert_eq!(stats.count, 0);
    assert_eq!(stats.elapsed, Elapsed { nanos: 5 });
}

#[test]
fn matching_directory_is_still_searched() {
    let tree = vec![dir(
        "/t/data",
        "data",
        Some(vec![
            file("/t/data/data_1.bin", "data_1", "bin"),
            dir("/t/data/more_data", "more_data", Some(vec![file("/t/data/more_data/x_data", "x_data", "")])),
        ]),
    )];
    let query = get_search_data("/t", "data", "").unwrap();
    let (found, stats) = search_files(query, Some(tree), START).unwrap();
    assert_eq!(
        paths(&found),
        vec!["/t/data", "/t/data/data_1.bin", "/t/data/more_data", "/t/data/more_data/x_data"]
    );
    assert_eq!(stats.count, 4);
}

#[test]
fn walk_is_depth_first_in_listing_order() {
    let tree = vec![
        file("/t/x1", "x1", ""),
        dir("/t/d", "d", Some(vec![file("/t/d/x2", "x2", ""), file("/t/d/x3", "x3", "")])),
        file("/t/x4", "x4", ""),
    ];
    let query = get_search_data("/t", "x", "").unwrap();
    let (found, _) = search_files(query, Some(tree), START).unwrap();
    assert_eq!(paths(&found), vec!["/t/x1", "/t/d/x2", "/t/d/x3", "/t/x4"]);
}

#[test]
fn nothing_is_listed_below_a_file() {
    let mut odd = file("/t/x.txt", "x", "txt");
    odd.children = Some(vec![file("/t/x.txt/x", "x", "")]);
    let query = get_search_data("/t", "x", "").unwrap();
    let (found, _) = search_files(query, Some(vec![odd]), START).unwrap();
    assert_eq!(paths(&found), vec!["/t/x.txt"]);
}

#[test]
fn directories_are_not_reported_by_extension() {
    let tree = vec![
        dir("/t/logs.log", "logs", Some(vec![file("/t/logs.log/a.log", "a", "log")])),
    ];
    let mut tree = tree;
    tree[0].entry.extension = Some(String::from("log"));
    let query = get_search_data("/t", "", "log").unwrap();
    let (found, stats) = search_files(query, Some(tree), START).unwrap();
    assert_eq!(paths(&found), vec!["/t/logs.log/a.log"]);
    assert_eq!(stats.count, 1);
}

#[test]
fn an_entry_listed_twice_is_reported_twice() {
    let tree = vec![file("/t/a.log", "a", "log"), file("/t/a.log", "a", "log")];
    let query = get_search_data("/t", "a", "").unwrap();
    let (found, stats) = search_files(query, Some(tree), START).unwrap();
    assert_eq!(paths(&found), vec!["/t/a.log", "/t/a.log"]);
    assert_eq!(stats.count, 2);
}

#[test]
fn count_equals_number_of_results() {
    let tree = vec![
        file("/t/a.log", "a", "log"),
        dir("/t/a", "a", Some(vec![file("/t/a/b", "b", ""), file("/t/a/ab", "ab", "")])),
        file("/t/c", "c", ""),
    ];
    let query = get_search_data("/t", "a", "").unwrap();
    let (found, stats) = search_files(query, Some(tree), START).unwrap();
    assert_eq!(stats.count as usize, found.len());
    assert_eq!(found.len(), 3);
}

#[test]
fn search_can_be_repeated() {
    let make = || {
        vec![
            file("/t/report.txt", "report", "txt"),
            dir("/t/reports", "reports", Some(vec![file("/t/reports/r.txt", "r", "txt")])),
        ]
    };
    let first =
        search_files(get_search_data("/t", "report", "").unwrap(), Some(make()), START).unwrap();
    let second = search_files(
        get_search_data("/t", "report", "").unwrap(),
        Some(make()),
        Elapsed { nanos: 77 },
    )
    .unwrap();
    assert_eq!(first.1.count, second.1.count);
    assert_eq!(paths(&first.0), paths(&second.0));
}

#[test]
fn results_carry_time_and_size() {
    let mut sized = file("/t/a.log", "a", "log");
    sized.entry.size_bytes = Some(2_000_000);
    let query = get_search_data("/t", "", "log").unwrap();
    let (found, stats) = search_files(query, Some(vec![sized]), Elapsed { nanos: 42 }).unwrap();
    assert_eq!(found.len(), 1);
    assert_eq!(found[0].elapsed, Elapsed { nanos: 42 });
    assert_eq!(found[0].size_bytes, Some(2_000_000));
    assert_eq!(stats.elapsed, Elapsed { nanos: 42 });
}

#[test]
fn walker_begins_by_asking_for_the_root() {
    let query = get_search_data("/T", "x", "").unwrap();
    let walker = Walker::new(query);
    assert_eq!(walker.query().root().as_str(), "/t");
    assert_eq!(walker.count(), 0);
}

#[test]
fn walker_is_done_when_the_root_cannot_be_listed() {
    let mut walker = Walker::new(get_search_data("/t", "x", "").unwrap());
    assert!(matches!(walker.step(None, START), Request::Done));
    assert!(matches!(walker.step(None, START), Request::Done));
    assert_eq!(walker.count(), 0);
}

#[test]
fn walker_visits_one_entry_at_each_step() {
    let mut walker = Walker::new(get_search_data("/t", "x", "").unwrap());
    let root = vec![
        entry("/t/x1", "x1", "", EntryKind::File),
        entry("/t/d", "d", "", EntryKind::Directory),
        entry("/t/y", "y", "", EntryKind::File),
    ];
    match walker.step(Some(root), Elapsed { nanos: 1 }) {
        Request::Visit { found: Some(result), list: None } => {
            assert_eq!(result.path, "/t/x1");
            assert_eq!(result.elapsed, Elapsed { nanos: 1 });
        }
        other => panic!("{:?}", other),
    }
    assert_eq!(walker.count(), 1);
    match walker.step(None, Elapsed { nanos: 2 }) {
        Request::Visit { found: None, list: Some(path) } => assert_eq!(path, "/t/d"),
        other => panic!("{:?}", other),
    }
    let below = vec![entry("/t/d/x2", "x2", "", EntryKind::File)];
    match walker.step(Some(below), Elapsed { nanos: 3 }) {
        Request::Visit { found: Some(result), list: None } => {
            assert_eq!(result.path, "/t/d/x2");
            assert_eq!(result.elapsed, Elapsed { nanos: 3 });
        }
        other => panic!("{:?}", other),
    }
    assert!(matches!(
        walker.step(None, Elapsed { nanos: 4 }),
        Request::Visit { found: None, list: None }
    ));
    assert!(matches!(walker.step(None, Elapsed { nanos: 5 }), Request::Done));
    assert_eq!(walker.count(), 2);
    let stats = walker.stats(Elapsed { nanos: 6 });
    assert_eq!(stats.count, 2);
    assert_eq!(stats.elapsed, Elapsed { nanos: 6 });
}

#[test]
fn walker_drops_a_listing_it_did_not_ask_for() {
    let mut walker = Walker::new(get_search_data("/t", "x", "").unwrap());
    let root = vec![entry("/t/x1", "x1", "", EntryKind::File)];
    assert!(matches!(
        walker.step(Some(root), START),
        Request::Visit { found: Some(_), list: None }
    ));
    let stray = vec![entry("/t/x9", "x9", "", EntryKind::File)];
    assert!(matches!(walker.step(Some(stray), START), Request::Done));
    assert_eq!(walker.count(), 1);
}

#[test]
fn walker_reports_a_matching_directory_and_asks_for_its_listing() {
    let mut walker = Walker::new(get_search_data("/t", "data", "").unwrap());
    let root = vec![entry("/t/data", "data", "", EntryKind::Directory)];
    match walker.step(Some(root), START) {
        Request::Visit { found: Some(result), list: Some(path) } => {
            assert_eq!(result.path, "/t/data");
            assert_eq!(path, "/t/data");
        }
        other => panic!("{:?}", other),
    }
}

#[test]
fn walker_passes_over_a_directory_that_cannot_be_listed() {
    let mut walker = Walker::new(get_search_data("/t", "target", "").unwrap());
    let root = vec![
        entry("/t/locked", "locked", "", EntryKind::Directory),
        entry("/t/target.txt", "target", "txt", EntryKind::File),
    ];
    match walker.step(Some(root), START) {
        Request::Visit { found: None, list: Some(path) } => assert_eq!(path, "/t/locked"),
        other => panic!("{:?}", other),
    }
    match walker.step(None, START) {
        Request::Visit { found: Some(result), list: None } => {
            assert_eq!(result.path, "/t/target.txt")
        }
        other => panic!("{:?}", other),
    }
    assert!(matches!(walker.step(None, START), Request::Done));
    assert_eq!(walker.count(), 1);
}
