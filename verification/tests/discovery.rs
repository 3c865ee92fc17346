use integration_aggressor::args::choose_worker_count;
use integration_aggressor::discovery::{
    candidate_dirs, choose_base_dir, find_integration_tests, has_test_name, is_test_entry,
    FoundEntry,
};

fn entry(path: &str, mode: Option<u32>) -> FoundEntry {
    FoundEntry {
        is_file: true,
        file_name: path.rsplit('/').next().unwrap().to_string(),
        path: path.to_string(),
        mode,
    }
}

#[test]
fn thread_tests_are_told_by_name_and_path() {
    assert!(has_test_name("a.__build__", "i/src/pthread/a.__build__"));
    assert!(has_test_name("a.__build__", "i/src/threads/a.__build__"));
    assert!(has_test_name("a.__build__", "__support/threads"));
    assert!(!has_test_name("a.__build__", "i/src/stdio/a.__build__"));
    assert!(!has_test_name("a.cpp", "i/src/threads/a.cpp"));
    assert!(!has_test_name("a.__build__", "threads/a.__build__"));
}

#[test]
fn only_executable_files_are_tests() {
    let path = "i/threads/a.__build__";
    assert!(is_test_entry(&entry(path, Some(0o755))));
    assert!(is_test_entry(&entry(path, Some(0o001))));
    assert!(is_test_entry(&entry(path, Some(0o100010))));
    assert!(!is_test_entry(&entry(path, Some(0o644))));
    assert!(!is_test_entry(&entry(path, None)));
    let mut directory = entry(path, Some(0o755));
    directory.is_file = false;
    assert!(!is_test_entry(&directory));
}

#[test]
fn tests_are_found_and_sorted() {
    let entries = vec![
        entry("i/threads/b.__build__", Some(0o755)),
        entry("i/stdio/c.__build__", Some(0o755)),
        entry("i/pthread/z.__build__", Some(0o755)),
        entry("i/threads/a.__build__", Some(0o644)),
        entry("i/__support/threads/d.__build__", Some(0o711)),
    ];
    assert_eq!(
        find_integration_tests(&entries),
        vec![
            "i/__support/threads/d.__build__",
            "i/pthread/z.__build__",
            "i/threads/b.__build__",
        ]
    );
    assert!(find_integration_tests(&Vec::new()).is_empty());
}

#[test]
fn the_directory_asked_for_comes_first() {
    let asked = Some("/x".to_string());
    assert_eq!(choose_base_dir(&asked, true, true, true), "/x");
}

#[test]
fn a_checkout_is_detected() {
    let dirs = candidate_dirs();
    assert_eq!(dirs.len(), 3);
    assert_eq!(dirs[0], "build/libc/test/integration");
    assert_eq!(choose_base_dir(&None, true, true, true), dirs[0]);
    assert_eq!(choose_base_dir(&None, false, true, true), dirs[1]);
    assert_eq!(choose_base_dir(&None, false, false, true), dirs[2]);
    assert_eq!(choose_base_dir(&None, false, false, false), dirs[0]);
}

#[test]
fn the_number_of_workers_is_chosen() {
    assert_eq!(choose_worker_count(Some(3), Some(16)), 3);
    assert_eq!(choose_worker_count(None, Some(16)), 16);
    assert_eq!(choose_worker_count(None, None), 4);
    assert_eq!(choose_worker_count(Some(0), None), 0);
}
