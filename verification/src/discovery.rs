//! Which files are tests to run.

use crate::order::{sort_texts, sorted, texts};
use crate::text::{is_ending, occurs, text_contains, text_ends_with};
use vstd::prelude::*;
use vstd::string::*;

verus! {

/// An entry of the directory tree that is searched for tests.
#[derive(Debug)]
pub struct FoundEntry {
    /// It is a regular file.
    pub is_file: bool,
    /// Its name.
    pub file_name: String,
    /// Its path, from where the search began.
    pub path: String,
    /// Its permission bits, where they can be read.
    pub mode: Option<u32>,
}

/// The directory of the tests in a checkout.
pub open spec fn default_dir() -> Seq<char> {
    "build/libc/test/integration"@
}

/// Where the tests are looked for: in the directory that was asked for; else in
/// the first that is there of a checkout that is the working directory, lies in
/// it, or lies beside it; else in the first of these.
pub open spec fn base_dir(
    test_dir: Option<Seq<char>>,
    here: bool,
    inside: bool,
    beside: bool,
) -> Seq<char> {
    match test_dir {
        Some(dir) => dir,
        None => if here {
            default_dir()
        } else if inside {
            "llvm-project/build/libc/test/integration"@
        } else if beside {
            "../llvm-project/build/libc/test/integration"@
        } else {
            default_dir()
        },
    }
}

/// The directories that are tried where none is asked for.
pub fn candidate_dirs() -> (dirs: Vec<String>)
    ensures
        texts(dirs@) == seq![
            base_dir(None, true, false, false),
            base_dir(None, false, true, false),
            base_dir(None, false, false, true),
        ],
{
    let mut dirs: Vec<String> = Vec::new();
    dirs.push("build/libc/test/integration".to_owned());
    dirs.push("llvm-project/build/libc/test/integration".to_owned());
    dirs.push("../llvm-project/build/libc/test/integration".to_owned());
    proof {
        assert(texts(dirs@) =~= seq![
            base_dir(None, true, false, false),
            base_dir(None, false, true, false),
            base_dir(None, false, false, true),
        ]);
    }
    dirs
}

/// Decides where the tests are looked for; the flags tell which of the
/// candidate directories are there.
pub fn choose_base_dir(
    test_dir: &Option<String>,
    here: bool,
    inside: bool,
    beside: bool,
) -> (dir: String)
    ensures
        dir@ == base_dir(
            match *test_dir {
                Some(d) => Some(d@),
                None => None,
            },
            here,
            inside,
            beside,
        ),
{
    match test_dir {
        Some(d) => d.clone(),
        None => if here {
            "build/libc/test/integration".to_owned()
        } else if inside {
            "llvm-project/build/libc/test/integration".to_owned()
        } else if beside {
            "../llvm-project/build/libc/test/integration".to_owned()
        } else {
            "build/libc/test/integration".to_owned()
        },
    }
}

/// The name and the path are those of a test binary that has to do with
/// threads.
pub open spec fn is_thread_test(file_name: Seq<char>, path: Seq<char>) -> bool {
    &&& is_ending(file_name, ".__build__"@)
    &&& occurs(path, "/pthread/"@) || occurs(path, "/threads/"@) || occurs(
        path,
        "__support/threads"@,
    )
}

/// Someone may execute the file.
pub open spec fn is_executable(mode: u32) -> bool {
    mode & 0o111 != 0
}

/// The entry is a test to run.
pub open spec fn is_test(entry: FoundEntry) -> bool {
    &&& entry.is_file
    &&& is_thread_test(entry.file_name@, entry.path@)
    &&& match entry.mode {
        Some(mode) => is_executable(mode),
        None => false,
    }
}

/// The paths of the tests among some entries, in the order of the entries.
pub open spec fn test_paths(entries: Seq<FoundEntry>) -> Seq<Seq<char>> {
    entries.filter(|entry: FoundEntry| is_test(entry)).map_values(|entry: FoundEntry| entry.path@)
}

/// Tells whether the name and the path are those of a test binary that has to
/// do with threads.
pub fn has_test_name(file_name: &str, path: &str) -> (named: bool)
    ensures
        named == is_thread_test(file_name@, path@),
{
    text_ends_with(file_name, ".__build__") && (text_contains(path, "/pthread/") || text_contains(
        path,
        "/threads/",
    ) || text_contains(path, "__support/threads"))
}

/// Tells whether an entry is a test to run.
pub fn is_test_entry(entry: &FoundEntry) -> (test: bool)
    ensures
        test == is_test(*entry),
{
    entry.is_file && has_test_name(entry.file_name.as_str(), entry.path.as_str())
        && match entry.mode {
        Some(mode) => mode & 0o111 != 0,
        None => false,
    }
}

/// Picks the tests to run out of all entries, sorted by their paths.
pub fn find_integration_tests(entries: &Vec<FoundEntry>) -> (tests: Vec<String>)
    ensures
        sorted(texts(tests@)),
        texts(tests@).to_multiset() == test_paths(entries@).to_multiset(),
{
    let mut found: Vec<String> = Vec::new();
    let mut n: usize = 0;
    proof {
        assert(entries@.take(0) =~= Seq::empty());
        reveal(Seq::filter);
        assert(texts(found@) =~= test_paths(entries@.take(0)));
    }
    while n < entries.len()
        invariant
            n <= entries@.len(),
            texts(found@) == test_paths(entries@.take(n as int)),
        decreases entries@.len() - n,
    {
        let ghost before = found@;
        if is_test_entry(&entries[n]) {
            found.push(entries[n].path.clone());
        }
        proof {
            let entry = entries@[n as int];
            let head = entries@.take(n as int);
            reveal(Seq::filter);
            assert(entries@.take(n + 1).drop_last() =~= head);
            assert(entries@.take(n + 1).last() == entry);
            if is_test(entry) {
                assert(texts(found@) =~= texts(before).push(entry.path@));
                assert(test_paths(entries@.take(n + 1)) =~= test_paths(head).push(entry.path@));
            } else {
                assert(test_paths(entries@.take(n + 1)) =~= test_paths(head));
            }
        }
        n = n + 1;
    }
    proof {
        assert(entries@.take(n as int) =~= entries@);
    }
    sort_texts(found)
}

/// What is found are the paths of the tests among the entries, and nothing
/// else.
pub proof fn law_found_are_the_tests(
    entries: Seq<FoundEntry>,
    tests: Seq<Seq<char>>,
    path: Seq<char>,
)
    requires
        tests.to_multiset() == test_paths(entries).to_multiset(),
    ensures
        tests.contains(path) <==> exists|i: int|
            0 <= i < entries.len() && is_test(#[trigger] entries[i]) && entries[i].path@ == path,
{
    let pred = |entry: FoundEntry| is_test(entry);
    let kept = entries.filter(pred);
    let paths = test_paths(entries);
    tests.to_multiset_ensures();
    paths.to_multiset_ensures();
    assert(tests.contains(path) <==> paths.contains(path)) by {
        assert(tests.contains(path) <==> tests.to_multiset().count(path) > 0);
        assert(paths.contains(path) <==> paths.to_multiset().count(path) > 0);
    }
    if paths.contains(path) {
        let k = choose|k: int| 0 <= k < paths.len() && paths[k] == path;
        assert(kept.contains(kept[k]));
        entries.lemma_filter_contains_rev(pred, kept[k]);
        entries.lemma_filter_pred(pred, k);
        let i = choose|i: int| 0 <= i < entries.len() && entries[i] == kept[k];
        assert(is_test(entries[i]) && entries[i].path@ == path);
    }
    if exists|i: int|
        0 <= i < entries.len() && is_test(#[trigger] entries[i]) && entries[i].path@ == path {
        let i = choose|i: int|
            0 <= i < entries.len() && is_test(#[trigger] entries[i]) && entries[i].path@ == path;
        entries.lemma_filter_contains(pred, i);
        let k = choose|k: int| 0 <= k < kept.len() && kept[k] == entries[i];
        assert(paths[k] == path);
    }
}

} // verus!
