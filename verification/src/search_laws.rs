//! What holds of the search for tests.

use crate::discovery::{base_dir, is_test, is_thread_test, test_paths, FoundEntry};
use crate::order::sorted;
use crate::text_laws::law_occurs_means_between;
use vstd::prelude::*;
use vstd::string::*;

verus! {

/// A regular file that someone may execute, whose name ends in `.__build__`, and
/// whose path leads through a directory of thread tests.
pub open spec fn is_thread_binary(entry: FoundEntry) -> bool {
    &&& entry.is_file
    &&& exists|a: Seq<char>| entry.file_name@ == #[trigger] (a + ".__build__"@)
    &&& {
        ||| exists|a: Seq<char>, b: Seq<char>| entry.path@ == #[trigger] (a + "/pthread/"@ + b)
        ||| exists|a: Seq<char>, b: Seq<char>| entry.path@ == #[trigger] (a + "/threads/"@ + b)
        ||| exists|a: Seq<char>, b: Seq<char>|
            entry.path@ == #[trigger] (a + "__support/threads"@ + b)
    }
    &&& entry.mode matches Some(mode) && (mode & 0o100 != 0 || mode & 0o010 != 0 || mode & 0o001
        != 0)
}

/// The search is for executable thread tests, by their names and paths.
proof fn lemma_is_test(entry: FoundEntry)
    ensures
        is_test(entry) <==> is_thread_binary(entry),
{
    law_occurs_means_between(entry.file_name@, ".__build__"@);
    law_occurs_means_between(entry.path@, "/pthread/"@);
    law_occurs_means_between(entry.path@, "/threads/"@);
    law_occurs_means_between(entry.path@, "__support/threads"@);
    if let Some(mode) = entry.mode {
        assert(mode & 0o111 != 0 <==> (mode & 0o100 != 0 || mode & 0o010 != 0 || mode & 0o001
            != 0)) by (bit_vector);
    }
}

/// Each entry is judged alone: one more entry adds its path where it is an
/// executable thread test, and nothing where it is not.
pub proof fn law_each_entry_is_judged_alone(entries: Seq<FoundEntry>, entry: FoundEntry)
    ensures
        test_paths(Seq::empty()) == Seq::<Seq<char>>::empty(),
        is_thread_binary(entry) ==> test_paths(entries.push(entry)) == test_paths(entries).push(
            entry.path@,
        ),
        !is_thread_binary(entry) ==> test_paths(entries.push(entry)) == test_paths(entries),
{
    reveal(Seq::filter);
    lemma_is_test(entry);
    assert(entries.push(entry).drop_last() =~= entries);
    assert(test_paths(Seq::empty()) =~= Seq::<Seq<char>>::empty());
    if is_test(entry) {
        assert(test_paths(entries.push(entry)) =~= test_paths(entries).push(entry.path@));
    } else {
        assert(test_paths(entries.push(entry)) =~= test_paths(entries));
    }
}

/// What the search comes to is in order, and is exactly the paths of the
/// executable thread tests.
pub proof fn law_thread_tests_are_found(
    entries: Seq<FoundEntry>,
    tests: Seq<Seq<char>>,
    path: Seq<char>,
)
    requires
        sorted(tests),
        tests.to_multiset() == test_paths(entries).to_multiset(),
    ensures
        tests.contains(path) <==> exists|i: int|
            0 <= i < entries.len() && is_thread_binary(#[trigger] entries[i]) && entries[i].path@
                == path,
{
    crate::discovery::law_found_are_the_tests(entries, tests, path);
    if tests.contains(path) {
        let i = choose|i: int|
            0 <= i < entries.len() && is_test(#[trigger] entries[i]) && entries[i].path@ == path;
        lemma_is_test(entries[i]);
    }
    if exists|i: int|
        0 <= i < entries.len() && is_thread_binary(#[trigger] entries[i]) && entries[i].path@
            == path {
        let i = choose|i: int|
            0 <= i < entries.len() && is_thread_binary(#[trigger] entries[i]) && entries[i].path@
                == path;
        lemma_is_test(entries[i]);
    }
}

/// Wherever a regular file stands whose name is something and `.__build__`,
/// which someone may execute, it is found where `/pthread/`, `/threads/` or
/// `__support/threads` stands anywhere in its path.
pub proof fn law_no_thread_test_is_passed_over(
    entries: Seq<FoundEntry>,
    tests: Seq<Seq<char>>,
    i: int,
    name: Seq<char>,
    mode: u32,
    a: Seq<char>,
    b: Seq<char>,
)
    requires
        tests.to_multiset() == test_paths(entries).to_multiset(),
        0 <= i < entries.len(),
        entries[i].is_file,
        entries[i].file_name@ == name + ".__build__"@,
        entries[i].mode == Some(mode),
        mode & 0o111 != 0,
        entries[i].path@ == a + "/pthread/"@ + b || entries[i].path@ == a + "/threads/"@ + b
            || entries[i].path@ == a + "__support/threads"@ + b,
    ensures
        tests.contains(entries[i].path@),
{
    assert(mode & 0o111 != 0 <==> (mode & 0o100 != 0 || mode & 0o010 != 0 || mode & 0o001 != 0))
        by (bit_vector);
    assert(is_thread_binary(entries[i]));
    lemma_is_test(entries[i]);
    crate::discovery::law_found_are_the_tests(entries, tests, entries[i].path@);
}

/// The name and the path alone decide whether the permissions of a file are
/// looked at.
pub proof fn law_names_of_thread_tests(file_name: Seq<char>, path: Seq<char>)
    ensures
        is_thread_test(file_name, path) <==> {
            &&& exists|a: Seq<char>| file_name == #[trigger] (a + ".__build__"@)
            &&& {
                ||| exists|a: Seq<char>, b: Seq<char>| path == #[trigger] (a + "/pthread/"@ + b)
                ||| exists|a: Seq<char>, b: Seq<char>| path == #[trigger] (a + "/threads/"@ + b)
                ||| exists|a: Seq<char>, b: Seq<char>|
                    path == #[trigger] (a + "__support/threads"@ + b)
            }
        },
{
    law_occurs_means_between(file_name, ".__build__"@);
    law_occurs_means_between(path, "/pthread/"@);
    law_occurs_means_between(path, "/threads/"@);
    law_occurs_means_between(path, "__support/threads"@);
}

/// The directory that is asked for is searched, whatever else is there; where
/// none is asked for, the first that is there of three; where none is there, the
/// first.
pub proof fn law_where_tests_are_looked_for(
    asked: Option<Seq<char>>,
    here: bool,
    inside: bool,
    beside: bool,
)
    ensures
        asked is Some ==> asked == Some(base_dir(asked, here, inside, beside)),
        asked is None && (here || !inside && !beside) ==> base_dir(asked, here, inside, beside)
            == "build/libc/test/integration"@,
        asked is None && !here && inside ==> base_dir(asked, here, inside, beside)
            == "llvm-project/build/libc/test/integration"@,
        asked is None && !here && !inside && beside ==> base_dir(asked, here, inside, beside)
            == "../llvm-project/build/libc/test/integration"@,
{
}

} // verus!
