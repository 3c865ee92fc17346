//! The path of a test and its file name.

use crate::text::{occurs, optional_text};
use vstd::prelude::*;
use vstd::string::*;

verus! {

/// A test, by the path of its binary, and the file name of that path.
#[derive(Debug, PartialEq)]
pub struct TestPath {
    pub path: String,
    /// The final component of the path, where it has one.
    pub file_name: Option<String>,
}

/// A test, with strings as texts.
pub struct TestView {
    pub path: Seq<char>,
    pub file_name: Option<Seq<char>>,
}

impl View for TestPath {
    type V = TestView;

    open spec fn view(&self) -> TestView {
        TestView { path: self.path@, file_name: optional_text(self.file_name) }
    }
}

/// Some tests, with strings as texts.
pub open spec fn test_views(tests: Seq<TestPath>) -> Seq<TestView> {
    Seq::new(tests.len(), |i: int| tests[i]@)
}

/// The paths of some tests.
pub open spec fn paths_of(tests: Seq<TestView>) -> Seq<Seq<char>> {
    Seq::new(tests.len(), |i: int| tests[i].path)
}

/// A path without the separators and the `.` components at its end.
pub open spec fn trimmed_path(path: Seq<char>) -> Seq<char>
    decreases path.len(),
{
    if path.len() > 0 && path.last() == '/' {
        trimmed_path(path.drop_last())
    } else if path.len() > 0 && path.last() == '.' && (path.len() == 1 || path[path.len() - 2]
        == '/') {
        trimmed_path(path.drop_last())
    } else {
        path
    }
}

/// What stands behind the last separator of a path.
pub open spec fn last_part(path: Seq<char>) -> Seq<char>
    decreases path.len(),
{
    if path.len() == 0 || path.last() == '/' {
        Seq::empty()
    } else {
        last_part(path.drop_last()).push(path.last())
    }
}

/// The final component of a path whose components are separated by `/`: there
/// is none where the path names only the root or nothing, or ends in `..`.
pub open spec fn path_file_name(path: Seq<char>) -> Option<Seq<char>> {
    let part = last_part(trimmed_path(path));
    if part.len() == 0 || part == ".."@ {
        None
    } else {
        Some(part)
    }
}

/// The path has the same components on every platform: it holds no backslash,
/// which separates on some and not on others, and it does not begin as a drive
/// or a share does.
pub open spec fn is_plain(path: Seq<char>) -> bool {
    &&& forall|i: int| 0 <= i < path.len() ==> #[trigger] path[i] != '\\'
    &&& !(path.len() >= 2 && path[1] == ':')
    &&& !(path.len() >= 2 && path[0] == '/' && path[1] == '/')
}

/// `name` may be the file name of `path`: it is a part of it, and the final
/// component where all platforms agree on the components.
pub open spec fn is_file_name(path: Seq<char>, name: Option<Seq<char>>) -> bool {
    &&& name matches Some(part) ==> part.len() > 0 && occurs(path, part)
    &&& is_plain(path) ==> name == path_file_name(path)
}

/// The file name of a test belongs to its path.
pub open spec fn is_named(test: TestView) -> bool {
    is_file_name(test.path, test.file_name)
}

/// The file name of a test, or `fallback` where it has none.
pub open spec fn name_or(test: TestView, fallback: Seq<char>) -> Seq<char> {
    match test.file_name {
        Some(name) => name,
        None => fallback,
    }
}

/// The name by which a test is shown: its file name, or its path where it has
/// none.
pub open spec fn shown_name(test: TestView) -> Seq<char> {
    name_or(test, test.path)
}

/// `std::path::Path::file_name`: the final component of a path, by the rules of
/// the platform. Claimed is that it is a part of the path that is not empty, and
/// which part it is where the path has the same components on every platform.
/// How other paths are taken apart is left open: it depends on the platform.
#[verifier::external_body]
fn system_file_name(path: &str) -> (name: Option<String>)
    ensures
        is_file_name(path@, optional_text(name)),
{
    let name = std::path::Path::new(path).file_name()?.to_str()?;
    Some(name.to_owned())
}

impl Clone for TestPath {
    fn clone(&self) -> (copy: TestPath)
        ensures
            copy@ == self@,
    {
        let file_name = match &self.file_name {
            Some(name) => Some(name.clone()),
            None => None,
        };
        TestPath { path: self.path.clone(), file_name }
    }
}

impl TestPath {
    /// The test whose binary has this path.
    pub fn of(path: String) -> (test: TestPath)
        ensures
            test@.path == path@,
            is_named(test@),
    {
        let file_name = system_file_name(path.as_str());
        TestPath { path, file_name }
    }

    /// The file name, or `fallback` where there is none.
    pub fn name_or_text(&self, fallback: &str) -> (name: String)
        ensures
            name@ == name_or(self@, fallback@),
    {
        match &self.file_name {
            Some(name) => name.clone(),
            None => fallback.to_owned(),
        }
    }

    /// The name by which the test is shown.
    pub fn shown_text(&self) -> (name: String)
        ensures
            name@ == shown_name(self@),
    {
        self.name_or_text(self.path.as_str())
    }
}

} // verus!
