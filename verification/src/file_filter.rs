//! Choosing the files to read: by a search pattern on the path, by the
//! directories on the path, or by a mark in the file name.

use vstd::prelude::*;
use crate::coco_struct::clone_strings;
use crate::text::{contains_text, holds_text, occurs};

verus! {

/// A path as the filter reads it.
#[derive(Debug)]
pub struct FilePath {
    /// The path as it is displayed.
    pub text: String,
    /// The components of the path, in order, the file name last.
    pub components: Vec<String>,
    /// The file name, where the path ends in one.
    pub file_name: Option<String>,
}

/// A path as plain values.
pub struct PathModel {
    pub text: Seq<char>,
    pub components: Seq<Seq<char>>,
    pub file_name: Option<Seq<char>>,
}

impl View for FilePath {
    type V = PathModel;

    open spec fn view(&self) -> PathModel {
        PathModel {
            text: self.text@,
            components: self.components.deep_view(),
            file_name: self.file_name.deep_view(),
        }
    }
}

impl FilePath {
    /// The path with that text, those components and that file name.
    pub fn new(text: String, components: Vec<String>, file_name: Option<String>) -> (path: FilePath)
        ensures
            path@ == (PathModel {
                text: text@,
                components: components.deep_view(),
                file_name: file_name.deep_view(),
            }),
    {
        FilePath { text, components, file_name }
    }
}

/// Which files are let through.
#[derive(Debug)]
pub struct FileFilter {
    grep: String,
    packages: Vec<String>,
    suffixes: Vec<String>,
}

/// A filter as plain values.
pub struct FilterModel {
    /// A regular expression for the path; empty for none.
    pub grep: Seq<char>,
    /// Directory names, one of which must be on the path; empty for any.
    pub packages: Seq<Seq<char>>,
    /// Marks, one of which must stand in the file name; empty for any.
    pub suffixes: Seq<Seq<char>>,
}

/// Whether a line of `text` matches the regular expression `pattern`, as the
/// `grep-searcher` crate finds with a `grep-regex` matcher; false where the
/// pattern is not a regular expression.
pub uninterp spec fn grep_finds(pattern: Seq<char>, text: Seq<char>) -> bool;

/// Searches `text` line by line for `pattern`, with
/// `grep_regex::RegexMatcher::new` and `grep_searcher::Searcher::search_reader`.
/// The contract only names the result.
#[verifier::external_body]
pub fn grep_by_text(pattern: &str, text: &str) -> (found: bool)
    ensures
        found == grep_finds(pattern@, text@),
{
    let mut has_match = false;
    if let Ok(matcher) = grep_regex::RegexMatcher::new(pattern) {
        let _ = grep_searcher::Searcher::new().search_reader(
            &matcher,
            text.as_bytes(),
            grep_searcher::sinks::UTF8(|_, _| {
                has_match = true;
                Ok(true)
            }),
        );
    }
    has_match
}

/// Whether a path with these components passes for these packages: there
/// are no packages, or one of the components is one of them.
pub open spec fn in_packages(components: Seq<Seq<char>>, packages: Seq<Seq<char>>) -> bool {
    packages.len() == 0 || exists|i: int|
        0 <= i < components.len() && packages.contains(#[trigger] components[i])
}

/// Whether a file name passes for these marks: there are no marks, or there
/// is a file name and one of the marks stands in it.
pub open spec fn has_mark(file_name: Option<Seq<char>>, suffixes: Seq<Seq<char>>) -> bool {
    suffixes.len() == 0 || match file_name {
        Some(name) => exists|i: int| 0 <= i < suffixes.len() && occurs(name, #[trigger] suffixes[i]),
        None => false,
    }
}

/// Whether the filter lets the path through. A search pattern decides alone
/// where there is one; else the packages where there are any; else the marks.
pub open spec fn allows(filter: FilterModel, path: PathModel) -> bool {
    if filter.grep.len() > 0 {
        grep_finds(filter.grep, path.text)
    } else if filter.packages.len() > 0 {
        in_packages(path.components, filter.packages)
    } else {
        has_mark(path.file_name, filter.suffixes)
    }
}

/// Whether one of the components of `path` is one of `packages`; true where
/// there are no packages.
pub fn filter_by_packages(path: FilePath, packages: &Vec<String>) -> (included: bool)
    ensures
        included == in_packages(path@.components, packages.deep_view()),
{
    if packages.len() == 0 {
        return true;
    }
    let ghost components = path@.components;
    let mut i: usize = 0;
    while i < path.components.len()
        invariant
            components == path@.components,
            i <= path.components.len(),
            forall|j: int| 0 <= j < i ==> !packages.deep_view().contains(#[trigger] components[j]),
        decreases path.components.len() - i,
    {
        assert(components[i as int] == path.components@[i as int]@);
        if holds_text(packages, path.components[i].as_str()) {
            return true;
        }
        i += 1;
    }
    false
}

/// Whether one of `suffixes` stands in the file name of `path`; true where
/// there are no suffixes, false where the path has no file name.
pub fn filter_by_suffix(path: FilePath, suffixes: &Vec<String>) -> (included: bool)
    ensures
        included == has_mark(path@.file_name, suffixes.deep_view()),
{
    if suffixes.len() == 0 {
        return true;
    }
    match &path.file_name {
        None => false,
        Some(file_name) => {
            let ghost marks = suffixes.deep_view();
            assert(path@.file_name == Some(file_name@));
            let mut i: usize = 0;
            while i < suffixes.len()
                invariant
                    marks == suffixes.deep_view(),
                    suffixes.len() > 0,
                    path@.file_name == Some(file_name@),
                    i <= suffixes.len(),
                    forall|j: int| 0 <= j < i ==> !occurs(file_name@, #[trigger] marks[j]),
                decreases suffixes.len() - i,
            {
                assert(marks[i as int] == suffixes@[i as int]@);
                if contains_text(file_name.as_str(), suffixes[i].as_str()) {
                    assert(occurs(file_name@, marks[i as int]));
                    return true;
                }
                i += 1;
            }
            false
        },
    }
}

impl View for FileFilter {
    type V = FilterModel;

    closed spec fn view(&self) -> FilterModel {
        FilterModel {
            grep: self.grep@,
            packages: self.packages.deep_view(),
            suffixes: self.suffixes.deep_view(),
        }
    }
}

impl FileFilter {
    /// The filter with those packages, those suffixes and that search
    /// pattern.
    pub fn new(packages: Vec<String>, suffixes: Vec<String>, string: String) -> (filter: FileFilter)
        ensures
            filter@ == (FilterModel {
                grep: string@,
                packages: packages.deep_view(),
                suffixes: suffixes.deep_view(),
            }),
    {
        FileFilter { grep: string, packages, suffixes }
    }

    /// Whether the filter lets the path through.
    pub fn allow(&self, path: FilePath) -> (allowed: bool)
        ensures
            allowed == allows(self@, path@),
    {
        if !self.grep.as_str().is_empty() {
            return grep_by_text(self.grep.as_str(), path.text.as_str());
        }
        if self.packages.len() > 0 {
            return filter_by_packages(path, &self.packages);
        }
        filter_by_suffix(path, &self.suffixes)
    }
}

impl Default for FileFilter {
    /// The filter that lets every path through.
    fn default() -> (filter: FileFilter)
        ensures
            filter@ == (FilterModel {
                grep: Seq::empty(),
                packages: Seq::empty(),
                suffixes: Seq::empty(),
            }),
    {
        let filter = FileFilter { grep: String::new(), packages: Vec::new(), suffixes: Vec::new() };
        assert(filter.packages.deep_view() =~= Seq::empty());
        assert(filter.suffixes.deep_view() =~= Seq::empty());
        filter
    }
}

impl Clone for FileFilter {
    fn clone(&self) -> (copy: FileFilter)
        ensures
            copy@ == self@,
    {
        FileFilter {
            grep: self.grep.clone(),
            packages: clone_strings(&self.packages),
            suffixes: clone_strings(&self.suffixes),
        }
    }
}

} // verus!
