use std::path::PathBuf;

use vstd::prelude::*;
use vstd::std_specs::iter::IteratorSpec;

verus! {

#[verifier::external_type_specification]
#[verifier::external_body]
pub struct ExPathBuf(PathBuf);

/// A named set of files, in the order in which they were found.
#[derive(Debug)]
pub struct FileSet {
    name: String,
    files: Vec<PathBuf>,
}

impl FileSet {
    pub closed spec fn name(&self) -> Seq<char> {
        self.name@
    }

    pub closed spec fn paths(&self) -> Seq<PathBuf> {
        self.files@
    }

    pub fn new(name: String, files: Vec<PathBuf>) -> (r: FileSet)
        ensures
            r.name() == name@,
            r.paths() == files@,
    {
        FileSet { name, files }
    }

    /// The files of the set, in order.
    pub fn iter(&self) -> (r: std::slice::Iter<'_, PathBuf>)
        ensures
            IteratorSpec::remaining(&r) == self.paths().map_values(|path: PathBuf| &path),
    {
        broadcast use vstd::std_specs::slice::axiom_spec_slice_iter;

        let r = self.files.as_slice().iter();
        assert(IteratorSpec::remaining(&r) =~= self.paths().map_values(|path: PathBuf| &path));
        r
    }
}

/// Where to look for files and which glob patterns select them; a pattern
/// that starts with `!` excludes what it matches.
#[derive(Debug)]
pub struct FileSetGlob {
    base_directory: PathBuf,
    globs: Vec<String>,
}

impl FileSetGlob {
    pub closed spec fn base(&self) -> PathBuf {
        self.base_directory
    }

    pub closed spec fn patterns(&self) -> Seq<Seq<char>> {
        self.globs@.map_values(|glob: String| glob@)
    }

    pub fn new(base_directory: PathBuf, globs: Vec<String>) -> (r: FileSetGlob)
        ensures
            r.base() == base_directory,
            r.patterns() == globs@.map_values(|glob: String| glob@),
    {
        FileSetGlob { base_directory, globs }
    }

    pub fn base_directory(&self) -> (r: &PathBuf)
        ensures
            *r == self.base(),
    {
        &self.base_directory
    }

    pub fn globs(&self) -> (r: &Vec<String>)
        ensures
            r@.map_values(|glob: String| glob@) == self.patterns(),
    {
        &self.globs
    }
}

} // verus!
