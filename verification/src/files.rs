//! A model of the files below some directories, and of what renaming and removing them does.

use vstd::prelude::*;

verus! {

/// The directories and the files that are there, by their paths.
#[verifier::ext_equal]
pub struct FilesView {
    pub directories: Set<Seq<char>>,
    pub files: Map<Seq<char>, Seq<u8>>,
}

/// The path leads into the directory.
pub open spec fn is_below(directory: Seq<char>, path: Seq<char>) -> bool {
    &&& directory.len() < path.len()
    &&& path.take(directory.len() as int) == directory
    &&& path[directory.len() as int] == '/'
}

/// A path that leads into one directory, into another one instead.
pub open spec fn redirected(path: Seq<char>, from: Seq<char>, to: Seq<char>) -> Seq<char> {
    to + path.skip(from.len() as int)
}

impl FilesView {
    /// Nothing is both a file and a directory.
    pub open spec fn wf(self) -> bool {
        forall|path: Seq<char>| #[trigger]
            self.files.contains_key(path) ==> !self.directories.contains(path)
    }

    /// With a directory and all that is in it under another name, which nothing had.
    pub open spec fn with_directory_renamed(self, from: Seq<char>, to: Seq<char>) -> FilesView {
        FilesView {
            directories: Set::new(
                |path: Seq<char>|
                    if path == to || is_below(to, path) {
                        self.directories.contains(redirected(path, to, from))
                    } else {
                        path != from && !is_below(from, path) && self.directories.contains(path)
                    },
            ),
            files: Map::new(
                |path: Seq<char>|
                    if is_below(to, path) {
                        self.files.contains_key(redirected(path, to, from))
                    } else {
                        !is_below(from, path) && self.files.contains_key(path)
                    },
                |path: Seq<char>|
                    if is_below(to, path) {
                        self.files[redirected(path, to, from)]
                    } else {
                        self.files[path]
                    },
            ),
        }
    }

    /// With a file or a directory under another name.
    pub open spec fn renamed(self, from: Seq<char>, to: Seq<char>) -> FilesView {
        if self.directories.contains(from) {
            self.with_directory_renamed(from, to)
        } else if self.files.contains_key(from) {
            FilesView { files: self.files.remove(from).insert(to, self.files[from]), ..self }
        } else {
            self
        }
    }

    /// Without a file.
    pub open spec fn removed(self, path: Seq<char>) -> FilesView {
        FilesView { files: self.files.remove(path), ..self }
    }
}

} // verus!
