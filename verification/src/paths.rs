//! File-path values.
//!
//! The descriptor format requires UTF-8 paths, so paths are plain strings
//! here. The two path questions the pipeline asks — "what is the parent
//! directory?" and "what is the file extension?" — are answered by the
//! `camino` path library; their results are functions of the path text alone
//! and are named by uninterpreted spec functions.

use vstd::prelude::*;

use crate::error::{SubspaceError, SubspaceErrorV};

verus! {

/// The parent directory of a path, as `camino` computes it from the path
/// text: the path minus its final component, or `None` for a root or empty
/// path.
pub uninterp spec fn parent_of(path: Seq<char>) -> Option<Seq<char>>;

/// The file extension of a path, as `camino` computes it from the path text:
/// the part of the final component after its last dot, when there is one.
pub uninterp spec fn extension_of(path: Seq<char>) -> Option<Seq<char>>;

/// Relies on camino's `Utf8Path::parent` (through `Utf8Path::new`), whose
/// result depends on the path text alone.
#[verifier::external_body]
pub(crate) fn path_parent(path: &String) -> (r: Option<String>)
    ensures
        r is Some <==> parent_of(path@) is Some,
        r is Some ==> r->0@ == parent_of(path@)->0,
{
    cargo_metadata::camino::Utf8Path::new(path)
        .parent()
        .map(|p| p.as_str().to_owned())
}

/// Relies on camino's `Utf8Path::extension` (through `Utf8Path::new`), whose
/// result depends on the path text alone.
#[verifier::external_body]
pub(crate) fn path_extension(path: &String) -> (r: Option<String>)
    ensures
        r is Some <==> extension_of(path@) is Some,
        r is Some ==> r->0@ == extension_of(path@)->0,
{
    cargo_metadata::camino::Utf8Path::new(path)
        .extension()
        .map(|e| e.to_owned())
}

/// The spec-level shape of a [`PathInput`].
pub ghost struct PathInputV {
    pub text: Seq<char>,
    pub is_file: bool,
}

/// A raw path handed to the library, together with the caller's observation
/// of whether it names a regular file on disk (the library itself performs no
/// file-system access).
pub struct PathInput {
    pub text: String,
    pub is_file: bool,
}

impl DeepView for PathInput {
    type V = PathInputV;

    open spec fn deep_view(&self) -> PathInputV {
        PathInputV { text: self.text@, is_file: self.is_file }
    }
}

impl Clone for PathInput {
    /// The clone is the same raw path.
    fn clone(&self) -> (r: Self)
        ensures
            r.deep_view() == self.deep_view(),
    {
        PathInput { text: self.text.clone(), is_file: self.is_file }
    }
}

/// The spec-level shape of a [`FilePathBuf`].
pub ghost struct FilePathBufV {
    pub text: Seq<char>,
    pub parent: Seq<char>,
}

/// Whether a raw path is accepted as a file path.
pub open spec fn path_accepted(p: PathInputV) -> bool {
    p.is_file && parent_of(p.text) is Some
}

/// The error a rejected raw path produces.
pub open spec fn path_error(p: PathInputV) -> SubspaceErrorV {
    if !p.is_file {
        SubspaceErrorV::NotAFile { path: p.text }
    } else {
        SubspaceErrorV::NoParent { path: p.text }
    }
}

/// The file path an accepted raw path produces.
pub open spec fn path_value(p: PathInputV) -> FilePathBufV {
    FilePathBufV { text: p.text, parent: parent_of(p.text)->0 }
}

/// A path that was validated, at construction, to name a regular file.
///
/// Construction is the only way to obtain one, so every value carries the
/// path text together with the text of its parent directory.
#[derive(Debug)]
pub struct FilePathBuf {
    text: String,
    parent: String,
}

impl DeepView for FilePathBuf {
    type V = FilePathBufV;

    closed spec fn deep_view(&self) -> FilePathBufV {
        FilePathBufV { text: self.text@, parent: self.parent@ }
    }
}

impl FilePathBuf {
    /// Validates a raw path: it must name a regular file (per the caller's
    /// observation) and must have a parent directory.
    pub fn from_input(input: PathInput) -> (r: Result<FilePathBuf, SubspaceError>)
        ensures
            r is Ok <==> path_accepted(input.deep_view()),
            r is Ok ==> r->Ok_0.deep_view() == path_value(input.deep_view()),
            r is Err ==> r->Err_0.deep_view() == path_error(input.deep_view()),
    {
        if !input.is_file {
            return Err(SubspaceError::NotAFile { path: input.text });
        }
        match path_parent(&input.text) {
            Some(parent) => Ok(FilePathBuf { text: input.text, parent }),
            None => Err(SubspaceError::NoParent { path: input.text }),
        }
    }

    /// Whether the path text equals the given string.
    pub fn text_equals(&self, other: &String) -> (r: bool)
        ensures
            r == (self.deep_view().text == other@),
    {
        self.text == *other
    }

    /// The path text.
    pub fn as_str(&self) -> (r: &str)
        ensures
            r@ == self.deep_view().text,
    {
        self.text.as_str()
    }

    /// The text of the parent directory.
    pub fn parent_str(&self) -> (r: &str)
        ensures
            r@ == self.deep_view().parent,
    {
        self.parent.as_str()
    }
}

impl Clone for FilePathBuf {
    /// The clone is the same path.
    fn clone(&self) -> (r: Self)
        ensures
            r.deep_view() == self.deep_view(),
    {
        FilePathBuf { text: self.text.clone(), parent: self.parent.clone() }
    }
}

} // verus!
