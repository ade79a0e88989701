//! The layout of the workspace the site tools work in.
use vstd::prelude::*;

use crate::paths::{join, join_path};
use crate::text::{opt_view, owned};

verus! {

/// The parent of a path, as `std::path::Path::parent` computes it.
pub uninterp spec fn path_parent(path: Seq<char>) -> Option<Seq<char>>;

/// The parent of a path (`std::path::Path::parent`).
///
/// Trusted: the result is named, as a function of the path alone. The
/// documentation of `Path::parent` says it returns `None` for a path that ends in
/// a root and for the empty path; that is all this states of the value.
#[verifier::external_body]
fn parent_of(path: &str) -> (res: Option<String>)
    ensures
        opt_view(res) == path_parent(path@),
        path@ == seq!['/'] ==> res is None,
        path@.len() == 0 ==> res is None,
{
    match std::path::Path::new(path).parent() {
        Some(parent) => Some(parent.to_string_lossy().into_owned()),
        None => None,
    }
}

/// The workspace root cannot be found from the given manifest directory.
#[derive(Debug, Clone, Copy, PartialEq, Eq, Structural)]
pub enum WorkspaceRootError {
    MissingParent,
}

impl WorkspaceRootError {
    /// The message that reports this error.
    pub fn message(&self) -> (res: String)
        ensures
            res@ == "failed to resolve workspace root from xtask manifest directory"@,
    {
        owned("failed to resolve workspace root from xtask manifest directory")
    }
}

/// The workspace root, given the parent of the tool's manifest directory.
pub fn workspace_root_from_parent(parent: Option<String>) -> (res: Result<
    String,
    WorkspaceRootError,
>)
    ensures
        match opt_view(parent) {
            Some(p) => res matches Ok(root) && root@ == p,
            None => res == Err::<String, WorkspaceRootError>(WorkspaceRootError::MissingParent),
        },
{
    match parent {
        Some(p) => Ok(p),
        None => Err(WorkspaceRootError::MissingParent),
    }
}

/// The workspace root: the parent of the tool's manifest directory.
pub fn workspace_root_from_xtask_manifest_dir(manifest_dir: &str) -> (res: Result<
    String,
    WorkspaceRootError,
>)
    ensures
        match path_parent(manifest_dir@) {
            Some(p) => res matches Ok(root) && root@ == p,
            None => res == Err::<String, WorkspaceRootError>(WorkspaceRootError::MissingParent),
        },
        manifest_dir@ == seq!['/'] ==> res == Err::<String, WorkspaceRootError>(
            WorkspaceRootError::MissingParent,
        ),
{
    workspace_root_from_parent(parent_of(manifest_dir))
}

/// The book's sources: `book` under the workspace.
pub open spec fn book_source_dir(workspace_root: Seq<char>) -> Seq<char> {
    join_path(workspace_root, "book"@)
}

/// Where the book is built: `web/public/book` under the workspace.
pub open spec fn book_output_dir(workspace_root: Seq<char>) -> Seq<char> {
    join_path(join_path(join_path(workspace_root, "web"@), "public"@), "book"@)
}

/// The source and output directories of the workspace's book.
pub fn workspace_book_dirs(workspace_root: &str) -> (res: (String, String))
    ensures
        res.0@ == book_source_dir(workspace_root@),
        res.1@ == book_output_dir(workspace_root@),
{
    let source = join(workspace_root, "book");
    let web = join(workspace_root, "web");
    let public = join(web.as_str(), "public");
    let output = join(public.as_str(), "book");
    (source, output)
}

} // verus!
