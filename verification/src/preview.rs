//! Serving a built static site locally: the preview configuration and the base
//! path the preview server mounts the site under.
use vstd::prelude::*;

use crate::paths::{join, join_path};
use crate::text::{concat, owned, push_char, push_str, strip_leading, trim_char, trim_matches};

verus! {

/// Where the built site is, which base path it is served under, what to tell the
/// user when it has not been built, and the JavaScript runtime that serves it.
#[derive(Debug)]
pub struct StaticSitePreviewConfig {
    pub workspace_root: String,
    pub dist_dir: String,
    pub base_path: String,
    pub build_hint: String,
    pub program: String,
}

impl StaticSitePreviewConfig {
    /// A preview of `dist_dir` (resolved against `workspace_root`) under
    /// `base_path`, served with `bun`, with the hint `Build the web site first.`.
    pub fn new(workspace_root: &str, dist_dir: &str, base_path: &str) -> (res: Self)
        ensures
            res.workspace_root@ == workspace_root@,
            res.dist_dir@ == dist_dir@,
            res.base_path@ == base_path@,
            res.build_hint@ == "Build the web site first."@,
            res.program@ == "bun"@,
    {
        StaticSitePreviewConfig {
            workspace_root: owned(workspace_root),
            dist_dir: owned(dist_dir),
            base_path: owned(base_path),
            build_hint: owned("Build the web site first."),
            program: owned("bun"),
        }
    }

    /// Sets what the user is told when the site has not been built.
    pub fn build_hint(self, build_hint: &str) -> (res: Self)
        ensures
            res.build_hint@ == build_hint@,
            res == (StaticSitePreviewConfig { build_hint: res.build_hint, ..self }),
    {
        let mut res = self;
        res.build_hint = owned(build_hint);
        res
    }

    /// Sets the JavaScript runtime that runs the preview server.
    pub fn program(self, program: &str) -> (res: Self)
        ensures
            res.program@ == program@,
            res == (StaticSitePreviewConfig { program: res.program, ..self }),
    {
        let mut res = self;
        res.program = owned(program);
        res
    }

    /// The built site's directory, resolved against the workspace root.
    pub fn resolved_dist_dir(&self) -> (res: String)
        ensures
            res@ == join_path(self.workspace_root@, self.dist_dir@),
    {
        resolve(self.workspace_root.as_str(), self.dist_dir.as_str())
    }

    /// Where the preview server script is written: `target/stayhydated` under the
    /// workspace.
    pub fn script_path(&self) -> (res: String)
        ensures
            res@ == join_path(self.workspace_root@, "target/stayhydated/static-site-preview.js"@),
    {
        join(self.workspace_root.as_str(), "target/stayhydated/static-site-preview.js")
    }

    /// Reports that the built site is missing from `dist_dir`, with the build hint.
    pub fn missing_output_message(&self, dist_dir: &str) -> (res: String)
        ensures
            res@ == "missing static site output at "@ + dist_dir@ + "; "@ + self.build_hint@,
    {
        let mut s = concat("missing static site output at ", dist_dir);
        push_str(&mut s, "; ");
        push_str(&mut s, self.build_hint.as_str());
        s
    }
}

/// `path` resolved against the workspace root; an absolute path stays as it is.
pub fn resolve(workspace_root: &str, path: &str) -> (res: String)
    ensures
        res@ == join_path(workspace_root@, path@),
{
    join(workspace_root, path)
}

/// The base path the preview server mounts the site under: empty for the root,
/// otherwise the path without surrounding `/` behind a single leading `/`.
pub open spec fn normalized_base_path(value: Seq<char>) -> Seq<char> {
    let trimmed = trim_char(value, '/');
    if trimmed.len() == 0 {
        Seq::empty()
    } else {
        seq!['/'] + trimmed
    }
}

/// Normalizes a base path for the preview server.
pub fn normalize_base_path(value: &str) -> (res: String)
    ensures
        res@ == normalized_base_path(value@),
{
    let trimmed = trim_matches(value, '/');
    if trimmed.as_str().is_empty() {
        String::new()
    } else {
        let mut res = String::new();
        push_char(&mut res, '/');
        push_str(&mut res, trimmed.as_str());
        res
    }
}

/// A normalized base path is empty or starts with a single `/` and does not end
/// with one, and normalizing it again changes nothing.
pub proof fn law_normalized_base_path(value: Seq<char>)
    ensures
        ({
            let n = normalized_base_path(value);
            &&& n.len() == 0 || (n[0] == '/' && (n.len() == 1 || n[1] != '/') && n.last() != '/')
            &&& normalized_base_path(n) == n
        }),
{
    let t = trim_char(value, '/');
    crate::text::law_trim_char(value, '/');
    if t.len() > 0 {
        let n = seq!['/'] + t;
        assert(n.drop_first() =~= t);
        assert(strip_leading(t, '/') == t);
        assert(strip_leading(n, '/') == t);
        assert(trim_char(n, '/') == t);
        assert(n[1] == t[0]);
        assert(n.last() == t.last());
    }
}

} // verus!
