//! The static web site of a project: the Dioxus build command, the assembly
//! configuration for GitHub Pages, and the fallback files of application routes.
use vstd::prelude::*;

use crate::manifest::{SiteRouteManifest, SiteRouteManifestView, href_views};
use crate::paths::{join, join_path};
use crate::routing::Href;
use crate::sitemap::sitemap_document;
use crate::text::{
    chars_of, clone_opt, concat, copy_string, joined, lemma_views_push, opt_view, owned,
    split_pieces, trim, trim_char, trim_matches, trim_ws, views,
};
use vstd::std_specs::cmp::PartialEqSpecImpl;

verus! {

/// The name of a Cargo package to build.
#[derive(Debug)]
pub struct PackageName(String);

impl View for PackageName {
    type V = Seq<char>;

    closed spec fn view(&self) -> Seq<char> {
        self.0@
    }
}

impl Clone for PackageName {
    fn clone(&self) -> (res: Self)
        ensures
            res@ == self@,
    {
        PackageName(copy_string(&self.0))
    }
}

impl PartialEq for PackageName {
    fn eq(&self, other: &Self) -> (res: bool) {
        self.0 == other.0
    }
}

impl PartialEqSpecImpl for PackageName {
    open spec fn obeys_eq_spec() -> bool {
        true
    }

    open spec fn eq_spec(&self, other: &Self) -> bool {
        self@ == other@
    }
}

impl Eq for PackageName {}

impl PackageName {
    pub fn new(name: &str) -> (res: Self)
        ensures
            res@ == name@,
    {
        PackageName(owned(name))
    }

    /// The package name.
    pub fn as_str(&self) -> (res: &str)
        ensures
            res@ == self@,
    {
        self.0.as_str()
    }
}

/// A file or directory copied into the assembled site.
#[derive(Debug)]
pub struct CopyPath {
    pub source: String,
    pub destination: String,
}

/// A file written into the assembled site.
#[derive(Debug)]
pub struct WriteFile {
    pub destination: String,
    pub contents: String,
}

/// The views of copy declarations: each source and destination.
pub open spec fn copy_path_views(copies: Seq<CopyPath>) -> Seq<(Seq<char>, Seq<char>)> {
    copies.map_values(|c: CopyPath| (c.source@, c.destination@))
}

/// The views of written files: each destination and its contents.
pub open spec fn write_file_views(writes: Seq<WriteFile>) -> Seq<(Seq<char>, Seq<char>)> {
    writes.map_values(|w: WriteFile| (w.destination@, w.contents@))
}

/// The platform a Dioxus build targets.
#[derive(Debug, Clone, Copy, PartialEq, Eq, Structural)]
pub enum DioxusPlatform {
    Web,
}

impl DioxusPlatform {
    /// The value of the `--platform` argument.
    pub fn as_arg(self) -> (res: &'static str)
        ensures
            res@ == "web"@,
    {
        match self {
            DioxusPlatform::Web => "web",
        }
    }
}

/// The abstract content of a Dioxus build command.
pub struct DioxusBuildView {
    pub program: Seq<char>,
    pub package: Option<Seq<char>>,
    pub base_path: Option<Seq<char>>,
    pub platform: DioxusPlatform,
    pub ssg: bool,
    pub release: bool,
    pub debug_symbols: bool,
    pub force_sequential: bool,
}

/// A `dx build` invocation.
#[derive(Debug)]
pub struct DioxusBuildCommand {
    program: String,
    package: Option<PackageName>,
    base_path: Option<String>,
    platform: DioxusPlatform,
    ssg: bool,
    release: bool,
    debug_symbols: bool,
    force_sequential: bool,
}

/// The view of an optional package name.
pub open spec fn package_view(p: Option<PackageName>) -> Option<Seq<char>> {
    match p {
        Some(name) => Some(name@),
        None => None,
    }
}

impl View for DioxusBuildCommand {
    type V = DioxusBuildView;

    closed spec fn view(&self) -> DioxusBuildView {
        DioxusBuildView {
            program: self.program@,
            package: package_view(self.package),
            base_path: opt_view(self.base_path),
            platform: self.platform,
            ssg: self.ssg,
            release: self.release,
            debug_symbols: self.debug_symbols,
            force_sequential: self.force_sequential,
        }
    }
}

fn clone_package(p: &Option<PackageName>) -> (res: Option<PackageName>)
    ensures
        package_view(res) == package_view(*p),
{
    match p {
        Some(name) => Some(name.clone()),
        None => None,
    }
}

fn same_text(a: &Option<String>, b: &Option<String>) -> (res: bool)
    ensures
        res == (opt_view(*a) == opt_view(*b)),
{
    match (a, b) {
        (Some(x), Some(y)) => *x == *y,
        (None, None) => true,
        _ => false,
    }
}

fn same_package(a: &Option<PackageName>, b: &Option<PackageName>) -> (res: bool)
    ensures
        res == (package_view(*a) == package_view(*b)),
{
    match (a, b) {
        (Some(x), Some(y)) => *x == *y,
        (None, None) => true,
        _ => false,
    }
}

impl Clone for DioxusBuildCommand {
    fn clone(&self) -> (res: Self)
        ensures
            res@ == self@,
    {
        DioxusBuildCommand {
            program: copy_string(&self.program),
            package: clone_package(&self.package),
            base_path: clone_opt(&self.base_path),
            platform: self.platform,
            ssg: self.ssg,
            release: self.release,
            debug_symbols: self.debug_symbols,
            force_sequential: self.force_sequential,
        }
    }
}

impl PartialEq for DioxusBuildCommand {
    fn eq(&self, other: &Self) -> (res: bool) {
        self.program == other.program && same_package(&self.package, &other.package) && same_text(
            &self.base_path,
            &other.base_path,
        ) && self.platform == other.platform && self.ssg == other.ssg && self.release
            == other.release && self.debug_symbols == other.debug_symbols && self.force_sequential
            == other.force_sequential
    }
}

impl PartialEqSpecImpl for DioxusBuildCommand {
    open spec fn obeys_eq_spec() -> bool {
        true
    }

    open spec fn eq_spec(&self, other: &Self) -> bool {
        self@ == other@
    }
}

impl Eq for DioxusBuildCommand {}

/// `true` or `false`, as Rust writes a `bool`.
pub open spec fn bool_text(b: bool) -> Seq<char> {
    if b {
        "true"@
    } else {
        "false"@
    }
}

fn bool_string(b: bool) -> (res: String)
    ensures
        res@ == bool_text(b),
{
    if b {
        owned("true")
    } else {
        owned("false")
    }
}

/// The arguments of a Dioxus build: `build`, the package if one is set, the
/// platform, `--ssg`, `--release`, the debug-symbols and sequential-build flags,
/// and the base path if one is set.
pub open spec fn dioxus_arguments(c: DioxusBuildView) -> Seq<Seq<char>> {
    seq!["build"@] + match c.package {
        Some(p) => seq!["--package"@, p],
        None => Seq::empty(),
    } + seq![
        "--platform"@,
        "web"@,
        "--ssg"@,
        "--release"@,
        "--debug-symbols"@,
        bool_text(c.debug_symbols),
        "--force-sequential"@,
        bool_text(c.force_sequential),
    ] + match c.base_path {
        Some(b) => seq!["--base-path"@, b],
        None => Seq::empty(),
    }
}

impl DioxusBuildCommand {
    /// A release static-site build for the web with `dx`, without debug symbols
    /// and building sequentially.
    pub fn web_static_site(package: Option<PackageName>) -> (res: Self)
        ensures
            res@ == (DioxusBuildView {
                program: "dx"@,
                package: package_view(package),
                base_path: None,
                platform: DioxusPlatform::Web,
                ssg: true,
                release: true,
                debug_symbols: false,
                force_sequential: true,
            }),
    {
        DioxusBuildCommand {
            program: owned("dx"),
            package,
            base_path: None,
            platform: DioxusPlatform::Web,
            ssg: true,
            release: true,
            debug_symbols: false,
            force_sequential: true,
        }
    }

    /// The same build served under `base_path`.
    pub fn with_base_path(self, base_path: &str) -> (res: Self)
        ensures
            res@ == (DioxusBuildView { base_path: Some(base_path@), ..self@ }),
    {
        let mut res = self;
        res.base_path = Some(owned(base_path));
        res
    }

    /// The program that is run.
    pub fn program(&self) -> (res: &str)
        ensures
            res@ == self@.program,
    {
        self.program.as_str()
    }

    /// The arguments of the build.
    pub fn argv(&self) -> (res: Vec<String>)
        ensures
            views(res@) == dioxus_arguments(self@),
    {
        let mut args: Vec<String> = vec![owned("build")];
        match &self.package {
            Some(package) => {
                args.push(owned("--package"));
                args.push(owned(package.as_str()));
            },
            None => {},
        }
        let ghost mid = views(args@);
        args.push(owned("--platform"));
        args.push(owned(self.platform.as_arg()));
        args.push(owned("--ssg"));
        args.push(owned("--release"));
        args.push(owned("--debug-symbols"));
        args.push(bool_string(self.debug_symbols));
        args.push(owned("--force-sequential"));
        args.push(bool_string(self.force_sequential));
        let ghost late = views(args@);
        match &self.base_path {
            Some(base_path) => {
                args.push(owned("--base-path"));
                args.push(copy_string(base_path));
            },
            None => {},
        }
        proof {
            let first = seq!["build"@] + match self@.package {
                Some(p) => seq!["--package"@, p],
                None => Seq::<Seq<char>>::empty(),
            };
            let flags = seq![
                "--platform"@,
                "web"@,
                "--ssg"@,
                "--release"@,
                "--debug-symbols"@,
                bool_text(self.debug_symbols),
                "--force-sequential"@,
                bool_text(self.force_sequential),
            ];
            assert(mid =~= first);
            assert(late =~= first + flags);
            assert(views(args@) =~= dioxus_arguments(self@));
        }
        args
    }

    /// The command line as one line of text: the program and its arguments,
    /// separated by spaces.
    pub fn display(&self) -> (res: String)
        ensures
            res@ == self@.program + " "@ + joined(dioxus_arguments(self@), " "@),
    {
        let mut s = copy_string(&self.program);
        crate::text::push_str(&mut s, " ");
        let args = self.argv();
        let line = crate::text::join_strings(&args, " ");
        crate::text::push_str(&mut s, line.as_str());
        s
    }
}

/// The view of an optional route manifest.
pub open spec fn manifest_view(m: Option<SiteRouteManifest>) -> Option<SiteRouteManifestView> {
    match m {
        Some(manifest) => Some(manifest@),
        None => None,
    }
}

fn clone_manifest(m: &Option<SiteRouteManifest>) -> (res: Option<SiteRouteManifest>)
    ensures
        manifest_view(res) == manifest_view(*m),
{
    match m {
        Some(manifest) => Some(manifest.clone()),
        None => None,
    }
}

/// Everything needed to assemble the static site: the Dioxus build, where its
/// output lands, what is copied and written next to it, and the routes that get
/// fallback pages and a sitemap.
#[derive(Debug)]
pub struct WebBuildConfig {
    pub command_current_dir: String,
    pub dioxus_command: DioxusBuildCommand,
    pub dx_public_dir: String,
    pub dist_dir: String,
    pub copy_dirs: Vec<CopyPath>,
    pub copy_files: Vec<CopyPath>,
    pub write_files: Vec<WriteFile>,
    pub route_manifest: Option<SiteRouteManifest>,
    pub write_404_from_index: bool,
}

/// The abstract content of a site configuration under construction.
pub struct WebBuildConfigBuilderView {
    pub workspace_root: Seq<char>,
    pub command_current_dir: Option<Seq<char>>,
    pub package: Option<Seq<char>>,
    pub extra_copy_dirs: Seq<(Seq<char>, Seq<char>)>,
    pub extra_copy_files: Seq<(Seq<char>, Seq<char>)>,
    pub public_assets_dir: Option<Seq<char>>,
    pub route_manifest: Option<SiteRouteManifestView>,
}

/// A GitHub Pages site configuration under construction.
#[derive(Debug)]
pub struct WebBuildConfigBuilder {
    workspace_root: String,
    command_current_dir: Option<String>,
    package: Option<PackageName>,
    extra_copy_dirs: Vec<CopyPath>,
    extra_copy_files: Vec<CopyPath>,
    public_assets_dir: Option<String>,
    route_manifest: Option<SiteRouteManifest>,
}

impl View for WebBuildConfigBuilder {
    type V = WebBuildConfigBuilderView;

    closed spec fn view(&self) -> WebBuildConfigBuilderView {
        WebBuildConfigBuilderView {
            workspace_root: self.workspace_root@,
            command_current_dir: opt_view(self.command_current_dir),
            package: package_view(self.package),
            extra_copy_dirs: copy_path_views(self.extra_copy_dirs@),
            extra_copy_files: copy_path_views(self.extra_copy_files@),
            public_assets_dir: opt_view(self.public_assets_dir),
            route_manifest: manifest_view(self.route_manifest),
        }
    }
}

/// The directory the site is assembled in: `web/dist` under the workspace.
pub open spec fn dist_dir_of(workspace_root: Seq<char>) -> Seq<char> {
    join_path(workspace_root, "web/dist"@)
}

/// A copy from `source` under the workspace to `destination` under the site.
pub open spec fn site_copy(workspace_root: Seq<char>, source: Seq<char>, destination: Seq<char>) -> (
    Seq<char>,
    Seq<char>,
) {
    (join_path(workspace_root, source), join_path(dist_dir_of(workspace_root), destination))
}

/// The directories copied into the site: the public assets if any, the book, the
/// LLM pages, then the extra directories.
pub open spec fn site_copy_dirs(b: WebBuildConfigBuilderView) -> Seq<(Seq<char>, Seq<char>)> {
    (match b.public_assets_dir {
        Some(assets) => seq![site_copy(b.workspace_root, assets, "assets"@)],
        None => Seq::empty(),
    }) + seq![
        site_copy(b.workspace_root, "web/public/book"@, "book"@),
        site_copy(b.workspace_root, "web/public/llms"@, "llms"@),
    ] + b.extra_copy_dirs
}

/// The files copied into the site: the two LLM text files, then the extra files.
pub open spec fn site_copy_files(b: WebBuildConfigBuilderView) -> Seq<(Seq<char>, Seq<char>)> {
    seq![
        site_copy(b.workspace_root, "web/public/llms.txt"@, "llms.txt"@),
        site_copy(b.workspace_root, "web/public/llms-full.txt"@, "llms-full.txt"@),
    ] + b.extra_copy_files
}

/// The files written into the site: an empty `.nojekyll`.
pub open spec fn site_write_files(b: WebBuildConfigBuilderView) -> Seq<(Seq<char>, Seq<char>)> {
    seq![(join_path(dist_dir_of(b.workspace_root), ".nojekyll"@), Seq::<char>::empty())]
}

/// A configured public assets directory is what gets copied to `assets` in the
/// site: the first copied directory comes from that directory under the
/// workspace; without one, the first copied directory is the book.
pub proof fn law_public_assets_are_copied_from_the_configured_directory(
    b: WebBuildConfigBuilderView,
)
    ensures
        b.public_assets_dir matches Some(p) ==> site_copy_dirs(b).len() > 0 && site_copy_dirs(b)[0]
            == (join_path(b.workspace_root, p), join_path(
            join_path(b.workspace_root, "web/dist"@),
            "assets"@,
        )),
        b.public_assets_dir is None ==> site_copy_dirs(b).len() > 0 && site_copy_dirs(b)[0] == (
        join_path(b.workspace_root, "web/public/book"@),
        join_path(join_path(b.workspace_root, "web/dist"@), "book"@),
        ),
{
}

fn copy_path(workspace_root: &str, dist_dir: &str, source: &str, destination: &str) -> (res:
    CopyPath)
    ensures
        res.source@ == join_path(workspace_root@, source@),
        res.destination@ == join_path(dist_dir@, destination@),
{
    CopyPath { source: join(workspace_root, source), destination: join(dist_dir, destination) }
}

proof fn lemma_copy_path_views_push(s: Seq<CopyPath>, c: CopyPath)
    ensures
        copy_path_views(s.push(c)) == copy_path_views(s).push((c.source@, c.destination@)),
{
    assert(copy_path_views(s.push(c)) =~= copy_path_views(s).push((c.source@, c.destination@)));
}

impl WebBuildConfig {
    /// Starts a GitHub Pages configuration for the workspace at `workspace_root`,
    /// with the public assets taken from `web/public/assets`.
    pub fn github_pages(workspace_root: &str) -> (res: WebBuildConfigBuilder)
        ensures
            res@ == (WebBuildConfigBuilderView {
                workspace_root: workspace_root@,
                command_current_dir: None,
                package: None,
                extra_copy_dirs: Seq::empty(),
                extra_copy_files: Seq::empty(),
                public_assets_dir: Some("web/public/assets"@),
                route_manifest: None,
            }),
    {
        let res = WebBuildConfigBuilder {
            workspace_root: owned(workspace_root),
            command_current_dir: None,
            package: None,
            extra_copy_dirs: Vec::new(),
            extra_copy_files: Vec::new(),
            public_assets_dir: Some(owned("web/public/assets")),
            route_manifest: None,
        };
        assert(copy_path_views(res.extra_copy_dirs@) =~= Seq::empty());
        assert(copy_path_views(res.extra_copy_files@) =~= Seq::empty());
        res
    }
}

impl WebBuildConfigBuilder {
    /// Runs the Dioxus build in `path` instead of the workspace root.
    pub fn command_current_dir(self, path: &str) -> (res: Self)
        ensures
            res@ == (WebBuildConfigBuilderView { command_current_dir: Some(path@), ..self@ }),
    {
        let mut res = self;
        res.command_current_dir = Some(owned(path));
        res
    }

    /// Builds the package `package`.
    pub fn package(self, package: &str) -> (res: Self)
        ensures
            res@ == (WebBuildConfigBuilderView { package: Some(package@), ..self@ }),
    {
        let mut res = self;
        res.package = Some(PackageName::new(package));
        res
    }

    /// Copies no public assets directory.
    pub fn no_public_assets_dir(self) -> (res: Self)
        ensures
            res@ == (WebBuildConfigBuilderView { public_assets_dir: None, ..self@ }),
    {
        let mut res = self;
        res.public_assets_dir = None;
        res
    }

    /// Copies the public assets from `path` under the workspace.
    pub fn public_assets_dir(self, path: &str) -> (res: Self)
        ensures
            res@ == (WebBuildConfigBuilderView { public_assets_dir: Some(path@), ..self@ }),
    {
        let mut res = self;
        res.public_assets_dir = Some(owned(path));
        res
    }

    fn dist_dir(&self) -> (res: String)
        ensures
            res@ == dist_dir_of(self@.workspace_root),
    {
        join(self.workspace_root.as_str(), "web/dist")
    }

    /// Also copies the directory `source` of the workspace to `destination` in the site.
    pub fn extra_dir(self, source: &str, destination: &str) -> (res: Self)
        ensures
            res@ == (WebBuildConfigBuilderView {
                extra_copy_dirs: self@.extra_copy_dirs.push(
                    site_copy(self@.workspace_root, source@, destination@),
                ),
                ..self@
            }),
    {
        let mut res = self;
        let dist = res.dist_dir();
        let copy = copy_path(res.workspace_root.as_str(), dist.as_str(), source, destination);
        let ghost before = res.extra_copy_dirs@;
        res.extra_copy_dirs.push(copy);
        proof {
            lemma_copy_path_views_push(before, copy);
        }
        res
    }

    /// Also copies the file `source` of the workspace to `destination` in the site.
    pub fn extra_file(self, source: &str, destination: &str) -> (res: Self)
        ensures
            res@ == (WebBuildConfigBuilderView {
                extra_copy_files: self@.extra_copy_files.push(
                    site_copy(self@.workspace_root, source@, destination@),
                ),
                ..self@
            }),
    {
        let mut res = self;
        let dist = res.dist_dir();
        let copy = copy_path(res.workspace_root.as_str(), dist.as_str(), source, destination);
        let ghost before = res.extra_copy_files@;
        res.extra_copy_files.push(copy);
        proof {
            lemma_copy_path_views_push(before, copy);
        }
        res
    }

    /// Writes fallback pages and a sitemap for the routes of `route_manifest`.
    pub fn route_manifest(self, route_manifest: SiteRouteManifest) -> (res: Self)
        ensures
            res@ == (WebBuildConfigBuilderView { route_manifest: Some(route_manifest@), ..self@ }),
    {
        let mut res = self;
        res.route_manifest = Some(route_manifest);
        res
    }

    /// The finished configuration: a static-site Dioxus build of the chosen package,
    /// run in the chosen directory (the workspace root by default), whose output in
    /// `target/dx/web/release/web/public` is assembled in `web/dist` together with
    /// the copied directories and files, an empty `.nojekyll`, the route fallbacks
    /// and sitemap of the manifest, and a `404.html` copied from the index.
    pub fn build(self) -> (res: WebBuildConfig)
        ensures
            res.command_current_dir@ == match self@.command_current_dir {
                Some(dir) => dir,
                None => self@.workspace_root,
            },
            res.dioxus_command@ == (DioxusBuildView {
                program: "dx"@,
                package: self@.package,
                base_path: None,
                platform: DioxusPlatform::Web,
                ssg: true,
                release: true,
                debug_symbols: false,
                force_sequential: true,
            }),
            res.dx_public_dir@ == join_path(self@.workspace_root, "target/dx/web/release/web/public"@),
            res.dist_dir@ == dist_dir_of(self@.workspace_root),
            copy_path_views(res.copy_dirs@) == site_copy_dirs(self@),
            copy_path_views(res.copy_files@) == site_copy_files(self@),
            write_file_views(res.write_files@) == site_write_files(self@),
            manifest_view(res.route_manifest) == self@.route_manifest,
            res.write_404_from_index,
    {
        let dist = self.dist_dir();
        let root = self.workspace_root.as_str();
        let mut copy_dirs: Vec<CopyPath> = Vec::new();
        match &self.public_assets_dir {
            Some(assets) => {
                copy_dirs.push(copy_path(root, dist.as_str(), assets.as_str(), "assets"));
            },
            None => {},
        }
        let ghost first = copy_path_views(copy_dirs@);
        copy_dirs.push(copy_path(root, dist.as_str(), "web/public/book", "book"));
        copy_dirs.push(copy_path(root, dist.as_str(), "web/public/llms", "llms"));
        let ghost standard = copy_path_views(copy_dirs@);
        let mut i: usize = 0;
        while i < self.extra_copy_dirs.len()
            invariant
                i <= self.extra_copy_dirs@.len(),
                copy_path_views(copy_dirs@) == standard + copy_path_views(
                    self.extra_copy_dirs@,
                ).take(i as int),
            decreases self.extra_copy_dirs@.len() - i,
        {
            let c = CopyPath {
                source: copy_string(&self.extra_copy_dirs[i].source),
                destination: copy_string(&self.extra_copy_dirs[i].destination),
            };
            let ghost before = copy_dirs@;
            copy_dirs.push(c);
            proof {
                lemma_copy_path_views_push(before, c);
                assert(standard + copy_path_views(self.extra_copy_dirs@).take(i + 1) =~= (standard
                    + copy_path_views(self.extra_copy_dirs@).take(i as int)).push(
                    (c.source@, c.destination@),
                ));
            }
            i += 1;
        }
        proof {
            assert(copy_path_views(self.extra_copy_dirs@).take(self.extra_copy_dirs@.len() as int)
                =~= copy_path_views(self.extra_copy_dirs@));
            let assets = match self@.public_assets_dir {
                Some(a) => seq![site_copy(self@.workspace_root, a, "assets"@)],
                None => Seq::<(Seq<char>, Seq<char>)>::empty(),
            };
            assert(first =~= assets);
            assert(copy_path_views(copy_dirs@) =~= site_copy_dirs(self@));
        }
        let mut copy_files: Vec<CopyPath> = vec![
            copy_path(root, dist.as_str(), "web/public/llms.txt", "llms.txt"),
            copy_path(root, dist.as_str(), "web/public/llms-full.txt", "llms-full.txt"),
        ];
        let ghost standard_files = copy_path_views(copy_files@);
        let mut k: usize = 0;
        while k < self.extra_copy_files.len()
            invariant
                k <= self.extra_copy_files@.len(),
                copy_path_views(copy_files@) == standard_files + copy_path_views(
                    self.extra_copy_files@,
                ).take(k as int),
            decreases self.extra_copy_files@.len() - k,
        {
            let c = CopyPath {
                source: copy_string(&self.extra_copy_files[k].source),
                destination: copy_string(&self.extra_copy_files[k].destination),
            };
            let ghost before = copy_files@;
            copy_files.push(c);
            proof {
                lemma_copy_path_views_push(before, c);
                assert(standard_files + copy_path_views(self.extra_copy_files@).take(k + 1) =~= (
                standard_files + copy_path_views(self.extra_copy_files@).take(k as int)).push(
                    (c.source@, c.destination@),
                ));
            }
            k += 1;
        }
        proof {
            assert(copy_path_views(self.extra_copy_files@).take(self.extra_copy_files@.len() as int)
                =~= copy_path_views(self.extra_copy_files@));
            assert(copy_path_views(copy_files@) =~= site_copy_files(self@));
        }
        let write_files = vec![WriteFile { destination: join(dist.as_str(), ".nojekyll"), contents: String::new() }];
        proof {
            assert(write_file_views(write_files@) =~= site_write_files(self@));
        }
        let command_current_dir = match &self.command_current_dir {
            Some(dir) => copy_string(dir),
            None => copy_string(&self.workspace_root),
        };
        WebBuildConfig {
            command_current_dir,
            dioxus_command: DioxusBuildCommand::web_static_site(clone_package(&self.package)),
            dx_public_dir: join(root, "target/dx/web/release/web/public"),
            dist_dir: dist,
            copy_dirs,
            copy_files,
            write_files,
            route_manifest: clone_manifest(&self.route_manifest),
            write_404_from_index: true,
        }
    }
}

/// A path segment that may name a directory of the site: not empty, not `.` or
/// `..`, and free of `\`.
pub open spec fn safe_segment(segment: Seq<char>) -> bool {
    segment.len() > 0 && segment != seq!['.'] && segment != seq!['.', '.'] && !segment.contains(
        '\\',
    )
}

/// Whether every `/`-separated piece of `path` is a safe segment.
pub open spec fn all_safe_segments(path: Seq<char>) -> bool {
    forall|i: int|
        0 <= i < split_pieces(path, '/').len() ==> safe_segment(
            #[trigger] split_pieces(path, '/')[i],
        )
}

/// The fallback page of a route, relative to the site: the route without
/// surrounding whitespace and `/`, followed by `/index.html`. The root route has
/// none, and neither has a route with an empty, `.` or `..` segment or a `\`.
pub open spec fn route_fallback(path: Seq<char>) -> Option<Seq<char>> {
    let route = trim_char(trim_ws(path), '/');
    if route.len() == 0 || !all_safe_segments(route) {
        None
    } else {
        Some(route + "/index.html"@)
    }
}

fn is_safe_segment(segment: &Vec<char>) -> (res: bool)
    ensures
        res == safe_segment(segment@),
{
    if segment.len() == 0 {
        return false;
    }
    if segment.len() == 1 && segment[0] == '.' {
        assert(segment@ =~= seq!['.']);
        return false;
    }
    if segment.len() == 2 && segment[0] == '.' && segment[1] == '.' {
        assert(segment@ =~= seq!['.', '.']);
        return false;
    }
    assert(segment@ != seq!['.']) by {
        if segment@ == seq!['.'] {
            assert(segment@[0] == '.');
        }
    }
    assert(segment@ != seq!['.', '.']) by {
        if segment@ == seq!['.', '.'] {
            assert(segment@[0] == '.' && segment@[1] == '.');
        }
    }
    let mut i: usize = 0;
    while i < segment.len()
        invariant
            i <= segment@.len(),
            forall|j: int| 0 <= j < i ==> segment@[j] != '\\',
        decreases segment@.len() - i,
    {
        if segment[i] == '\\' {
            assert(segment@.contains('\\'));
            return false;
        }
        i += 1;
    }
    true
}

fn segments_safe(v: &Vec<char>) -> (res: bool)
    ensures
        res == all_safe_segments(v@),
{
    let mut cur: Vec<char> = Vec::new();
    let mut ok = true;
    let mut i: usize = 0;
    proof {
        assert(v@.take(0) =~= Seq::<char>::empty());
        crate::text::lemma_split_pieces_nonempty(v@.take(0), '/');
    }
    while i < v.len()
        invariant
            i <= v@.len(),
            split_pieces(v@.take(i as int), '/').len() >= 1,
            cur@ == split_pieces(v@.take(i as int), '/').last(),
            ok <==> forall|j: int|
                0 <= j < split_pieces(v@.take(i as int), '/').len() - 1 ==> safe_segment(
                    #[trigger] split_pieces(v@.take(i as int), '/')[j],
                ),
        decreases v@.len() - i,
    {
        let ghost before = split_pieces(v@.take(i as int), '/');
        let ghost s1 = v@.take(i + 1);
        proof {
            assert(s1.drop_last() =~= v@.take(i as int));
            assert(s1.last() == v@[i as int]);
        }
        let c = v[i];
        if c == '/' {
            let safe = is_safe_segment(&cur);
            proof {
                let after = split_pieces(s1, '/');
                assert(after == before.push(Seq::<char>::empty()));
                assert forall|j: int| 0 <= j < after.len() - 1 && ok && safe implies safe_segment(
                    #[trigger] after[j],
                ) by {
                    if j < before.len() - 1 {
                        assert(after[j] == before[j]);
                    } else {
                        assert(after[j] == before.last());
                    }
                }
                if !(ok && safe) {
                    if !safe {
                        assert(after[before.len() - 1] == before.last());
                        assert(!safe_segment(after[before.len() - 1]));
                    } else {
                        let j = choose|j: int|
                            0 <= j < before.len() - 1 && !safe_segment(#[trigger] before[j]);
                        assert(after[j] == before[j]);
                    }
                }
            }
            ok = ok && safe;
            cur = Vec::new();
            proof {
                assert(cur@ =~= Seq::<char>::empty());
            }
        } else {
            cur.push(c);
            proof {
                let after = split_pieces(s1, '/');
                assert(after == before.update(before.len() - 1, before.last().push(c)));
                assert forall|j: int| 0 <= j < after.len() - 1 implies #[trigger] after[j] == before[j] by {
                }
                if !ok {
                    let j = choose|j: int|
                        0 <= j < before.len() - 1 && !safe_segment(#[trigger] before[j]);
                    assert(after[j] == before[j]);
                }
            }
        }
        i += 1;
        proof {
            crate::text::lemma_split_pieces_nonempty(v@.take(i as int), '/');
        }
    }
    let last = is_safe_segment(&cur);
    proof {
        assert(v@.take(v@.len() as int) =~= v@);
        let all = split_pieces(v@, '/');
        if !last {
            assert(!safe_segment(all[all.len() - 1]));
        }
    }
    ok && last
}

/// The fallback page of a route, relative to the site.
pub fn route_fallback_path(path: &str) -> (res: Option<String>)
    ensures
        opt_view(res) == route_fallback(path@),
{
    let trimmed = trim(path);
    let route = trim_matches(trimmed.as_str(), '/');
    if route.as_str().is_empty() {
        return None;
    }
    let chars = chars_of(route.as_str());
    if !segments_safe(&chars) {
        return None;
    }
    Some(concat(route.as_str(), "/index.html"))
}

proof fn lemma_split_pieces_append(a: Seq<char>, b: Seq<char>, sep: char)
    requires
        !b.contains(sep),
    ensures
        split_pieces(a + seq![sep] + b, sep) == split_pieces(a, sep).push(b),
    decreases b.len(),
{
    if b.len() == 0 {
        assert(a + seq![sep] + b =~= a.push(sep));
        assert(a.push(sep).drop_last() =~= a);
        assert(b =~= Seq::<char>::empty());
        assert(split_pieces(a.push(sep), sep) == split_pieces(a, sep).push(Seq::<char>::empty()));
    } else {
        let prev = b.drop_last();
        assert(!prev.contains(sep)) by {
            if prev.contains(sep) {
                let k = choose|k: int| 0 <= k < prev.len() && prev[k] == sep;
                assert(b[k] == sep);
            }
        }
        assert(b.last() != sep) by {
            assert(b[b.len() - 1] == b.last());
        }
        lemma_split_pieces_append(a, prev, sep);
        let whole = a + seq![sep] + b;
        assert(whole.drop_last() =~= a + seq![sep] + prev);
        assert(whole.last() == b.last());
        assert(prev.push(b.last()) =~= b);
        assert(split_pieces(whole, sep) =~= split_pieces(a, sep).push(b));
    }
}

/// A route's fallback page stays inside the site: its path is relative, every
/// segment of it is a plain directory or file name (never empty, `.` or `..`), and
/// it ends with `index.html`.
pub proof fn law_route_fallback_stays_inside_site(path: Seq<char>)
    ensures
        route_fallback(path) matches Some(relative) ==> {
            &&& relative.len() > 0
            &&& relative[0] != '/'
            &&& all_safe_segments(relative)
            &&& split_pieces(relative, '/').last() == "index.html"@
        },
{
    let route = trim_char(trim_ws(path), '/');
    if route.len() > 0 && all_safe_segments(route) {
        crate::text::law_trim_char(trim_ws(path), '/');
        reveal_strlit("/index.html");
        reveal_strlit("index.html");
        let name = "index.html"@;
        assert("/index.html"@ =~= seq!['/'] + name);
        let relative = route + "/index.html"@;
        assert(relative =~= route + seq!['/'] + name);
        assert(!name.contains('/')) by {
            if name.contains('/') {
                let k = choose|k: int| 0 <= k < name.len() && name[k] == '/';
            }
        }
        lemma_split_pieces_append(route, name, '/');
        let pieces = split_pieces(relative, '/');
        assert(pieces == split_pieces(route, '/').push(name));
        assert(safe_segment(name)) by {
            assert(name.len() == 10);
            if name.contains('\\') {
                let k = choose|k: int| 0 <= k < name.len() && name[k] == '\\';
            }
        }
        assert forall|i: int| 0 <= i < pieces.len() implies safe_segment(#[trigger] pieces[i]) by {
            if i < pieces.len() - 1 {
                assert(pieces[i] == split_pieces(route, '/')[i]);
            }
        }
        assert(relative[0] == route[0]);
    }
}

/// Where the fallback pages of the routes go in the site at `dist_dir`, in route
/// order, skipping routes without one.
pub open spec fn fallback_destinations(dist_dir: Seq<char>, paths: Seq<Seq<char>>) -> Seq<Seq<char>>
    decreases paths.len(),
{
    if paths.len() == 0 {
        Seq::empty()
    } else {
        let rest = fallback_destinations(dist_dir, paths.drop_last());
        match route_fallback(paths.last()) {
            Some(relative) => rest.push(join_path(dist_dir, relative)),
            None => rest,
        }
    }
}

/// Every application route that has a fallback page gets it: its destination under
/// the site is among the fallback destinations.
pub proof fn law_every_route_gets_a_fallback(dist_dir: Seq<char>, paths: Seq<Seq<char>>, k: int)
    requires
        0 <= k < paths.len(),
        route_fallback(paths[k]) is Some,
    ensures
        fallback_destinations(dist_dir, paths).contains(
            join_path(dist_dir, route_fallback(paths[k])->0),
        ),
    decreases paths.len(),
{
    let prev = paths.drop_last();
    let rest = fallback_destinations(dist_dir, prev);
    let target = join_path(dist_dir, route_fallback(paths[k])->0);
    if k == paths.len() - 1 {
        assert(fallback_destinations(dist_dir, paths) == rest.push(target));
        assert(rest.push(target)[rest.len() as int] == target);
    } else {
        assert(prev[k] == paths[k]);
        law_every_route_gets_a_fallback(dist_dir, prev, k);
        let i = choose|i: int| 0 <= i < rest.len() && rest[i] == target;
        match route_fallback(paths.last()) {
            Some(relative) => {
                assert(fallback_destinations(dist_dir, paths) == rest.push(join_path(dist_dir, relative)));
                assert(rest.push(join_path(dist_dir, relative))[i] == target);
            },
            None => {},
        }
    }
}

/// The destinations of the fallback pages, each a copy of the site's root
/// `index.html`, for the given application routes.
pub fn route_fallback_destinations(dist_dir: &str, paths: &[Href]) -> (res: Vec<String>)
    ensures
        views(res@) == fallback_destinations(dist_dir@, href_views(paths@)),
{
    let ghost all = href_views(paths@);
    let mut res: Vec<String> = Vec::new();
    let mut i: usize = 0;
    while i < paths.len()
        invariant
            all == href_views(paths@),
            i <= paths@.len(),
            views(res@) == fallback_destinations(dist_dir@, all.take(i as int)),
        decreases paths@.len() - i,
    {
        proof {
            assert(all.take(i + 1).drop_last() =~= all.take(i as int));
            assert(all.take(i + 1).last() == paths@[i as int]@);
        }
        match route_fallback_path(paths[i].as_str()) {
            Some(relative) => {
                let destination = join(dist_dir, relative.as_str());
                let ghost before = res@;
                res.push(destination);
                proof {
                    lemma_views_push(before, destination);
                }
            },
            None => {},
        }
        i += 1;
    }
    proof {
        assert(all.take(paths@.len() as int) =~= all);
    }
    res
}

/// One step of assembling the site in its distribution directory.
#[derive(Debug)]
pub enum AssemblyStep {
    /// Copies a directory tree, when the source exists.
    CopyDirectory { source: String, destination: String },
    /// Copies a file, when the source exists.
    CopyFileIfPresent { source: String, destination: String },
    /// Writes a file.
    WriteFile { destination: String, contents: String },
    /// Copies the root index to each route fallback; the root index must exist.
    CopyRouteFallbacks { root_index: String, destinations: Vec<String> },
    /// Copies a file that must exist.
    CopyFile { source: String, destination: String },
}

/// The abstract content of an assembly step.
pub enum AssemblyStepView {
    CopyDirectory(Seq<char>, Seq<char>),
    CopyFileIfPresent(Seq<char>, Seq<char>),
    WriteFile(Seq<char>, Seq<char>),
    CopyRouteFallbacks(Seq<char>, Seq<Seq<char>>),
    CopyFile(Seq<char>, Seq<char>),
}

impl View for AssemblyStep {
    type V = AssemblyStepView;

    open spec fn view(&self) -> AssemblyStepView {
        match self {
            AssemblyStep::CopyDirectory { source, destination } => AssemblyStepView::CopyDirectory(
                source@,
                destination@,
            ),
            AssemblyStep::CopyFileIfPresent { source, destination } =>
                AssemblyStepView::CopyFileIfPresent(source@, destination@),
            AssemblyStep::WriteFile { destination, contents } => AssemblyStepView::WriteFile(
                destination@,
                contents@,
            ),
            AssemblyStep::CopyRouteFallbacks { root_index, destinations } =>
                AssemblyStepView::CopyRouteFallbacks(root_index@, views(destinations@)),
            AssemblyStep::CopyFile { source, destination } => AssemblyStepView::CopyFile(
                source@,
                destination@,
            ),
        }
    }
}

/// The views of a sequence of steps.
pub open spec fn step_views(steps: Seq<AssemblyStep>) -> Seq<AssemblyStepView> {
    steps.map_values(|s: AssemblyStep| s@)
}

/// The route fallbacks of the manifest, when it has application routes.
pub open spec fn fallback_steps(dist_dir: Seq<char>, manifest: Option<SiteRouteManifestView>) -> Seq<
    AssemblyStepView,
> {
    match manifest {
        Some(m) => if m.application_paths.len() > 0 {
            seq![
                AssemblyStepView::CopyRouteFallbacks(
                    join_path(dist_dir, "index.html"@),
                    fallback_destinations(dist_dir, m.application_paths),
                ),
            ]
        } else {
            Seq::empty()
        },
        None => Seq::empty(),
    }
}

/// The copy of the root index to `404.html`, when asked for.
pub open spec fn not_found_steps(dist_dir: Seq<char>, write_404_from_index: bool) -> Seq<
    AssemblyStepView,
> {
    if write_404_from_index {
        seq![
            AssemblyStepView::CopyFile(
                join_path(dist_dir, "index.html"@),
                join_path(dist_dir, "404.html"@),
            ),
        ]
    } else {
        Seq::empty()
    }
}

/// The sitemap of the manifest's application and static paths, when there is one.
pub open spec fn sitemap_steps(dist_dir: Seq<char>, manifest: Option<SiteRouteManifestView>) -> Seq<
    AssemblyStepView,
> {
    match manifest {
        Some(m) => seq![
            AssemblyStepView::WriteFile(
                join_path(dist_dir, "sitemap.xml"@),
                sitemap_document(m.site_url, m.application_paths + m.static_paths),
            ),
        ],
        None => Seq::empty(),
    }
}

/// How the site is assembled once Dioxus has built it, in order: the Dioxus output,
/// the copied directories, the copied files, the written files, the route
/// fallbacks, the `404.html` page and the sitemap.
pub open spec fn assembly_plan(c: WebBuildConfig) -> Seq<AssemblyStepView> {
    let dist = c.dist_dir@;
    let manifest = manifest_view(c.route_manifest);
    seq![AssemblyStepView::CopyDirectory(c.dx_public_dir@, dist)] + copy_path_views(
        c.copy_dirs@,
    ).map_values(|p: (Seq<char>, Seq<char>)| AssemblyStepView::CopyDirectory(p.0, p.1))
        + copy_path_views(c.copy_files@).map_values(
        |p: (Seq<char>, Seq<char>)| AssemblyStepView::CopyFileIfPresent(p.0, p.1),
    ) + write_file_views(c.write_files@).map_values(
        |p: (Seq<char>, Seq<char>)| AssemblyStepView::WriteFile(p.0, p.1),
    ) + fallback_steps(dist, manifest) + not_found_steps(dist, c.write_404_from_index)
        + sitemap_steps(dist, manifest)
}

proof fn lemma_step_views_push(s: Seq<AssemblyStep>, x: AssemblyStep)
    ensures
        step_views(s.push(x)) == step_views(s).push(x@),
{
    assert(step_views(s.push(x)) =~= step_views(s).push(x@));
}

/// The steps that assemble the site in its distribution directory.
pub fn assembly_steps(config: &WebBuildConfig) -> (res: Vec<AssemblyStep>)
    ensures
        step_views(res@) == assembly_plan(*config),
{
    let dist = config.dist_dir.as_str();
    let mut steps: Vec<AssemblyStep> = Vec::new();
    let first = AssemblyStep::CopyDirectory {
        source: copy_string(&config.dx_public_dir),
        destination: owned(dist),
    };
    steps.push(first);
    proof {
        assert(step_views(steps@) =~= seq![AssemblyStepView::CopyDirectory(config.dx_public_dir@, config.dist_dir@)]);
    }
    let ghost dirs = copy_path_views(config.copy_dirs@).map_values(
        |p: (Seq<char>, Seq<char>)| AssemblyStepView::CopyDirectory(p.0, p.1),
    );
    let ghost start = step_views(steps@);
    let mut i: usize = 0;
    while i < config.copy_dirs.len()
        invariant
            i <= config.copy_dirs@.len(),
            dirs == copy_path_views(config.copy_dirs@).map_values(
                |p: (Seq<char>, Seq<char>)| AssemblyStepView::CopyDirectory(p.0, p.1),
            ),
            step_views(steps@) == start + dirs.take(i as int),
        decreases config.copy_dirs@.len() - i,
    {
        let step = AssemblyStep::CopyDirectory {
            source: copy_string(&config.copy_dirs[i].source),
            destination: copy_string(&config.copy_dirs[i].destination),
        };
        let ghost before = steps@;
        steps.push(step);
        proof {
            lemma_step_views_push(before, step);
            assert(start + dirs.take(i + 1) =~= (start + dirs.take(i as int)).push(step@));
        }
        i += 1;
    }
    proof {
        assert(dirs.take(config.copy_dirs@.len() as int) =~= dirs);
    }
    let ghost files = copy_path_views(config.copy_files@).map_values(
        |p: (Seq<char>, Seq<char>)| AssemblyStepView::CopyFileIfPresent(p.0, p.1),
    );
    let ghost after_dirs = step_views(steps@);
    let mut k: usize = 0;
    while k < config.copy_files.len()
        invariant
            k <= config.copy_files@.len(),
            files == copy_path_views(config.copy_files@).map_values(
                |p: (Seq<char>, Seq<char>)| AssemblyStepView::CopyFileIfPresent(p.0, p.1),
            ),
            step_views(steps@) == after_dirs + files.take(k as int),
        decreases config.copy_files@.len() - k,
    {
        let step = AssemblyStep::CopyFileIfPresent {
            source: copy_string(&config.copy_files[k].source),
            destination: copy_string(&config.copy_files[k].destination),
        };
        let ghost before = steps@;
        steps.push(step);
        proof {
            lemma_step_views_push(before, step);
            assert(after_dirs + files.take(k + 1) =~= (after_dirs + files.take(k as int)).push(step@));
        }
        k += 1;
    }
    proof {
        assert(files.take(config.copy_files@.len() as int) =~= files);
    }
    let ghost writes = write_file_views(config.write_files@).map_values(
        |p: (Seq<char>, Seq<char>)| AssemblyStepView::WriteFile(p.0, p.1),
    );
    let ghost after_files = step_views(steps@);
    let mut w: usize = 0;
    while w < config.write_files.len()
        invariant
            w <= config.write_files@.len(),
            writes == write_file_views(config.write_files@).map_values(
                |p: (Seq<char>, Seq<char>)| AssemblyStepView::WriteFile(p.0, p.1),
            ),
            step_views(steps@) == after_files + writes.take(w as int),
        decreases config.write_files@.len() - w,
    {
        let step = AssemblyStep::WriteFile {
            destination: copy_string(&config.write_files[w].destination),
            contents: copy_string(&config.write_files[w].contents),
        };
        let ghost before = steps@;
        steps.push(step);
        proof {
            lemma_step_views_push(before, step);
            assert(after_files + writes.take(w + 1) =~= (after_files + writes.take(w as int)).push(step@));
        }
        w += 1;
    }
    proof {
        assert(writes.take(config.write_files@.len() as int) =~= writes);
    }
    let ghost manifest = manifest_view(config.route_manifest);
    let ghost after_writes = step_views(steps@);
    match &config.route_manifest {
        Some(m) => {
            let paths = m.application_paths();
            if paths.len() > 0 {
                let step = AssemblyStep::CopyRouteFallbacks {
                    root_index: join(dist, "index.html"),
                    destinations: route_fallback_destinations(dist, paths),
                };
                let ghost before = steps@;
                steps.push(step);
                proof {
                    lemma_step_views_push(before, step);
                }
            }
        },
        None => {},
    }
    proof {
        assert(step_views(steps@) =~= after_writes + fallback_steps(config.dist_dir@, manifest));
    }
    let ghost after_fallbacks = step_views(steps@);
    if config.write_404_from_index {
        let step = AssemblyStep::CopyFile {
            source: join(dist, "index.html"),
            destination: join(dist, "404.html"),
        };
        let ghost before = steps@;
        steps.push(step);
        proof {
            lemma_step_views_push(before, step);
        }
    }
    proof {
        assert(step_views(steps@) =~= after_fallbacks + not_found_steps(
            config.dist_dir@,
            config.write_404_from_index,
        ));
    }
    let ghost after_404 = step_views(steps@);
    match &config.route_manifest {
        Some(m) => {
            let step = AssemblyStep::WriteFile {
                destination: join(dist, "sitemap.xml"),
                contents: m.sitemap_xml(),
            };
            let ghost before = steps@;
            steps.push(step);
            proof {
                lemma_step_views_push(before, step);
            }
        },
        None => {},
    }
    proof {
        assert(step_views(steps@) =~= after_404 + sitemap_steps(config.dist_dir@, manifest));
        assert(step_views(steps@) =~= assembly_plan(*config));
    }
    steps
}

} // verus!
