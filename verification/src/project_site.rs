//! A consumer project's own identity and site configuration, shared by the
//! single-page and multi-route project site presets.
use vstd::prelude::*;

use crate::manifest::{SiteRouteManifest, href_views, project_static_path_views, push_all_unique};
use crate::routing::{BaseHref, Href, RoutePath, SiteUrl, href, route_href};
use crate::text::{trim_char, with_trailing_slash};

verus! {

/// Consumer-owned identity used by the shared project-site wrappers.
#[derive(Debug, Clone, Copy, PartialEq, Eq)]
pub struct Project {
    name: &'static str,
    description: &'static str,
    skill_command: Option<&'static str>,
}

/// The view of an optional static string.
pub open spec fn static_view(o: Option<&'static str>) -> Option<Seq<char>> {
    match o {
        Some(s) => Some(s@),
        None => None,
    }
}

impl Project {
    /// Creates a project identity with no Skills command.
    pub fn new(name: &'static str, description: &'static str) -> (res: Self)
        ensures
            res.as_str_spec() == name@,
            res.description_spec() == description@,
            res.skill_command_spec() is None,
    {
        Project { name, description, skill_command: None }
    }

    /// Adds the command shown by the portal's Skills copy button.
    pub fn with_skill_command(self, skill_command: &'static str) -> (res: Self)
        ensures
            res.as_str_spec() == self.as_str_spec(),
            res.description_spec() == self.description_spec(),
            res.skill_command_spec() == Some(skill_command@),
    {
        Project { skill_command: Some(skill_command), ..self }
    }

    /// The project's name.
    pub closed spec fn as_str_spec(self) -> Seq<char> {
        self.name@
    }

    /// The project's description.
    pub closed spec fn description_spec(self) -> Seq<char> {
        self.description@
    }

    /// The project's Skills command, if it has one.
    pub closed spec fn skill_command_spec(self) -> Option<Seq<char>> {
        static_view(self.skill_command)
    }

    pub fn as_str(self) -> (res: &'static str)
        ensures
            res@ == self.as_str_spec(),
    {
        self.name
    }

    pub fn description(self) -> (res: &'static str)
        ensures
            res@ == self.description_spec(),
    {
        self.description
    }

    pub fn skill_command(self) -> (res: Option<&'static str>)
        ensures
            static_view(res) == self.skill_command_spec(),
    {
        self.skill_command
    }
}

/// Consumer-owned configuration shared by single-page and multi-route project sites.
#[derive(Debug, Clone, Copy, PartialEq, Eq)]
pub struct ProjectSite {
    pub project: Project,
    pub site_url: &'static str,
    pub rustdoc_url: &'static str,
    pub source_url: &'static str,
    pub version: &'static str,
    pub book_path: &'static str,
    pub demo_path: Option<&'static str>,
    pub site_stylesheet_path: Option<&'static str>,
}

/// The href of a project-relative path under a base href.
pub open spec fn static_href_of(base_href: Seq<char>, path: Seq<char>) -> Seq<char> {
    route_href(base_href, trim_char(path, '/'))
}

/// A project site configuration under construction: the project, its site,
/// documentation and source URLs and its version must be given; the book path
/// defaults to `book`, and the demo path and site stylesheet are optional.
#[derive(Debug, Clone, Copy)]
pub struct ProjectSiteBuilder {
    pub project: Option<Project>,
    pub site_url: Option<&'static str>,
    pub rustdoc_url: Option<&'static str>,
    pub source_url: Option<&'static str>,
    pub version: Option<&'static str>,
    pub book_path: Option<&'static str>,
    pub demo_path: Option<&'static str>,
    pub site_stylesheet_path: Option<&'static str>,
}

impl ProjectSiteBuilder {
    pub fn project(self, project: Project) -> (res: Self)
        ensures
            res == (ProjectSiteBuilder { project: Some(project), ..self }),
    {
        ProjectSiteBuilder { project: Some(project), ..self }
    }

    pub fn site_url(self, site_url: &'static str) -> (res: Self)
        ensures
            res == (ProjectSiteBuilder { site_url: Some(site_url), ..self }),
    {
        ProjectSiteBuilder { site_url: Some(site_url), ..self }
    }

    pub fn rustdoc_url(self, rustdoc_url: &'static str) -> (res: Self)
        ensures
            res == (ProjectSiteBuilder { rustdoc_url: Some(rustdoc_url), ..self }),
    {
        ProjectSiteBuilder { rustdoc_url: Some(rustdoc_url), ..self }
    }

    pub fn source_url(self, source_url: &'static str) -> (res: Self)
        ensures
            res == (ProjectSiteBuilder { source_url: Some(source_url), ..self }),
    {
        ProjectSiteBuilder { source_url: Some(source_url), ..self }
    }

    pub fn version(self, version: &'static str) -> (res: Self)
        ensures
            res == (ProjectSiteBuilder { version: Some(version), ..self }),
    {
        ProjectSiteBuilder { version: Some(version), ..self }
    }

    /// Sets where the book lives within the site.
    pub fn book_path(self, book_path: &'static str) -> (res: Self)
        ensures
            res == (ProjectSiteBuilder { book_path: Some(book_path), ..self }),
    {
        ProjectSiteBuilder { book_path: Some(book_path), ..self }
    }

    /// Sets where the static demo lives within the site.
    pub fn demo_path(self, demo_path: &'static str) -> (res: Self)
        ensures
            res == (ProjectSiteBuilder { demo_path: Some(demo_path), ..self }),
    {
        ProjectSiteBuilder { demo_path: Some(demo_path), ..self }
    }

    /// Sets the stylesheet of the site.
    pub fn site_stylesheet_path(self, site_stylesheet_path: &'static str) -> (res: Self)
        ensures
            res == (ProjectSiteBuilder { site_stylesheet_path: Some(site_stylesheet_path), ..self }),
    {
        ProjectSiteBuilder { site_stylesheet_path: Some(site_stylesheet_path), ..self }
    }

    /// The configuration; the book lives at `book` unless another path was set.
    pub fn build(self) -> (res: ProjectSite)
        requires
            self.project is Some,
            self.site_url is Some,
            self.rustdoc_url is Some,
            self.source_url is Some,
            self.version is Some,
        ensures
            res.project == self.project->0,
            res.site_url == self.site_url->0,
            res.rustdoc_url == self.rustdoc_url->0,
            res.source_url == self.source_url->0,
            res.version == self.version->0,
            match self.book_path {
                Some(path) => res.book_path == path,
                None => res.book_path@ == "book"@,
            },
            res.demo_path == self.demo_path,
            res.site_stylesheet_path == self.site_stylesheet_path,
    {
        let book_path = match self.book_path {
            Some(path) => path,
            None => "book",
        };
        ProjectSite {
            project: self.project.unwrap(),
            site_url: self.site_url.unwrap(),
            rustdoc_url: self.rustdoc_url.unwrap(),
            source_url: self.source_url.unwrap(),
            version: self.version.unwrap(),
            book_path,
            demo_path: self.demo_path,
            site_stylesheet_path: self.site_stylesheet_path,
        }
    }
}

impl ProjectSite {
    /// A configuration with nothing set yet.
    pub fn builder() -> (res: ProjectSiteBuilder)
        ensures
            res == (ProjectSiteBuilder {
                project: None,
                site_url: None,
                rustdoc_url: None,
                source_url: None,
                version: None,
                book_path: None,
                demo_path: None,
                site_stylesheet_path: None,
            }),
    {
        ProjectSiteBuilder {
            project: None,
            site_url: None,
            rustdoc_url: None,
            source_url: None,
            version: None,
            book_path: None,
            demo_path: None,
            site_stylesheet_path: None,
        }
    }

    pub fn project(self) -> (res: Project)
        ensures
            res == self.project,
    {
        self.project
    }

    pub fn site_url(self) -> (res: &'static str)
        ensures
            res == self.site_url,
    {
        self.site_url
    }

    pub fn rustdoc_url(self) -> (res: &'static str)
        ensures
            res == self.rustdoc_url,
    {
        self.rustdoc_url
    }

    pub fn source_url(self) -> (res: &'static str)
        ensures
            res == self.source_url,
    {
        self.source_url
    }

    pub fn version(self) -> (res: &'static str)
        ensures
            res == self.version,
    {
        self.version
    }

    pub fn book_path(self) -> (res: &'static str)
        ensures
            res == self.book_path,
    {
        self.book_path
    }

    pub fn demo_path(self) -> (res: Option<&'static str>)
        ensures
            res == self.demo_path,
    {
        self.demo_path
    }

    pub fn site_stylesheet_path(self) -> (res: Option<&'static str>)
        ensures
            res == self.site_stylesheet_path,
    {
        self.site_stylesheet_path
    }

    /// Resolves a project-relative path against the base href the site is served under.
    pub fn static_href(self, base_href: &BaseHref, path: &str) -> (res: Href)
        ensures
            res@ == static_href_of(base_href@, path@),
    {
        href(base_href, &RoutePath::new(path))
    }

    /// Resolves the configured book destination.
    pub fn book_href(self, base_href: &BaseHref) -> (res: Href)
        ensures
            res@ == static_href_of(base_href@, self.book_path@),
    {
        self.static_href(base_href, self.book_path)
    }

    /// Resolves the optional static demo destination.
    pub fn demo_href(self, base_href: &BaseHref) -> (res: Option<Href>)
        ensures
            match self.demo_path {
                Some(path) => res matches Some(h) && h@ == static_href_of(base_href@, path@),
                None => res is None,
            },
    {
        match self.demo_path {
            Some(path) => Some(self.static_href(base_href, path)),
            None => None,
        }
    }

    /// The standard project manifest for the given application routes: the book and
    /// LLM outputs, and the static demo if there is one.
    pub fn route_manifest(self, application_routes: Vec<Href>) -> (res: SiteRouteManifest)
        ensures
            res@.site_url == with_trailing_slash(self.site_url@),
            res@.application_paths == push_all_unique(Seq::empty(), href_views(application_routes@)),
            res@.static_paths == match self.demo_path {
                Some(path) => push_all_unique(
                    push_all_unique(Seq::empty(), project_static_path_views()),
                    seq![route_href(seq!['/'], trim_char(path@, '/'))],
                ),
                None => push_all_unique(Seq::empty(), project_static_path_views()),
            },
    {
        let manifest = SiteRouteManifest::project(SiteUrl::new(self.site_url), application_routes);
        match self.demo_path {
            Some(path) => {
                let demo = vec![SiteRouteManifest::rooted_path(path)];
                proof {
                    assert(href_views(demo@) =~= seq![route_href(seq!['/'], trim_char(path@, '/'))]);
                }
                manifest.with_static_paths(demo)
            },
            None => manifest,
        }
    }

    /// The manifest of the single-page preset, whose only route is `/`.
    pub fn single_page_route_manifest(self) -> (res: SiteRouteManifest)
        ensures
            res@ == self.route_manifest_view(seq!["/"@]),
    {
        let routes = vec![Href::new("/")];
        proof {
            assert(href_views(routes@) =~= seq!["/"@]);
        }
        self.route_manifest(routes)
    }

    /// The manifest of the embedded-demo preset, whose routes are `/` and `/demo/`;
    /// such a site must configure a static demo path.
    pub fn embedded_demo_route_manifest(self) -> (res: SiteRouteManifest)
        requires
            self.demo_path is Some,
        ensures
            res@ == self.route_manifest_view(seq!["/"@, "/demo/"@]),
    {
        self.demo_path.expect("embedded demo sites require ProjectSite::demo_path");
        let routes = vec![Href::new("/"), Href::new("/demo/")];
        proof {
            assert(href_views(routes@) =~= seq!["/"@, "/demo/"@]);
        }
        self.route_manifest(routes)
    }

    /// The manifest `route_manifest` gives for routes with these views.
    pub open spec fn route_manifest_view(self, routes: Seq<Seq<char>>) -> crate::manifest::SiteRouteManifestView {
        crate::manifest::SiteRouteManifestView {
            site_url: with_trailing_slash(self.site_url@),
            application_paths: push_all_unique(Seq::empty(), routes),
            static_paths: match self.demo_path {
                Some(path) => push_all_unique(
                    push_all_unique(Seq::empty(), project_static_path_views()),
                    seq![route_href(seq!['/'], trim_char(path@, '/'))],
                ),
                None => push_all_unique(Seq::empty(), project_static_path_views()),
            },
        }
    }
}

} // verus!
