//! The registry of stayhydated projects and the destinations each one publishes.
use vstd::prelude::*;

use crate::routing::{Href, SiteUrl};
use crate::text::{concat, push_str};

verus! {

/// A project of the stayhydated organisation.
#[derive(Debug, Clone, Copy, PartialEq, Eq, Structural)]
pub enum Project {
    GpuiForm,
    GpuiTable,
    GpuiStorybook,
    GpuiEsFluent,
    Koruma,
    EsFluent,
    FrameCapture,
    SumNumbersAi,
}

/// The destination used where a project publishes nothing yet.
pub const DISABLED_PROJECT_HREF: &'static str = "about:blank";

/// The slug of a project: its crate and repository name.
pub open spec fn slug(p: Project) -> Seq<char> {
    match p {
        Project::GpuiForm => "gpui-form"@,
        Project::GpuiTable => "gpui-table"@,
        Project::GpuiStorybook => "gpui-storybook"@,
        Project::GpuiEsFluent => "gpui-es-fluent"@,
        Project::Koruma => "koruma"@,
        Project::EsFluent => "es-fluent"@,
        Project::FrameCapture => "frame-capture"@,
        Project::SumNumbersAi => "sum-numbers-ai"@,
    }
}

/// Whether the project's documentation and source are published.
pub open spec fn is_published(p: Project) -> bool {
    p != Project::SumNumbersAi
}

/// The project's site: `https://stayhydated.github.io/<slug>/`.
pub open spec fn site_url_of(p: Project) -> Seq<char> {
    "https://stayhydated.github.io/"@ + slug(p) + "/"@
}

/// The project's API documentation: `https://docs.rs/<slug>/`, or the disabled
/// destination for an unpublished project.
pub open spec fn rustdoc_href_of(p: Project) -> Seq<char> {
    if is_published(p) {
        "https://docs.rs/"@ + slug(p) + "/"@
    } else {
        DISABLED_PROJECT_HREF@
    }
}

/// The project's repository: `https://github.com/stayhydated/<slug>`, or the
/// disabled destination for an unpublished project.
pub open spec fn source_href_of(p: Project) -> Seq<char> {
    if is_published(p) {
        "https://github.com/stayhydated/"@ + slug(p)
    } else {
        DISABLED_PROJECT_HREF@
    }
}

/// The command that installs the project's skills.
pub open spec fn skill_command_of(p: Project) -> Seq<char> {
    "npx skills add stayhydated/"@ + slug(p)
}

/// The project's book: `/<slug>/book/`.
pub open spec fn book_href_of(p: Project) -> Seq<char> {
    seq!['/'] + slug(p) + "/book/"@
}

impl Project {
    /// The project's slug.
    pub fn as_str(self) -> (res: &'static str)
        ensures
            res@ == slug(self),
    {
        match self {
            Project::GpuiForm => "gpui-form",
            Project::GpuiTable => "gpui-table",
            Project::GpuiStorybook => "gpui-storybook",
            Project::GpuiEsFluent => "gpui-es-fluent",
            Project::Koruma => "koruma",
            Project::EsFluent => "es-fluent",
            Project::FrameCapture => "frame-capture",
            Project::SumNumbersAi => "sum-numbers-ai",
        }
    }

    /// The name the project is shown under.
    pub fn display_name(self) -> (res: &'static str)
        ensures
            res@ == match self {
                Project::GpuiStorybook => "GPUI Storybook"@,
                _ => slug(self),
            },
    {
        match self {
            Project::GpuiStorybook => "GPUI Storybook",
            _ => self.as_str(),
        }
    }

    /// A one-line description of the project.
    pub fn description(self) -> (res: &'static str)
        ensures
            res@ == match self {
                Project::GpuiForm =>
                    "Derive typed, component-backed GPUI forms from application models."@,
                Project::GpuiTable =>
                    "Derive typed GPUI tables, filters, and query contracts from row models."@,
                Project::GpuiStorybook =>
                    "Discover, render, and automate component stories for GPUI applications."@,
                Project::GpuiEsFluent => "Typed es-fluent localization stored in GPUI global state."@,
                Project::Koruma => "Rust validation"@,
                Project::EsFluent => "Rust localization"@,
                Project::FrameCapture =>
                    "Typed routes, scenarios, sizes, and output paths for deterministic captures."@,
                Project::SumNumbersAi => "An auditable AI addition API"@,
            },
    {
        match self {
            Project::GpuiForm => "Derive typed, component-backed GPUI forms from application models.",
            Project::GpuiTable =>
                "Derive typed GPUI tables, filters, and query contracts from row models.",
            Project::GpuiStorybook =>
                "Discover, render, and automate component stories for GPUI applications.",
            Project::GpuiEsFluent => "Typed es-fluent localization stored in GPUI global state.",
            Project::Koruma => "Rust validation",
            Project::EsFluent => "Rust localization",
            Project::FrameCapture =>
                "Typed routes, scenarios, sizes, and output paths for deterministic captures.",
            Project::SumNumbersAi => "An auditable AI addition API",
        }
    }

    /// The category the project is listed under.
    pub fn category(self) -> (res: &'static str)
        ensures
            res@ == match self {
                Project::GpuiForm | Project::GpuiTable | Project::GpuiStorybook
                | Project::GpuiEsFluent => "Rust UI"@,
                Project::Koruma | Project::EsFluent => "Rust libraries"@,
                Project::FrameCapture => "Visual tooling"@,
                Project::SumNumbersAi => "AI tooling"@,
            },
    {
        match self {
            Project::GpuiForm | Project::GpuiTable | Project::GpuiStorybook
            | Project::GpuiEsFluent => "Rust UI",
            Project::Koruma | Project::EsFluent => "Rust libraries",
            Project::FrameCapture => "Visual tooling",
            Project::SumNumbersAi => "AI tooling",
        }
    }

    /// The project's site URL.
    pub fn site_url(self) -> (res: String)
        ensures
            res@ == site_url_of(self),
    {
        let mut s = concat("https://stayhydated.github.io/", self.as_str());
        push_str(&mut s, "/");
        s
    }

    /// The project's site URL, typed.
    pub fn typed_site_url(self) -> (res: SiteUrl)
        ensures
            res@ == site_url_of(self),
    {
        let url = self.site_url();
        proof {
            reveal_strlit("/");
            assert(site_url_of(self).last() == '/');
        }
        SiteUrl::new(url.as_str())
    }

    /// The project's API documentation.
    pub fn rustdoc_href(self) -> (res: String)
        ensures
            res@ == rustdoc_href_of(self),
    {
        if self == Project::SumNumbersAi {
            return crate::text::owned(DISABLED_PROJECT_HREF);
        }
        let mut s = concat("https://docs.rs/", self.as_str());
        push_str(&mut s, "/");
        s
    }

    /// The project's repository.
    pub fn source_href(self) -> (res: String)
        ensures
            res@ == source_href_of(self),
    {
        if self == Project::SumNumbersAi {
            return crate::text::owned(DISABLED_PROJECT_HREF);
        }
        concat("https://github.com/stayhydated/", self.as_str())
    }

    /// The command that installs the project's skills.
    pub fn skill_command(self) -> (res: String)
        ensures
            res@ == skill_command_of(self),
    {
        concat("npx skills add stayhydated/", self.as_str())
    }

    /// The path of the project's demos within its site, if it has any.
    pub fn demo_path(self) -> (res: Option<&'static str>)
        ensures
            match self {
                Project::GpuiForm | Project::GpuiTable | Project::GpuiStorybook
                | Project::GpuiEsFluent => res matches Some(p) && p@ == "gpui-demo/"@,
                Project::Koruma | Project::EsFluent | Project::SumNumbersAi => res matches Some(p)
                    && p@ == "demos/"@,
                Project::FrameCapture => res is None,
            },
    {
        match self {
            Project::GpuiForm | Project::GpuiTable | Project::GpuiStorybook
            | Project::GpuiEsFluent => Some("gpui-demo/"),
            Project::Koruma | Project::EsFluent | Project::SumNumbersAi => Some("demos/"),
            Project::FrameCapture => None,
        }
    }

    /// The project's book within the organisation site.
    pub fn book_href(self) -> (res: Href)
        ensures
            res@ == book_href_of(self),
    {
        let mut s = String::new();
        crate::text::push_char(&mut s, '/');
        push_str(&mut s, self.as_str());
        push_str(&mut s, "/book/");
        Href::from_string(s)
    }
}

} // verus!
