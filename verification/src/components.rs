//! What the shared components show: their navigation targets and destinations,
//! and the classes, labels, styles and ids they render.
use vstd::prelude::*;

use crate::presentation::{decimal, join, joined_classes, push_decimal};
use crate::text::{concat, owned, push_str};
use crate::types::{CssClass, DisplayText, Href};
use crate::ui::{
    DemoCardAccent, DemoGalleryColumns, PortalAccent, ProjectIdentity, ProjectNavItem,
    ProjectNavLabels, accent_token, palette_accent, palette_index,
};

verus! {

/// Where a link leads: a route of the application or an external URL.
#[derive(Debug, Clone, PartialEq, Eq)]
pub enum NavigationTarget<R> {
    Internal(R),
    External(String),
}

/// One full-panel destination in a project portal.
#[derive(Debug, Clone)]
pub struct PortalDestination<R> {
    pub target: NavigationTarget<R>,
    pub label: DisplayText,
    pub accent: PortalAccent,
}

impl<R> PortalDestination<R> {
    pub fn new(target: NavigationTarget<R>, label: DisplayText, accent: PortalAccent) -> (res: Self)
        ensures
            res.target == target,
            res.label@ == label@,
            res.accent == accent,
    {
        PortalDestination { target, label, accent }
    }

    /// A destination within the application.
    pub fn route(route: R, label: DisplayText, accent: PortalAccent) -> (res: Self)
        ensures
            res.target == NavigationTarget::Internal(route),
            res.label@ == label@,
            res.accent == accent,
    {
        Self::new(NavigationTarget::Internal(route), label, accent)
    }

    /// A destination outside the application.
    pub fn href(href: Href, label: DisplayText, accent: PortalAccent) -> (res: Self)
        ensures
            res.target matches NavigationTarget::External(url) && url@ == href@,
            res.label@ == label@,
            res.accent == accent,
    {
        Self::new(NavigationTarget::External(href.into_string()), label, accent)
    }
}

/// One destination rendered by a demo gallery.
#[derive(Debug, Clone)]
pub struct DemoGalleryItem<R> {
    pub target: NavigationTarget<R>,
    pub title: DisplayText,
    pub shader_id: String,
}

impl<R> DemoGalleryItem<R> {
    pub fn new(target: NavigationTarget<R>, title: DisplayText, shader_id: &str) -> (res: Self)
        ensures
            res.target == target,
            res.title@ == title@,
            res.shader_id@ == shader_id@,
    {
        DemoGalleryItem { target, title, shader_id: owned(shader_id) }
    }

    /// An item leading to a route of the application.
    pub fn route(route: R, title: DisplayText, shader_id: &str) -> (res: Self)
        ensures
            res.target == NavigationTarget::Internal(route),
            res.title@ == title@,
            res.shader_id@ == shader_id@,
    {
        Self::new(NavigationTarget::Internal(route), title, shader_id)
    }

    /// An item leading outside the application.
    pub fn href(href: Href, title: DisplayText, shader_id: &str) -> (res: Self)
        ensures
            res.target matches NavigationTarget::External(url) && url@ == href@,
            res.title@ == title@,
            res.shader_id@ == shader_id@,
    {
        Self::new(NavigationTarget::External(href.into_string()), title, shader_id)
    }
}

/// A card of a demo card grid.
#[derive(Debug, Clone)]
pub struct DemoCard<R> {
    pub target: NavigationTarget<R>,
    pub label: DisplayText,
    pub title: DisplayText,
    pub body: DisplayText,
    pub action: DisplayText,
    pub body_class: Option<CssClass>,
}

impl<R> DemoCard<R> {
    pub fn new(
        target: NavigationTarget<R>,
        label: DisplayText,
        title: DisplayText,
        body: DisplayText,
        action: DisplayText,
    ) -> (res: Self)
        ensures
            res.target == target,
            res.label@ == label@,
            res.title@ == title@,
            res.body@ == body@,
            res.action@ == action@,
            res.body_class is None,
    {
        DemoCard { target, label, title, body, action, body_class: None }
    }

    /// A card leading to a route of the application.
    pub fn route(
        route: R,
        label: DisplayText,
        title: DisplayText,
        body: DisplayText,
        action: DisplayText,
    ) -> (res: Self)
        ensures
            res.target == NavigationTarget::Internal(route),
            res.label@ == label@,
            res.title@ == title@,
            res.body@ == body@,
            res.action@ == action@,
            res.body_class is None,
    {
        Self::new(NavigationTarget::Internal(route), label, title, body, action)
    }

    /// A card leading outside the application.
    pub fn href(
        href: Href,
        label: DisplayText,
        title: DisplayText,
        body: DisplayText,
        action: DisplayText,
    ) -> (res: Self)
        ensures
            res.target matches NavigationTarget::External(url) && url@ == href@,
            res.label@ == label@,
            res.title@ == title@,
            res.body@ == body@,
            res.action@ == action@,
            res.body_class is None,
    {
        Self::new(NavigationTarget::External(href.into_string()), label, title, body, action)
    }

    /// The same card with an extra class on its body.
    pub fn with_body_class(self, body_class: CssClass) -> (res: Self)
        ensures
            res.target == self.target,
            res.label == self.label,
            res.title == self.title,
            res.body == self.body,
            res.action == self.action,
            res.body_class matches Some(c) && c@ == body_class@,
    {
        DemoCard { body_class: Some(body_class), ..self }
    }
}

/// What a project navigation bar shows.
#[derive(Debug, Clone)]
pub struct ProjectNavConfig<R> {
    pub project: ProjectIdentity,
    pub home: NavigationTarget<R>,
    pub demos: NavigationTarget<R>,
    pub book: Href,
    pub docs: Href,
    pub source: Href,
    pub labels: ProjectNavLabels,
    pub active: ProjectNavItem,
}

impl<R> ProjectNavConfig<R> {
    /// The same navigation with other labels.
    pub fn with_labels(self, labels: ProjectNavLabels) -> (res: Self)
        ensures
            res == (ProjectNavConfig { labels, ..self }),
    {
        ProjectNavConfig { labels, ..self }
    }

    /// The same navigation with another active item.
    pub fn with_active(self, active: ProjectNavItem) -> (res: Self)
        ensures
            res == (ProjectNavConfig { active, ..self }),
    {
        ProjectNavConfig { active, ..self }
    }
}

/// The accessible name of a link that opens `label`: `Open <label>`.
pub fn open_label(label: &DisplayText) -> (res: String)
    ensures
        res@ == "Open "@ + label@,
{
    concat("Open ", label.as_str())
}

/// The class of a demo card: `demo-card demo-card-accent-<token>`.
pub fn demo_card_class(accent: DemoCardAccent) -> (res: String)
    ensures
        res@ == "demo-card demo-card-accent-"@ + accent_token(accent),
{
    concat("demo-card demo-card-accent-", accent.token())
}

/// The class of a demo gallery's grid.
pub fn demo_gallery_class(columns: DemoGalleryColumns) -> (res: String)
    ensures
        res@ == "grid "@ + match columns {
            DemoGalleryColumns::Two => "columns-2"@,
            DemoGalleryColumns::Three => "columns-3"@,
        } + " demo-example-cards motion-reveal"@,
{
    let mut s = concat("grid ", columns.class());
    push_str(&mut s, " demo-example-cards motion-reveal");
    s
}

/// The accents of the cards of a gallery of `count` cards, in order.
pub fn demo_gallery_accents(count: usize) -> (res: Vec<DemoCardAccent>)
    ensures
        res@.len() == count,
        forall|i: int|
            0 <= i < count ==> res@[i] == palette_accent(palette_index(i, count as int)),
{
    let mut res: Vec<DemoCardAccent> = Vec::new();
    let mut i: usize = 0;
    while i < count
        invariant
            i <= count,
            res@.len() == i,
            forall|j: int| 0 <= j < i ==> res@[j] == palette_accent(palette_index(j, count as int)),
        decreases count - i,
    {
        res.push(DemoCardAccent::for_position(i, count));
        i += 1;
    }
    res
}

/// The class of a portal destination: `portal-destination portal-accent-<accent>`.
pub fn portal_destination_class(accent: PortalAccent) -> (res: String)
    ensures
        res@ == "portal-destination portal-accent-"@ + match accent {
            PortalAccent::Yellow => "yellow"@,
            PortalAccent::Cyan => "cyan"@,
            PortalAccent::Magenta => "magenta"@,
            PortalAccent::White => "white"@,
        },
{
    concat("portal-destination portal-accent-", accent.class())
}

/// The class of a portal frame; the root portal animates its header.
pub fn portal_shell_class(animate_header: bool) -> (res: &'static str)
    ensures
        res@ == if animate_header {
            "project-portal is-root"@
        } else {
            "project-portal"@
        },
{
    if animate_header {
        "project-portal is-root"
    } else {
        "project-portal"
    }
}

/// The accessible name of a portal's destination list: `<project> destinations`.
pub fn portal_destinations_label(project_name: &DisplayText) -> (res: String)
    ensures
        res@ == project_name@ + " destinations"@,
{
    concat(project_name.as_str(), " destinations")
}

/// The style that tells the portal layout how many destinations it holds.
pub fn portal_destination_count_style(count: usize) -> (res: String)
    ensures
        res@ == "--portal-destination-count: "@ + decimal(count as nat) + ";"@,
{
    let mut s = owned("--portal-destination-count: ");
    push_decimal(&mut s, count as u64);
    push_str(&mut s, ";");
    s
}

/// The id of the shader canvas of destination `index`: `<prefix>-<index>`.
pub fn portal_shader_id(prefix: &str, index: usize) -> (res: String)
    ensures
        res@ == prefix@ + "-"@ + decimal(index as nat),
{
    let mut s = concat(prefix, "-");
    push_decimal(&mut s, index as u64);
    s
}

/// The shader id prefix of a project's portal: `<project>-portal`.
pub fn stayhydated_portal_shader_prefix(project_name: &str) -> (res: String)
    ensures
        res@ == project_name@ + "-portal"@,
{
    concat(project_name, "-portal")
}

/// The destinations of a project portal, in order: the docs in yellow, the book in
/// cyan, the demos in magenta when there are any, and the source, labelled `Git`,
/// in white.
pub fn stayhydated_portal_destinations<R>(
    docs: Href,
    book: Href,
    demos: Option<NavigationTarget<R>>,
    source: Href,
) -> (res: Vec<PortalDestination<R>>)
    ensures
        res@.len() == if demos is Some {
            4nat
        } else {
            3nat
        },
        res@[0].target matches NavigationTarget::External(url) && url@ == docs@,
        res@[0].label@ == "Docs"@,
        res@[0].accent == PortalAccent::Yellow,
        res@[1].target matches NavigationTarget::External(url) && url@ == book@,
        res@[1].label@ == "Book"@,
        res@[1].accent == PortalAccent::Cyan,
        demos matches Some(target) ==> res@[2].target == target && res@[2].label@ == "Demos"@
            && res@[2].accent == PortalAccent::Magenta,
        res@.last().target matches NavigationTarget::External(url) && url@ == source@,
        res@.last().label@ == "Git"@,
        res@.last().accent == PortalAccent::White,
{
    let mut res: Vec<PortalDestination<R>> = Vec::new();
    res.push(PortalDestination::href(docs, DisplayText::new("Docs"), PortalAccent::Yellow));
    res.push(PortalDestination::href(book, DisplayText::new("Book"), PortalAccent::Cyan));
    match demos {
        Some(target) => {
            res.push(PortalDestination::new(target, DisplayText::new("Demos"), PortalAccent::Magenta));
        },
        None => {},
    }
    res.push(PortalDestination::href(source, DisplayText::new("Git"), PortalAccent::White));
    res
}

/// The class of a header navigation link; the active one is marked.
pub fn nav_link_class(active: bool) -> (res: &'static str)
    ensures
        res@ == if active {
            "header-nav-item is-active"@
        } else {
            "header-nav-item"@
        },
{
    if active {
        "header-nav-item is-active"
    } else {
        "header-nav-item"
    }
}

/// The class of a project lockup, compact or not.
pub fn project_lockup_class(compact: bool) -> (res: &'static str)
    ensures
        res@ == if compact {
            "project-lockup is-compact"@
        } else {
            "project-lockup"@
        },
{
    if compact {
        "project-lockup is-compact"
    } else {
        "project-lockup"
    }
}

/// The label of the Skills copy button, before and after copying.
pub fn skills_copy_label(copied: bool) -> (res: &'static str)
    ensures
        res@ == if copied {
            "Copied"@
        } else {
            "Copy skills command"@
        },
{
    if copied {
        "Copied"
    } else {
        "Copy skills command"
    }
}

/// The class of the Skills copy button, marked once it has copied.
pub fn skills_copy_button_class(copied: bool) -> (res: &'static str)
    ensures
        res@ == if copied {
            "skills-copy-button is-copied"@
        } else {
            "skills-copy-button"@
        },
{
    if copied {
        "skills-copy-button is-copied"
    } else {
        "skills-copy-button"
    }
}

/// The id of a shader background canvas when none is given.
pub const DEFAULT_SHADER_BACKGROUND_CANVAS_ID: &'static str = "shader-background-canvas";

/// The class of a shader background canvas: `shader-background`, followed by the
/// extra classes unless they are blank.
pub fn shader_background_class(extra_class: &CssClass) -> (res: String)
    ensures
        res@ == joined_classes("shader-background"@, extra_class@),
{
    join("shader-background", extra_class)
}

} // verus!
