//! Plain data behind the shared UI components: accents and their class tokens,
//! layout choices, navigation items and labels, and project branding.
use vstd::prelude::*;

use crate::types::{DisplayText, Href};

verus! {

/// Saturated RGB-edge accent applied to a project demo card.
#[derive(Debug, Clone, Copy, PartialEq, Eq, Structural)]
pub enum DemoCardAccent {
    Red,
    Yellow,
    Green,
    Cyan,
    Blue,
    Magenta,
}

/// The number of accents in the palette.
pub const PALETTE_LEN: usize = 6;

/// The accent at position `i` of the palette: red, yellow, green, cyan, blue,
/// magenta.
pub open spec fn palette_accent(i: int) -> DemoCardAccent {
    if i == 0 {
        DemoCardAccent::Red
    } else if i == 1 {
        DemoCardAccent::Yellow
    } else if i == 2 {
        DemoCardAccent::Green
    } else if i == 3 {
        DemoCardAccent::Cyan
    } else if i == 4 {
        DemoCardAccent::Blue
    } else {
        DemoCardAccent::Magenta
    }
}

/// The palette position for card `position` of a gallery of `total` cards:
/// positions wrap at `total`; galleries up to the palette size are spread evenly
/// over it, and larger galleries (or a zero `total`) cycle it.
pub open spec fn palette_index(position: int, total: int) -> int {
    let p = if total == 0 {
        position
    } else {
        position % total
    };
    if total == 0 || total > PALETTE_LEN {
        p % (PALETTE_LEN as int)
    } else {
        p * PALETTE_LEN / total
    }
}

/// The class token of an accent.
pub open spec fn accent_token(a: DemoCardAccent) -> Seq<char> {
    match a {
        DemoCardAccent::Red => "red"@,
        DemoCardAccent::Yellow => "yellow"@,
        DemoCardAccent::Green => "green"@,
        DemoCardAccent::Cyan => "cyan"@,
        DemoCardAccent::Blue => "blue"@,
        DemoCardAccent::Magenta => "magenta"@,
    }
}

impl DemoCardAccent {
    /// Stable color token used by the shared card and WebAssembly loader styles.
    pub fn token(self) -> (res: &'static str)
        ensures
            res@ == accent_token(self),
    {
        match self {
            DemoCardAccent::Red => "red",
            DemoCardAccent::Yellow => "yellow",
            DemoCardAccent::Green => "green",
            DemoCardAccent::Cyan => "cyan",
            DemoCardAccent::Blue => "blue",
            DemoCardAccent::Magenta => "magenta",
        }
    }

    /// Selects an accent for one position in a gallery of `total` cards.
    ///
    /// Galleries up to the palette size are spread evenly across the available
    /// accents. Larger galleries cycle the palette. Positions beyond `total`
    /// wrap, and a zero `total` falls back to cycling the full palette.
    pub fn for_position(position: usize, total: usize) -> (res: Self)
        ensures
            0 <= palette_index(position as int, total as int) < PALETTE_LEN,
            res == palette_accent(palette_index(position as int, total as int)),
    {
        let p: usize = if total == 0 {
            position
        } else {
            position % total
        };
        let index: usize = if total == 0 || total > PALETTE_LEN {
            p % PALETTE_LEN
        } else {
            assert(p * PALETTE_LEN < total * PALETTE_LEN) by (nonlinear_arith)
                requires
                    p < total,
            ;
            assert(((p * PALETTE_LEN) as int / (total as int)) < PALETTE_LEN) by (nonlinear_arith)
                requires
                    p * PALETTE_LEN < total * PALETTE_LEN,
                    0 < total,
            ;
            p * PALETTE_LEN / total
        };
        if index == 0 {
            DemoCardAccent::Red
        } else if index == 1 {
            DemoCardAccent::Yellow
        } else if index == 2 {
            DemoCardAccent::Green
        } else if index == 3 {
            DemoCardAccent::Cyan
        } else if index == 4 {
            DemoCardAccent::Blue
        } else {
            DemoCardAccent::Magenta
        }
    }
}

/// Positions beyond the gallery wrap: a card gets the accent of its position
/// modulo the gallery size.
pub proof fn law_accent_positions_wrap(position: nat, total: nat)
    requires
        total > 0,
    ensures
        palette_index(position as int, total as int) == palette_index(
            (position % total) as int,
            total as int,
        ),
{
    assert((position % total) % total == position % total) by (nonlinear_arith)
        requires
            total > 0,
    ;
}

/// The first card of every gallery is red.
pub proof fn law_first_accent_is_red(total: nat)
    ensures
        palette_accent(palette_index(0, total as int)) == DemoCardAccent::Red,
{
    if total > 0 {
        assert(0int % (total as int) == 0) by (nonlinear_arith)
            requires
                total > 0,
        ;
    }
}

/// In a gallery no larger than the palette, different cards get different accents.
pub proof fn law_small_galleries_spread_accents(i: nat, j: nat, total: nat)
    requires
        0 < total <= PALETTE_LEN,
        i < j < total,
    ensures
        palette_accent(palette_index(i as int, total as int)) != palette_accent(
            palette_index(j as int, total as int),
        ),
{
    assert(i % total == i && j % total == j) by (nonlinear_arith)
        requires
            i < total,
            j < total,
    ;
    let a = (i * PALETTE_LEN) as int / (total as int);
    let b = (j * PALETTE_LEN) as int / (total as int);
    assert(a < b && 0 <= a && b < PALETTE_LEN) by (nonlinear_arith)
        requires
            0 < total <= PALETTE_LEN,
            i < j < total,
            a == (i * PALETTE_LEN) as int / (total as int),
            b == (j * PALETTE_LEN) as int / (total as int),
    ;
}

/// A gallery larger than the palette cycles through it.
pub proof fn law_large_galleries_cycle_accents(position: nat, total: nat)
    requires
        total > PALETTE_LEN,
    ensures
        palette_index(position as int, total as int) == ((position % total) % PALETTE_LEN as nat) as int,
{
}

/// A gallery of unknown size (a zero `total`) cycles through the palette.
pub proof fn law_zero_total_cycles_accents(position: nat)
    ensures
        palette_index(position as int, 0) == (position % PALETTE_LEN as nat) as int,
{
}

/// Responsive column count used by a demo gallery.
#[derive(Debug, Clone, Copy, PartialEq, Eq, Structural)]
pub enum DemoGalleryColumns {
    Two,
    Three,
}

impl Default for DemoGalleryColumns {
    fn default() -> (res: Self)
        ensures
            res == DemoGalleryColumns::Two,
    {
        DemoGalleryColumns::Two
    }
}

impl DemoGalleryColumns {
    /// The layout class of the column count.
    pub fn class(self) -> (res: &'static str)
        ensures
            res@ == match self {
                DemoGalleryColumns::Two => "columns-2"@,
                DemoGalleryColumns::Three => "columns-3"@,
            },
    {
        match self {
            DemoGalleryColumns::Two => "columns-2",
            DemoGalleryColumns::Three => "columns-3",
        }
    }
}

/// Color treatment for a compact project landing page.
#[derive(Debug, Clone, Copy, PartialEq, Eq, Structural)]
pub enum LandingTheme {
    Blue,
    Green,
    Rose,
    Purple,
    Amber,
    Cyan,
}

impl Default for LandingTheme {
    fn default() -> (res: Self)
        ensures
            res == LandingTheme::Blue,
    {
        LandingTheme::Blue
    }
}

impl LandingTheme {
    /// The class of the theme: its name in kebab case.
    pub fn class(self) -> (res: &'static str)
        ensures
            res@ == match self {
                LandingTheme::Blue => "blue"@,
                LandingTheme::Green => "green"@,
                LandingTheme::Rose => "rose"@,
                LandingTheme::Purple => "purple"@,
                LandingTheme::Amber => "amber"@,
                LandingTheme::Cyan => "cyan"@,
            },
    {
        match self {
            LandingTheme::Blue => "blue",
            LandingTheme::Green => "green",
            LandingTheme::Rose => "rose",
            LandingTheme::Purple => "purple",
            LandingTheme::Amber => "amber",
            LandingTheme::Cyan => "cyan",
        }
    }
}

/// Color treatment for a destination in a project portal.
#[derive(Debug, Clone, Copy, PartialEq, Eq, Structural)]
pub enum PortalAccent {
    Yellow,
    Cyan,
    Magenta,
    White,
}

impl PortalAccent {
    /// The class of the accent: its name in kebab case.
    pub fn class(self) -> (res: &'static str)
        ensures
            res@ == match self {
                PortalAccent::Yellow => "yellow"@,
                PortalAccent::Cyan => "cyan"@,
                PortalAccent::Magenta => "magenta"@,
                PortalAccent::White => "white"@,
            },
    {
        match self {
            PortalAccent::Yellow => "yellow",
            PortalAccent::Cyan => "cyan",
            PortalAccent::Magenta => "magenta",
            PortalAccent::White => "white",
        }
    }
}

/// The orientation of a tab list.
#[derive(Debug, Clone, Copy, PartialEq, Eq, Structural)]
pub enum TabsOrientation {
    Horizontal,
    Vertical,
}

impl Default for TabsOrientation {
    fn default() -> (res: Self)
        ensures
            res == TabsOrientation::Horizontal,
    {
        TabsOrientation::Horizontal
    }
}

impl TabsOrientation {
    /// Whether the tabs are laid out horizontally.
    pub fn is_horizontal(self) -> (res: bool)
        ensures
            res == (self == TabsOrientation::Horizontal),
    {
        match self {
            TabsOrientation::Horizontal => true,
            TabsOrientation::Vertical => false,
        }
    }
}

/// The page of a project site that a navigation bar marks as active.
#[derive(Debug, Clone, Copy, PartialEq, Eq, Structural)]
pub enum ProjectNavItem {
    Home,
    Demos,
}

impl ProjectNavItem {
    pub fn is_home(self) -> (res: bool)
        ensures
            res == (self == ProjectNavItem::Home),
    {
        match self {
            ProjectNavItem::Home => true,
            ProjectNavItem::Demos => false,
        }
    }

    pub fn is_demos(self) -> (res: bool)
        ensures
            res == (self == ProjectNavItem::Demos),
    {
        match self {
            ProjectNavItem::Home => false,
            ProjectNavItem::Demos => true,
        }
    }
}

/// The labels of the links of a project navigation bar.
#[derive(Debug)]
pub struct ProjectNavLabels {
    pub home: DisplayText,
    pub demos: DisplayText,
    pub book: DisplayText,
    pub docs: DisplayText,
    pub source: DisplayText,
}

impl Clone for ProjectNavLabels {
    fn clone(&self) -> (res: Self)
        ensures
            res.home@ == self.home@,
            res.demos@ == self.demos@,
            res.book@ == self.book@,
            res.docs@ == self.docs@,
            res.source@ == self.source@,
    {
        ProjectNavLabels {
            home: self.home.clone(),
            demos: self.demos.clone(),
            book: self.book.clone(),
            docs: self.docs.clone(),
            source: self.source.clone(),
        }
    }
}

impl ProjectNavLabels {
    pub fn new(
        home: DisplayText,
        demos: DisplayText,
        book: DisplayText,
        docs: DisplayText,
        source: DisplayText,
    ) -> (res: Self)
        ensures
            res.home@ == home@,
            res.demos@ == demos@,
            res.book@ == book@,
            res.docs@ == docs@,
            res.source@ == source@,
    {
        ProjectNavLabels { home, demos, book, docs, source }
    }
}

/// The words that label the links of a project header.
#[derive(Debug, Clone, Copy, PartialEq, Eq, Structural)]
pub enum HeaderMessage {
    NavHome,
    NavDemos,
    NavBook,
    NavDocs,
    NavSource,
}

/// The English text of a header message.
pub open spec fn header_text(m: HeaderMessage) -> Seq<char> {
    match m {
        HeaderMessage::NavHome => "Home"@,
        HeaderMessage::NavDemos => "Demos"@,
        HeaderMessage::NavBook => "Book"@,
        HeaderMessage::NavDocs => "Docs"@,
        HeaderMessage::NavSource => "Source"@,
    }
}

impl HeaderMessage {
    /// The English text of the message.
    pub fn as_str(self) -> (res: &'static str)
        ensures
            res@ == header_text(self),
    {
        match self {
            HeaderMessage::NavHome => "Home",
            HeaderMessage::NavDemos => "Demos",
            HeaderMessage::NavBook => "Book",
            HeaderMessage::NavDocs => "Docs",
            HeaderMessage::NavSource => "Source",
        }
    }

    /// The English text of the message, owned.
    pub fn to_string(self) -> (res: String)
        ensures
            res@ == header_text(self),
    {
        crate::text::owned(self.as_str())
    }
}

/// Whether `label` is a text that `label_for` can give for message `m`.
pub open spec fn labelled<F: Fn(HeaderMessage) -> String>(
    label_for: F,
    m: HeaderMessage,
    label: Seq<char>,
) -> bool {
    exists|s: String| #[trigger] call_ensures(label_for, (m,), s) && s@ == label
}

/// The header labels, each the text `label_for` gives its message.
pub fn stayhydated_header_labels_with<F: Fn(HeaderMessage) -> String>(label_for: F) -> (res:
    ProjectNavLabels)
    requires
        forall|m: HeaderMessage| call_requires(label_for, (m,)),
    ensures
        labelled(label_for, HeaderMessage::NavHome, res.home@),
        labelled(label_for, HeaderMessage::NavDemos, res.demos@),
        labelled(label_for, HeaderMessage::NavBook, res.book@),
        labelled(label_for, HeaderMessage::NavDocs, res.docs@),
        labelled(label_for, HeaderMessage::NavSource, res.source@),
{
    let home = label_for(HeaderMessage::NavHome);
    let demos = label_for(HeaderMessage::NavDemos);
    let book = label_for(HeaderMessage::NavBook);
    let docs = label_for(HeaderMessage::NavDocs);
    let source = label_for(HeaderMessage::NavSource);
    ProjectNavLabels::new(
        DisplayText::from_string(home),
        DisplayText::from_string(demos),
        DisplayText::from_string(book),
        DisplayText::from_string(docs),
        DisplayText::from_string(source),
    )
}

/// The header labels in English.
pub fn stayhydated_header_labels() -> (res: ProjectNavLabels)
    ensures
        res.home@ == "Home"@,
        res.demos@ == "Demos"@,
        res.book@ == "Book"@,
        res.docs@ == "Docs"@,
        res.source@ == "Source"@,
{
    let english = |m: HeaderMessage| -> (s: String)
        ensures
            s@ == header_text(m),
        { m.to_string() };
    let res = stayhydated_header_labels_with(english);
    res
}

/// The view of an optional display text.
pub open spec fn display_view(o: Option<DisplayText>) -> Option<Seq<char>> {
    match o {
        Some(t) => Some(t@),
        None => None,
    }
}

/// Project branding rendered by shared navigation components.
#[derive(Debug)]
pub struct ProjectIdentity {
    pub name: DisplayText,
    pub description: Option<DisplayText>,
    pub href: Href,
}

fn clone_display(o: &Option<DisplayText>) -> (res: Option<DisplayText>)
    ensures
        display_view(res) == display_view(*o),
{
    match o {
        Some(t) => Some(t.clone()),
        None => None,
    }
}

impl Clone for ProjectIdentity {
    fn clone(&self) -> (res: Self)
        ensures
            res.name@ == self.name@,
            display_view(res.description) == display_view(self.description),
            res.href@ == self.href@,
    {
        ProjectIdentity {
            name: self.name.clone(),
            description: clone_display(&self.description),
            href: self.href.clone(),
        }
    }
}

impl ProjectIdentity {
    /// Branding without a description.
    pub fn new(name: DisplayText, href: Href) -> (res: Self)
        ensures
            res.name@ == name@,
            res.description is None,
            res.href@ == href@,
    {
        Self::with_optional_description(name, None, href)
    }

    /// Branding with a description.
    pub fn with_description(name: DisplayText, description: DisplayText, href: Href) -> (res: Self)
        ensures
            res.name@ == name@,
            display_view(res.description) == Some(description@),
            res.href@ == href@,
    {
        Self::with_optional_description(name, Some(description), href)
    }

    /// Branding with a description if one is given.
    pub fn with_optional_description(
        name: DisplayText,
        description: Option<DisplayText>,
        href: Href,
    ) -> (res: Self)
        ensures
            res.name@ == name@,
            display_view(res.description) == display_view(description),
            res.href@ == href@,
    {
        ProjectIdentity { name, description, href }
    }
}

/// One destination exposed by a project landing page.
#[derive(Debug)]
pub struct LandingLink {
    pub href: Href,
    pub label: DisplayText,
}

impl Clone for LandingLink {
    fn clone(&self) -> (res: Self)
        ensures
            res.href@ == self.href@,
            res.label@ == self.label@,
    {
        LandingLink { href: self.href.clone(), label: self.label.clone() }
    }
}

impl LandingLink {
    pub fn new(href: Href, label: DisplayText) -> (res: Self)
        ensures
            res.href@ == href@,
            res.label@ == label@,
    {
        LandingLink { href, label }
    }
}

} // verus!
