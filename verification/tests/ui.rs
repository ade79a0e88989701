use stayhydated::presentation::{
    join, page_entry_reveal_style, project_document_title, surface_reveal_style,
};
use stayhydated::project_site::{Project as SiteProject, ProjectSite};
use stayhydated::projects::{DISABLED_PROJECT_HREF, Project};
use stayhydated::routing::{BaseHref, BasePath, Href as RouteHref};
use stayhydated::types::{CssClass, DisplayText, Href, InlineStyle};
use stayhydated::ui::{
    DemoCardAccent, DemoGalleryColumns, HeaderMessage, LandingLink, LandingTheme, PortalAccent,
    ProjectIdentity, ProjectNavItem, ProjectNavLabels, TabsOrientation, stayhydated_header_labels,
    stayhydated_header_labels_with,
};

#[test]
fn reveal_presets_keep_staggered_css_variables() {
    assert_eq!(
        page_entry_reveal_style().as_str(),
        "--motion-delay: 0ms; --motion-distance: 24px;"
    );
    assert_eq!(
        surface_reveal_style().as_str(),
        "--motion-delay: 90ms; --motion-distance: 18px;"
    );
}

#[test]
fn document_title_includes_home_page_label() {
    assert_eq!(project_document_title("koruma", "Home"), "koruma | Home");
}

#[test]
fn document_title_skips_empty_page_label() {
    assert_eq!(project_document_title("koruma", ""), "koruma");
}

#[test]
fn document_title_avoids_repeating_project_name() {
    assert_eq!(project_document_title("koruma", "koruma"), "koruma");
}

#[test]
fn document_title_trims_and_handles_missing_site_name() {
    assert_eq!(project_document_title("  ", " Demos "), "Demos");
    assert_eq!(project_document_title(" ", ""), "");
    assert_eq!(project_document_title(" koruma ", " koruma"), "koruma");
}

#[test]
fn class_lists_join_only_non_blank_extras() {
    assert_eq!(join("card", &CssClass::new("")), "card");
    assert_eq!(join("card", &CssClass::new("  ")), "card");
    assert_eq!(join("card", &CssClass::new("wide")), "card wide");
    assert!(CssClass::new(" \t").is_empty());
    assert!(CssClass::default().is_empty());
}

#[test]
fn newtypes_keep_their_text() {
    assert_eq!(DisplayText::new("Title").as_str(), "Title");
    assert!(DisplayText::new("").is_empty());
    assert_eq!(Href::new("/a/").into_string(), "/a/");
    assert_eq!(InlineStyle::new("color: red").as_str(), "color: red");
    assert_eq!(DisplayText::new("x"), DisplayText::new("x").clone());
    assert_eq!(DisplayText::from("from str"), DisplayText::new("from str"));
    assert_eq!(Href::from("/b/".to_owned()).as_str(), "/b/");
    assert_eq!(CssClass::from("wide").as_str(), "wide");
    assert_eq!(InlineStyle::from(String::from("x: 1")).as_str(), "x: 1");
}

fn accents(total: usize) -> Vec<DemoCardAccent> {
    (0..total)
        .map(|position| DemoCardAccent::for_position(position, total))
        .collect()
}

#[test]
fn gallery_positions_spread_across_the_palette() {
    assert_eq!(accents(1), [DemoCardAccent::Red]);
    assert_eq!(accents(2), [DemoCardAccent::Red, DemoCardAccent::Cyan]);
    assert_eq!(
        accents(3),
        [
            DemoCardAccent::Red,
            DemoCardAccent::Green,
            DemoCardAccent::Blue,
        ]
    );
    assert_eq!(
        accents(4),
        [
            DemoCardAccent::Red,
            DemoCardAccent::Yellow,
            DemoCardAccent::Cyan,
            DemoCardAccent::Blue,
        ]
    );
    assert_eq!(
        accents(6),
        [
            DemoCardAccent::Red,
            DemoCardAccent::Yellow,
            DemoCardAccent::Green,
            DemoCardAccent::Cyan,
            DemoCardAccent::Blue,
            DemoCardAccent::Magenta,
        ]
    );
}

#[test]
fn gallery_positions_wrap_for_large_empty_and_out_of_range_inputs() {
    assert_eq!(DemoCardAccent::for_position(6, 7), DemoCardAccent::Red);
    assert_eq!(DemoCardAccent::for_position(7, 7), DemoCardAccent::Red);
    assert_eq!(DemoCardAccent::for_position(2, 0), DemoCardAccent::Green);
    assert_eq!(DemoCardAccent::for_position(4, 2), DemoCardAccent::Red);
}

#[test]
fn accent_tokens_name_the_saturated_edges() {
    let tokens = [
        (DemoCardAccent::Red, "red"),
        (DemoCardAccent::Yellow, "yellow"),
        (DemoCardAccent::Green, "green"),
        (DemoCardAccent::Cyan, "cyan"),
        (DemoCardAccent::Blue, "blue"),
        (DemoCardAccent::Magenta, "magenta"),
    ];
    for (accent, token) in tokens {
        assert_eq!(accent.token(), token);
    }
    assert_eq!(DemoCardAccent::for_position(usize::MAX, usize::MAX), DemoCardAccent::Red);
}

#[test]
fn gallery_columns_have_stable_layout_classes() {
    assert_eq!(DemoGalleryColumns::default().class(), "columns-2");
    assert_eq!(DemoGalleryColumns::Three.class(), "columns-3");
}

#[test]
fn themes_and_accents_use_kebab_case_classes() {
    assert_eq!(LandingTheme::default(), LandingTheme::Blue);
    assert_eq!(LandingTheme::Amber.class(), "amber");
    assert_eq!(PortalAccent::White.class(), "white");
    assert_eq!(TabsOrientation::default(), TabsOrientation::Horizontal);
    assert!(TabsOrientation::Horizontal.is_horizontal());
    assert!(!TabsOrientation::Vertical.is_horizontal());
    assert!(ProjectNavItem::Home.is_home());
    assert!(ProjectNavItem::Demos.is_demos());
    assert!(!ProjectNavItem::Demos.is_home());
}

#[test]
fn project_identity_preserves_supplied_branding() {
    let project = ProjectIdentity::with_description(
        DisplayText::new("shared"),
        DisplayText::new("Shared crates"),
        Href::new("/shared/"),
    );

    assert_eq!(project.name.as_str(), "shared");
    assert_eq!(
        project.description.as_ref().map(DisplayText::as_str),
        Some("Shared crates")
    );
    assert_eq!(project.href.as_str(), "/shared/");
    assert!(ProjectIdentity::new(DisplayText::new("x"), Href::new("/x/")).description.is_none());
    let link = LandingLink::new(Href::new("/docs/"), DisplayText::new("Docs"));
    assert_eq!(link.href.as_str(), "/docs/");
    assert_eq!(link.label.as_str(), "Docs");
}

#[test]
fn header_labels_use_shared_book_slot() {
    let labels = stayhydated_header_labels_with(|message| format!("{message:?}"));

    assert_eq!(labels.home.as_str(), "NavHome");
    assert_eq!(labels.demos.as_str(), "NavDemos");
    assert_eq!(labels.book.as_str(), "NavBook");
    assert_eq!(labels.docs.as_str(), "NavDocs");
    assert_eq!(labels.source.as_str(), "NavSource");
}

#[test]
fn header_message_display_is_english() {
    assert_eq!(HeaderMessage::NavHome.to_string(), "Home");
    assert_eq!(HeaderMessage::NavDocs.to_string(), "Docs");
}

#[test]
fn default_header_labels_are_english() {
    let labels: ProjectNavLabels = stayhydated_header_labels();

    assert_eq!(labels.home.as_str(), "Home");
    assert_eq!(labels.demos.as_str(), "Demos");
    assert_eq!(labels.book.as_str(), "Book");
    assert_eq!(labels.docs.as_str(), "Docs");
    assert_eq!(labels.source.as_str(), "Source");
}

#[test]
fn published_projects_expose_consistent_destinations() {
    assert_eq!(Project::GpuiForm.as_str(), "gpui-form");
    assert_eq!(Project::GpuiStorybook.display_name(), "GPUI Storybook");
    assert_eq!(Project::FrameCapture.category(), "Visual tooling");
    assert_eq!(
        Project::GpuiTable.site_url(),
        "https://stayhydated.github.io/gpui-table/"
    );
    assert_eq!(
        Project::GpuiEsFluent.rustdoc_href(),
        "https://docs.rs/gpui-es-fluent/"
    );
    assert_eq!(
        Project::Koruma.source_href(),
        "https://github.com/stayhydated/koruma"
    );
    assert_eq!(
        Project::EsFluent.skill_command(),
        "npx skills add stayhydated/es-fluent"
    );
    assert_eq!(Project::GpuiForm.demo_path(), Some("gpui-demo/"));
    assert_eq!(Project::FrameCapture.demo_path(), None);
    assert_eq!(Project::Koruma.book_href().as_str(), "/koruma/book/");
}

#[test]
fn unpublished_dummy_destinations_are_disabled() {
    assert_eq!(Project::SumNumbersAi.rustdoc_href(), DISABLED_PROJECT_HREF);
    assert_eq!(Project::SumNumbersAi.source_href(), DISABLED_PROJECT_HREF);
}

#[test]
fn project_metadata_exposes_current_site_destinations() {
    assert_eq!(Project::Koruma.as_str(), "koruma");
    assert_eq!(Project::Koruma.description(), "Rust validation");
    assert_eq!(
        Project::Koruma.site_url(),
        "https://stayhydated.github.io/koruma/"
    );
    assert_eq!(Project::Koruma.rustdoc_href(), "https://docs.rs/koruma/");
    assert_eq!(
        Project::EsFluent.source_href(),
        "https://github.com/stayhydated/es-fluent"
    );
    assert_eq!(Project::EsFluent.book_href().as_str(), "/es-fluent/book/");
    assert_eq!(Project::SumNumbersAi.rustdoc_href(), "about:blank");
    assert_eq!(Project::SumNumbersAi.source_href(), "about:blank");
    assert_eq!(
        Project::Koruma.skill_command(),
        "npx skills add stayhydated/koruma"
    );
    assert_eq!(Project::GpuiForm.demo_path(), Some("gpui-demo/"));
}

#[test]
fn typed_site_url_keeps_the_trailing_slash() {
    assert_eq!(
        Project::Koruma.typed_site_url().as_str(),
        "https://stayhydated.github.io/koruma/"
    );
}

#[test]
fn project_identity_uses_consumer_owned_values() {
    let project = SiteProject::new("example-project", "An example project.")
        .with_skill_command("npx skills add example/project");

    assert_eq!(project.as_str(), "example-project");
    assert_eq!(project.description(), "An example project.");
    assert_eq!(
        project.skill_command(),
        Some("npx skills add example/project")
    );
}

#[test]
fn project_identity_does_not_require_a_skills_command() {
    let project = SiteProject::new("example-project", "An example project.");

    assert_eq!(project.skill_command(), None);
}

fn example_site() -> ProjectSite {
    ProjectSite::builder()
        .project(SiteProject::new("example", "Example project"))
        .site_url("https://example.test/example/")
        .rustdoc_url("https://docs.example.test/example/")
        .source_url("https://code.example.test/example")
        .version("0.1.0")
        .build()
}

#[test]
fn project_site_keeps_consumer_owned_values_and_default_book_path() {
    let project = SiteProject::new("example", "Example project");
    let site = ProjectSite::builder()
        .project(project)
        .site_url("https://example.test/example/")
        .rustdoc_url("https://docs.example.test/example/")
        .source_url("https://code.example.test/example")
        .version("0.1.0")
        .site_stylesheet_path("assets/site.css")
        .build();

    assert_eq!(site.project(), project);
    assert_eq!(site.site_url(), "https://example.test/example/");
    assert_eq!(site.rustdoc_url(), "https://docs.example.test/example/");
    assert_eq!(site.source_url(), "https://code.example.test/example");
    assert_eq!(site.version(), "0.1.0");
    assert_eq!(site.book_path(), "book");
    assert_eq!(site.demo_path(), None);
    assert_eq!(site.site_stylesheet_path(), Some("assets/site.css"));
}

#[test]
fn project_site_resolves_book_and_demo_paths_from_one_configuration() {
    let site = ProjectSite::builder()
        .project(SiteProject::new("example", "Example project"))
        .site_url("https://example.test/example/")
        .rustdoc_url("https://docs.example.test/example/")
        .source_url("https://code.example.test/example")
        .version("0.1.0")
        .book_path("guide")
        .demo_path("gpui-demo")
        .build();
    let root = BaseHref::root();

    assert_eq!(site.book_href(&root).as_str(), "/guide/");
    assert_eq!(
        site.demo_href(&root).as_ref().map(RouteHref::as_str),
        Some("/gpui-demo/")
    );
    assert_eq!(site.static_href(&root, "assets").as_str(), "/assets/");
    let project_base = BaseHref::from_base_path(Some(&BasePath::new("example")));
    assert_eq!(site.book_href(&project_base).as_str(), "/example/guide/");
    assert!(example_site().demo_href(&root).is_none());
}

fn demo_site() -> ProjectSite {
    ProjectSite::builder()
        .project(SiteProject::new("example", "Example project"))
        .site_url("https://example.test/example/")
        .rustdoc_url("https://docs.example.test/example/")
        .source_url("https://code.example.test/example")
        .version("0.1.0")
        .demo_path("gpui-demo")
        .build()
}

#[test]
fn single_page_manifest_includes_an_optional_static_demo() {
    let manifest = demo_site().single_page_route_manifest();

    assert_eq!(manifest.application_paths(), [RouteHref::new("/")]);
    assert!(manifest.static_paths().contains(&RouteHref::new("/gpui-demo/")));
    assert_eq!(manifest.site_url().as_str(), "https://example.test/example/");
}

#[test]
fn embedded_demo_manifest_separates_the_frame_route_from_the_raw_demo() {
    let manifest = demo_site().embedded_demo_route_manifest();

    assert_eq!(
        manifest.application_paths(),
        [RouteHref::new("/"), RouteHref::new("/demo/")]
    );
    assert!(manifest.static_paths().contains(&RouteHref::new("/gpui-demo/")));
}

#[test]
#[should_panic(expected = "embedded demo sites require ProjectSite::demo_path")]
fn embedded_demo_manifest_requires_a_raw_demo_path() {
    example_site().embedded_demo_route_manifest();
}
