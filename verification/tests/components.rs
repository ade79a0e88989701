use stayhydated::components::{
    DemoCard, DemoGalleryItem, NavigationTarget, PortalDestination, ProjectNavConfig,
    demo_card_class, demo_gallery_accents, demo_gallery_class, nav_link_class, open_label,
    portal_destination_class, portal_destination_count_style, portal_destinations_label,
    portal_shader_id, portal_shell_class, project_lockup_class, skills_copy_button_class,
    skills_copy_label, stayhydated_portal_destinations, stayhydated_portal_shader_prefix,
};
use stayhydated::types::{CssClass, DisplayText, Href};
use stayhydated::ui::{
    DemoCardAccent, DemoGalleryColumns, PortalAccent, ProjectIdentity, ProjectNavItem,
    stayhydated_header_labels,
};

#[derive(Debug, Clone, PartialEq)]
enum Route {
    Home,
    Demos,
}

#[test]
fn constructors_keep_targets_and_labels() {
    let item = DemoGalleryItem::route(Route::Demos, DisplayText::new("Demo"), "demo-shader");
    assert_eq!(item.target, NavigationTarget::Internal(Route::Demos));
    assert_eq!(item.title.as_str(), "Demo");
    assert_eq!(item.shader_id, "demo-shader");

    let external = DemoGalleryItem::<Route>::href(Href::new("/raw/"), DisplayText::new("Raw"), "raw");
    assert_eq!(external.target, NavigationTarget::External("/raw/".to_owned()));

    let card = DemoCard::href(
        Href::new("https://example.test/"),
        DisplayText::new("Label"),
        DisplayText::new("Title"),
        DisplayText::new("Body"),
        DisplayText::new("Open"),
    )
    .with_body_class(CssClass::new("wide"));
    assert_eq!(card.target, NavigationTarget::<Route>::External("https://example.test/".to_owned()));
    assert_eq!(card.body.as_str(), "Body");
    assert_eq!(card.body_class.as_ref().map(CssClass::as_str), Some("wide"));
    let routed = DemoCard::route(
        Route::Home,
        DisplayText::new("L"),
        DisplayText::new("T"),
        DisplayText::new("B"),
        DisplayText::new("A"),
    );
    assert!(routed.body_class.is_none());

    let destination = PortalDestination::route(Route::Home, DisplayText::new("Home"), PortalAccent::Cyan);
    assert_eq!(destination.target, NavigationTarget::Internal(Route::Home));
    assert_eq!(destination.accent, PortalAccent::Cyan);
}

#[test]
fn demo_cards_render_accent_classes_and_open_labels() {
    assert_eq!(
        demo_card_class(DemoCardAccent::Magenta),
        "demo-card demo-card-accent-magenta"
    );
    assert_eq!(open_label(&DisplayText::new("Tables")), "Open Tables");
    assert_eq!(
        demo_gallery_class(DemoGalleryColumns::default()),
        "grid columns-2 demo-example-cards motion-reveal"
    );
    assert_eq!(
        demo_gallery_accents(3),
        [DemoCardAccent::Red, DemoCardAccent::Green, DemoCardAccent::Blue]
    );
    assert!(demo_gallery_accents(0).is_empty());
}

#[test]
fn portal_renders_destination_classes_ids_and_counts() {
    assert_eq!(
        portal_destination_class(PortalAccent::Yellow),
        "portal-destination portal-accent-yellow"
    );
    assert_eq!(portal_shell_class(true), "project-portal is-root");
    assert_eq!(portal_shell_class(false), "project-portal");
    assert_eq!(
        portal_destinations_label(&DisplayText::new("koruma")),
        "koruma destinations"
    );
    assert_eq!(
        portal_destination_count_style(4),
        "--portal-destination-count: 4;"
    );
    assert_eq!(portal_shader_id("koruma-portal", 12), "koruma-portal-12");
    assert_eq!(stayhydated_portal_shader_prefix("koruma"), "koruma-portal");
}

#[test]
fn portal_destinations_follow_the_documented_order() {
    let destinations = stayhydated_portal_destinations(
        Href::new("https://docs.rs/koruma/"),
        Href::new("/koruma/book/"),
        Some(NavigationTarget::Internal(Route::Demos)),
        Href::new("https://github.com/stayhydated/koruma"),
    );

    let summary = destinations
        .iter()
        .map(|d| (d.label.as_str().to_owned(), d.accent))
        .collect::<Vec<_>>();
    assert_eq!(
        summary,
        [
            ("Docs".to_owned(), PortalAccent::Yellow),
            ("Book".to_owned(), PortalAccent::Cyan),
            ("Demos".to_owned(), PortalAccent::Magenta),
            ("Git".to_owned(), PortalAccent::White),
        ]
    );
    assert_eq!(destinations[2].target, NavigationTarget::Internal(Route::Demos));
    assert_eq!(
        destinations[3].target,
        NavigationTarget::External("https://github.com/stayhydated/koruma".to_owned())
    );
}

#[test]
fn portal_destinations_skip_missing_demos() {
    let destinations = stayhydated_portal_destinations::<Route>(
        Href::new("/docs/"),
        Href::new("/book/"),
        None,
        Href::new("/source/"),
    );

    let labels = destinations
        .iter()
        .map(|d| d.label.as_str().to_owned())
        .collect::<Vec<_>>();
    assert_eq!(labels, ["Docs", "Book", "Git"]);
}

#[test]
fn navigation_and_skills_classes_follow_their_state() {
    assert_eq!(nav_link_class(true), "header-nav-item is-active");
    assert_eq!(nav_link_class(false), "header-nav-item");
    assert_eq!(project_lockup_class(true), "project-lockup is-compact");
    assert_eq!(project_lockup_class(false), "project-lockup");
    assert_eq!(skills_copy_label(false), "Copy skills command");
    assert_eq!(skills_copy_label(true), "Copied");
    assert_eq!(skills_copy_button_class(true), "skills-copy-button is-copied");
    assert_eq!(skills_copy_button_class(false), "skills-copy-button");
}

#[test]
fn nav_config_replaces_labels_and_active_item() {
    let config = ProjectNavConfig {
        project: ProjectIdentity::new(DisplayText::new("koruma"), Href::new("/koruma/")),
        home: NavigationTarget::Internal(Route::Home),
        demos: NavigationTarget::Internal(Route::Demos),
        book: Href::new("/koruma/book/"),
        docs: Href::new("https://docs.rs/koruma/"),
        source: Href::new("https://github.com/stayhydated/koruma"),
        labels: stayhydated_header_labels(),
        active: ProjectNavItem::Home,
    };

    let config = config.with_active(ProjectNavItem::Demos);
    assert_eq!(config.active, ProjectNavItem::Demos);
    assert_eq!(config.labels.book.as_str(), "Book");
    assert_eq!(config.project.href.as_str(), "/koruma/");
}

#[test]
fn shader_backgrounds_join_their_extra_classes() {
    assert_eq!(
        stayhydated::components::shader_background_class(&CssClass::new("demo-card-shader")),
        "shader-background demo-card-shader"
    );
    assert_eq!(
        stayhydated::components::shader_background_class(&CssClass::default()),
        "shader-background"
    );
    assert_eq!(
        stayhydated::components::DEFAULT_SHADER_BACKGROUND_CANVAS_ID,
        "shader-background-canvas"
    );
}
