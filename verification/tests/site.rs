use stayhydated::manifest::SiteRouteManifest;
use stayhydated::route_cache::generated_top_level_dirs;
use stayhydated::routing::{
    BaseHref, BasePath, Href, OutputDir, RoutePath, SiteUrl, base_href, href,
    normalized_path_segments, site_root_prefix,
};
use stayhydated::sitemap::render;

#[test]
fn base_href_normalizes_optional_base_paths() {
    assert_eq!(base_href(None).as_str(), "/");
    assert_eq!(base_href(Some(&BasePath::new(""))).as_str(), "/");
    assert_eq!(
        base_href(Some(&BasePath::new("/project/"))).as_str(),
        "/project/"
    );
}

#[test]
fn href_joins_routes_under_base_href() {
    let base = BaseHref::from_base_path(Some(&BasePath::new("project")));

    assert_eq!(href(&base, &RoutePath::root()).as_str(), "/project/");
    assert_eq!(
        href(&base, &RoutePath::new("demos")).as_str(),
        "/project/demos/"
    );
    assert_eq!(
        href(&BaseHref::root(), &RoutePath::new("/book/")).as_str(),
        "/book/"
    );
}

#[test]
fn root_prefix_tracks_output_depth() {
    assert_eq!(site_root_prefix(&OutputDir::new("")), "./");
    assert_eq!(site_root_prefix(&OutputDir::new("demos")), "../");
    assert_eq!(site_root_prefix(&OutputDir::new("zh/demos")), "../../");
}

#[test]
fn normalized_segments_strip_matching_base_path() {
    assert_eq!(
        normalized_path_segments("/repo/zh/demos/", Some(&BasePath::new("repo"))),
        ["zh", "demos"]
    );
    assert_eq!(
        normalized_path_segments("/other/zh/demos/", Some(&BasePath::new("repo"))),
        ["other", "zh", "demos"]
    );
}

#[test]
fn generated_top_level_dirs_extracts_unique_dirs_from_outputs() {
    assert_eq!(
        generated_top_level_dirs(&["", "/", "demos", "zh/demos", "/zh/gpui/", "fr/"]),
        ["demos", "zh", "fr"]
    );
}

#[test]
fn project_manifest_drives_fallbacks_and_standard_sitemap_outputs() {
    let manifest = SiteRouteManifest::project(
        SiteUrl::new("https://example.test/project"),
        vec![Href::new("/"), Href::new("/demos/")],
    )
    .with_static_paths(vec![Href::new("/gpui-demo/")]);

    assert_eq!(
        manifest.application_paths(),
        [Href::new("/"), Href::new("/demos/")]
    );
    assert_eq!(
        manifest.static_paths(),
        [
            Href::new("/book/"),
            Href::new("/llms.txt"),
            Href::new("/llms-full.txt"),
            Href::new("/gpui-demo/"),
        ]
    );

    let sitemap = manifest.sitemap_xml();
    for path in [
        "",
        "demos/",
        "book/",
        "llms.txt",
        "llms-full.txt",
        "gpui-demo/",
    ] {
        assert!(sitemap.contains(&format!("<loc>https://example.test/project/{path}</loc>")));
    }
}

#[test]
fn manifest_deduplicates_routes_without_mixing_static_and_app_paths() {
    let manifest = SiteRouteManifest::new(
        SiteUrl::new("https://example.test/project"),
        vec![Href::new("/"), Href::new("/")],
    )
    .with_static_paths(vec![Href::new("/asset/"), Href::new("/asset/")]);

    assert_eq!(manifest.application_paths(), [Href::new("/")]);
    assert_eq!(manifest.static_paths(), [Href::new("/asset/")]);
}

#[test]
fn rooted_paths_are_normalized_for_site_manifests() {
    assert_eq!(SiteRouteManifest::rooted_path("").as_str(), "/");
    assert_eq!(
        SiteRouteManifest::rooted_path("/demos/").as_str(),
        "/demos/"
    );
}

#[test]
fn renders_root_and_nested_paths() {
    let sitemap = render(
        &SiteUrl::new("https://example.test/project"),
        &["/", "/demos/", "llms.txt"],
    );

    assert!(sitemap.contains("<loc>https://example.test/project/</loc>"));
    assert!(sitemap.contains("<loc>https://example.test/project/demos/</loc>"));
    assert!(sitemap.contains("<loc>https://example.test/project/llms.txt</loc>"));
}

#[test]
fn escapes_xml_metacharacters_in_paths() {
    let sitemap = render(
        &SiteUrl::new("https://example.test/project"),
        &["a&b<c>d.txt"],
    );

    assert!(sitemap.contains("a&amp;b&lt;c&gt;d.txt"));
    assert!(!sitemap.contains("a&b<c>d.txt"));
}

#[test]
fn sitemap_document_matches_the_indented_xml_layout() {
    let sitemap = render(&SiteUrl::new("https://example.test"), &["/a/"]);

    assert_eq!(
        sitemap,
        "<?xml version=\"1.0\" encoding=\"UTF-8\"?>\n<urlset xmlns=\"http://www.sitemaps.org/schemas/sitemap/0.9\">\n  <url>\n    <loc>https://example.test/a/</loc>\n  </url>\n</urlset>"
    );
}

#[test]
fn empty_sitemap_has_an_empty_urlset() {
    let sitemap = render(&SiteUrl::new("https://example.test/"), &[]);

    assert_eq!(
        sitemap,
        "<?xml version=\"1.0\" encoding=\"UTF-8\"?>\n<urlset xmlns=\"http://www.sitemaps.org/schemas/sitemap/0.9\">\n</urlset>"
    );
}

#[test]
fn normalized_values_drop_surrounding_slashes() {
    assert_eq!(BasePath::new("//a/b//").as_str(), "a/b");
    assert_eq!(RoutePath::new("/").as_str(), "");
    assert!(RoutePath::new("/").is_root());
    assert!(OutputDir::new("///").is_empty());
    assert_eq!(RoutePath::new("/zh/demos/").to_output_dir(), OutputDir::new("zh/demos"));
    assert_eq!(SiteUrl::new("https://x.test/").as_str(), "https://x.test/");
    assert_eq!(Href::new("/x").into_string(), "/x");
}

#[test]
fn root_prefix_ignores_repeated_separators() {
    assert_eq!(site_root_prefix(&OutputDir::new("a//b")), "../../");
}

#[test]
fn rooted_paths_and_trimmed_values_are_stable_under_renormalization() {
    for path in ["", "/", "demos", "/demos/", "//zh//demos//", "a/b"] {
        let once = SiteRouteManifest::rooted_path(path);
        let twice = SiteRouteManifest::rooted_path(once.as_str());
        assert_eq!(once, twice);
        assert!(once.as_str().starts_with('/') && once.as_str().ends_with('/'));

        let base = BasePath::new(path);
        assert_eq!(BasePath::new(base.as_str()).as_str(), base.as_str());
        assert!(!base.as_str().starts_with('/') && !base.as_str().ends_with('/'));
    }
}

#[test]
fn route_output_dirs_keep_the_route_text() {
    for value in ["", "/", "demos", "/zh/demos/", "a//b"] {
        let route = RoutePath::new(value);
        let dir = route.to_output_dir();
        assert_eq!(dir, OutputDir::new(route.as_str()));
        assert_eq!(dir.as_str(), route.as_str());
        assert_eq!(dir.is_empty(), route.is_root());
    }
}
