use stayhydated::manifest::SiteRouteManifest;
use stayhydated::preview::{StaticSitePreviewConfig, normalize_base_path, resolve};
use stayhydated::routing::{Href, SiteUrl};
use stayhydated::web::{
    AssemblyStep, DioxusBuildCommand, PackageName, WebBuildConfig, assembly_steps,
    route_fallback_destinations, route_fallback_path,
};
use stayhydated::workspace::{
    WorkspaceRootError, workspace_book_dirs, workspace_root_from_parent,
    workspace_root_from_xtask_manifest_dir,
};

#[test]
fn dioxus_web_static_site_command_renders_expected_argv() {
    let command = DioxusBuildCommand::web_static_site(Some(PackageName::new("web")));

    assert_eq!(
        command.argv(),
        [
            "build",
            "--package",
            "web",
            "--platform",
            "web",
            "--ssg",
            "--release",
            "--debug-symbols",
            "false",
            "--force-sequential",
            "true",
        ]
    );
}

#[test]
fn dioxus_web_static_site_command_accepts_base_path() {
    let command = DioxusBuildCommand::web_static_site(Some(PackageName::new("web")))
        .with_base_path("project");

    assert_eq!(
        command.argv(),
        [
            "build",
            "--package",
            "web",
            "--platform",
            "web",
            "--ssg",
            "--release",
            "--debug-symbols",
            "false",
            "--force-sequential",
            "true",
            "--base-path",
            "project",
        ]
    );
}

#[test]
fn dioxus_command_without_package_and_its_display() {
    let command = DioxusBuildCommand::web_static_site(None);

    assert_eq!(command.program(), "dx");
    assert_eq!(
        command.display(),
        "dx build --platform web --ssg --release --debug-symbols false --force-sequential true"
    );
    assert_eq!(command.clone(), command);
}

#[test]
fn github_pages_config_uses_typed_dioxus_command() {
    let config = WebBuildConfig::github_pages("/workspace").package("web").build();

    assert_eq!(
        config.dioxus_command.argv(),
        DioxusBuildCommand::web_static_site(Some(PackageName::new("web"))).argv()
    );
}

#[test]
fn github_pages_config_tracks_the_route_manifest() {
    let manifest = SiteRouteManifest::project(
        SiteUrl::new("https://example.test/project"),
        vec![Href::new("/"), Href::new("/demos/"), Href::new("/zh/demos/")],
    );
    let config = WebBuildConfig::github_pages("/workspace")
        .route_manifest(manifest.clone())
        .build();

    assert_eq!(config.route_manifest, Some(manifest));
}

#[test]
fn route_fallback_path_uses_route_index_files() {
    assert_eq!(route_fallback_path("/"), None);
    assert_eq!(
        route_fallback_path("/zh/demos/").as_deref(),
        Some("zh/demos/index.html")
    );
}

#[test]
fn route_fallback_path_rejects_escaping_segments() {
    assert!(route_fallback_path("../secret").is_none());
    assert!(route_fallback_path("/zh/../secret/").is_none());
    assert!(route_fallback_path("/zh//secret/").is_none());
    assert!(route_fallback_path(r"/zh\secret/").is_none());
}

#[test]
fn route_fallback_path_trims_whitespace_and_rejects_dot_segments() {
    assert_eq!(
        route_fallback_path("  /demos/ ").as_deref(),
        Some("demos/index.html")
    );
    assert!(route_fallback_path("/./demos/").is_none());
    assert!(route_fallback_path("   ").is_none());
    assert_eq!(
        route_fallback_path("a.b/..c").as_deref(),
        Some("a.b/..c/index.html")
    );
}

#[test]
fn github_pages_builder_tracks_custom_inputs() {
    let manifest = SiteRouteManifest::new(
        SiteUrl::new("https://example.test/project"),
        vec![Href::new("/")],
    );
    let config = WebBuildConfig::github_pages("/workspace")
        .command_current_dir("/workspace/web")
        .no_public_assets_dir()
        .public_assets_dir("public")
        .extra_dir("generated/book", "custom-book")
        .extra_file("generated/index.txt", "index.txt")
        .route_manifest(manifest.clone())
        .build();

    assert_eq!(config.command_current_dir, "/workspace/web");
    assert!(config.copy_dirs.iter().any(|copy| {
        copy.source == "/workspace/generated/book"
            && copy.destination == "/workspace/web/dist/custom-book"
    }));
    assert!(config.copy_files.iter().any(|copy| {
        copy.source == "/workspace/generated/index.txt"
            && copy.destination == "/workspace/web/dist/index.txt"
    }));
    assert_eq!(config.route_manifest, Some(manifest));
}

#[test]
fn github_pages_defaults_assemble_the_standard_site() {
    let config = WebBuildConfig::github_pages("/workspace").build();
    let copies = |list: &[stayhydated::web::CopyPath]| {
        list.iter()
            .map(|copy| (copy.source.clone(), copy.destination.clone()))
            .collect::<Vec<_>>()
    };

    assert_eq!(config.command_current_dir, "/workspace");
    assert_eq!(config.dx_public_dir, "/workspace/target/dx/web/release/web/public");
    assert_eq!(config.dist_dir, "/workspace/web/dist");
    assert_eq!(
        copies(&config.copy_dirs),
        [
            ("/workspace/web/public/assets".to_owned(), "/workspace/web/dist/assets".to_owned()),
            ("/workspace/web/public/book".to_owned(), "/workspace/web/dist/book".to_owned()),
            ("/workspace/web/public/llms".to_owned(), "/workspace/web/dist/llms".to_owned()),
        ]
    );
    assert_eq!(
        copies(&config.copy_files),
        [
            ("/workspace/web/public/llms.txt".to_owned(), "/workspace/web/dist/llms.txt".to_owned()),
            (
                "/workspace/web/public/llms-full.txt".to_owned(),
                "/workspace/web/dist/llms-full.txt".to_owned()
            ),
        ]
    );
    assert_eq!(config.write_files.len(), 1);
    assert_eq!(config.write_files[0].destination, "/workspace/web/dist/.nojekyll");
    assert_eq!(config.write_files[0].contents, "");
    assert!(config.route_manifest.is_none());
    assert!(config.write_404_from_index);
}

#[test]
fn fallback_destinations_skip_the_root_and_escaping_routes() {
    let paths = [
        Href::new("/"),
        Href::new("/demos/"),
        Href::new("../escape"),
        Href::new("/zh/demos/"),
    ];

    assert_eq!(
        route_fallback_destinations("/site/dist", &paths),
        ["/site/dist/demos/index.html", "/site/dist/zh/demos/index.html"]
    );
}

#[test]
fn base_paths_are_normalized_for_the_preview_server() {
    assert_eq!(normalize_base_path("project"), "/project");
    assert_eq!(normalize_base_path("/project/"), "/project");
    assert_eq!(normalize_base_path("/"), "");
}

#[test]
fn preview_config_defaults_and_paths() {
    let config = StaticSitePreviewConfig::new("/workspace", "web/dist", "project");

    assert_eq!(config.build_hint, "Build the web site first.");
    assert_eq!(config.program, "bun");
    assert_eq!(config.resolved_dist_dir(), "/workspace/web/dist");
    assert_eq!(
        config.script_path(),
        "/workspace/target/stayhydated/static-site-preview.js"
    );
    assert_eq!(
        config.missing_output_message("/workspace/web/dist"),
        "missing static site output at /workspace/web/dist; Build the web site first."
    );
    let custom = config.build_hint("Run the build.").program("node");
    assert_eq!(custom.build_hint, "Run the build.");
    assert_eq!(custom.program, "node");
    assert_eq!(
        StaticSitePreviewConfig::new("/w", "/abs/dist", "").resolved_dist_dir(),
        "/abs/dist"
    );
}

#[test]
fn rejects_manifest_directory_without_parent() {
    let error = workspace_root_from_xtask_manifest_dir("/")
        .expect_err("filesystem root should not have a parent");

    assert_eq!(
        error.message(),
        "failed to resolve workspace root from xtask manifest directory"
    );
}

#[test]
fn workspace_root_is_the_parent_of_the_manifest_directory() {
    assert_eq!(
        workspace_root_from_xtask_manifest_dir("/repo/xtask").as_deref(),
        Ok("/repo")
    );
    assert_eq!(
        workspace_root_from_parent(None),
        Err(WorkspaceRootError::MissingParent)
    );
    assert_eq!(
        workspace_root_from_parent(Some("/repo".to_owned())).as_deref(),
        Ok("/repo")
    );
}

#[test]
fn workspace_book_lives_under_book_and_builds_into_web_public() {
    assert_eq!(
        workspace_book_dirs("/repo"),
        ("/repo/book".to_owned(), "/repo/web/public/book".to_owned())
    );
}

#[test]
fn assembly_copies_outputs_then_writes_fallbacks_404_and_sitemap() {
    let manifest = SiteRouteManifest::project(
        SiteUrl::new("https://example.test/project"),
        vec![Href::new("/"), Href::new("/demos/")],
    );
    let expected_sitemap = manifest.sitemap_xml();
    let config = WebBuildConfig::github_pages("/w").route_manifest(manifest).build();

    let steps = assembly_steps(&config);

    assert_eq!(steps.len(), 1 + 3 + 2 + 1 + 1 + 1 + 1);
    assert!(matches!(
        &steps[0],
        AssemblyStep::CopyDirectory { source, destination }
            if source == "/w/target/dx/web/release/web/public" && destination == "/w/web/dist"
    ));
    assert!(matches!(
        &steps[4],
        AssemblyStep::CopyFileIfPresent { source, .. } if source == "/w/web/public/llms.txt"
    ));
    assert!(matches!(
        &steps[6],
        AssemblyStep::WriteFile { destination, contents }
            if destination == "/w/web/dist/.nojekyll" && contents.is_empty()
    ));
    assert!(matches!(
        &steps[7],
        AssemblyStep::CopyRouteFallbacks { root_index, destinations }
            if root_index == "/w/web/dist/index.html"
                && destinations == &["/w/web/dist/demos/index.html".to_owned()]
    ));
    assert!(matches!(
        &steps[8],
        AssemblyStep::CopyFile { source, destination }
            if source == "/w/web/dist/index.html" && destination == "/w/web/dist/404.html"
    ));
    assert!(matches!(
        &steps[9],
        AssemblyStep::WriteFile { destination, contents }
            if destination == "/w/web/dist/sitemap.xml" && *contents == expected_sitemap
    ));
}

#[test]
fn assembly_without_manifest_skips_fallbacks_and_sitemap() {
    let steps = assembly_steps(&WebBuildConfig::github_pages("/w").build());

    assert_eq!(steps.len(), 1 + 3 + 2 + 1 + 1);
    assert!(matches!(&steps[7], AssemblyStep::CopyFile { .. }));
}

#[test]
fn preview_paths_resolve_against_the_workspace() {
    assert_eq!(resolve("/workspace", "web/dist"), "/workspace/web/dist");
    assert_eq!(resolve("/workspace/", "web/dist"), "/workspace/web/dist");
    assert_eq!(resolve("/workspace", "/srv/site"), "/srv/site");
    assert_eq!(resolve("", "dist"), "dist");
}

#[test]
fn normalized_base_paths_are_stable() {
    for value in ["", "/", "project", "/project/", "//a/b//"] {
        let once = normalize_base_path(value);
        assert_eq!(normalize_base_path(&once), once);
        assert!(once.is_empty() || (once.starts_with('/') && !once.ends_with('/')));
    }
}
