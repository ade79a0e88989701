use stayhydated::release::{
    BlockedPackage, DependencyKind, PublishOptions, PublishStep, ReleaseError, ReleasePackage,
    ReleaseResumePoint, WorkspaceDependency, WorkspaceMetadata, WorkspacePackage,
    cargo_publish_command, lowercase_output_reports_existing_upload,
    output_mentions_existing_upload, packages_from, plan, publish_give_up_message,
    publish_attempt_outcome, release_order_from_metadata, release_plan_text,
    requires_clean_worktree_guard,
};

fn package(name: &str) -> ReleasePackage {
    ReleasePackage::new(name, "0.1.0")
}

fn options() -> PublishOptions {
    PublishOptions::new(false)
}

#[test]
fn cargo_hack_publish_allows_its_temporary_manifest_edits() {
    let command = cargo_publish_command(&package("public-crate"), &options());

    assert_eq!(
        command.argv(),
        [
            "cargo",
            "hack",
            "--no-dev-deps",
            "publish",
            "-p",
            "public-crate",
            "--allow-dirty",
        ]
    );
}

#[test]
fn cargo_hack_publish_guards_preexisting_dirty_changes_by_default() {
    assert!(requires_clean_worktree_guard(&options()));
}

#[test]
fn explicit_dirty_publish_disables_the_clean_worktree_guard() {
    let mut options = options();
    options.allow_dirty = true;

    assert!(!requires_clean_worktree_guard(&options));
}

#[test]
fn plain_cargo_publish_does_not_allow_dirty_by_default() {
    let mut options = options();
    options.include_dev_deps = true;

    let command = cargo_publish_command(&package("public-crate"), &options);

    assert_eq!(command.argv(), ["cargo", "publish", "-p", "public-crate"]);
}

#[test]
fn registry_name_renders_into_publish_command() {
    let options = options()
        .registry(Some("private".to_owned()))
        .expect("registry should parse");
    let command = cargo_publish_command(&package("public-crate"), &options);

    assert_eq!(
        command.argv(),
        [
            "cargo",
            "hack",
            "--no-dev-deps",
            "publish",
            "-p",
            "public-crate",
            "--registry",
            "private",
            "--allow-dirty",
        ]
    );
}

#[test]
fn empty_resume_package_name_is_precise_error() {
    let error = options()
        .resume_from(Some(" ".to_owned()))
        .expect_err("empty resume point should fail");

    assert_eq!(
        error.message(),
        "release resume package name cannot be empty"
    );
}

#[test]
fn packages_from_reports_unknown_resume_point_with_expected_names() {
    let packages = [package("alpha"), package("beta")];
    let resume = ReleaseResumePoint::parse("missing").expect("resume point should parse");
    let error = packages_from(&packages, Some(&resume))
        .expect_err("unknown resume package should fail");

    assert_eq!(
        error.message(),
        "unknown release package `missing`; expected one of: alpha, beta"
    );
}

#[test]
fn packages_from_starts_at_the_resume_point() {
    let packages = [package("alpha"), package("beta"), package("gamma")];
    let resume = ReleaseResumePoint::parse("beta").expect("resume point should parse");
    let rest = packages_from(&packages, Some(&resume)).expect("known package should resume");

    assert_eq!(rest.len(), 2);
    assert_eq!(rest[0].name.as_str(), "beta");
    assert_eq!(rest[1].name.as_str(), "gamma");
    assert_eq!(packages_from(&packages, None).expect("no resume point").len(), 3);
}

#[test]
fn blank_registry_is_refused() {
    let error = options()
        .registry(Some("  ".to_owned()))
        .expect_err("blank registry should fail");

    assert_eq!(error, ReleaseError::EmptyRegistryName);
    assert_eq!(error.message(), "registry name cannot be empty");
}

#[test]
fn publish_options_have_documented_defaults() {
    let options = options();

    assert!(!options.execute);
    assert!(options.from.is_none());
    assert!(options.registry.is_none());
    assert!(!options.allow_dirty);
    assert!(!options.skip_verify);
    assert!(!options.include_dev_deps);
    assert!(!options.skip_existing);
    assert_eq!(options.retries, 3);
    assert_eq!(options.retry_delay_seconds, 20);
}

#[test]
fn skip_verify_and_dev_deps_render_into_plain_publish() {
    let options = options().include_dev_deps(true).skip_verify(true).allow_dirty(true);
    let command = cargo_publish_command(&package("crate-a"), &options);

    assert_eq!(
        command.argv(),
        ["cargo", "publish", "-p", "crate-a", "--allow-dirty", "--no-verify"]
    );
    assert_eq!(
        command.display(),
        "cargo publish -p crate-a --allow-dirty --no-verify"
    );
}

fn member(id: &str, name: &str, deps: &[(&str, DependencyKind)]) -> WorkspacePackage {
    WorkspacePackage {
        id: id.to_owned(),
        name: name.to_owned(),
        version: "1.0.0".to_owned(),
        publish: None,
        dependencies: deps
            .iter()
            .map(|(dep, kind)| WorkspaceDependency {
                name: (*dep).to_owned(),
                kind: *kind,
            })
            .collect(),
    }
}

fn names(packages: &[ReleasePackage]) -> Vec<String> {
    packages.iter().map(|p| p.name.as_str().to_owned()).collect()
}

#[test]
fn release_order_publishes_dependencies_first() {
    let metadata = WorkspaceMetadata {
        packages: vec![
            member("app", "app", &[("core", DependencyKind::Normal)]),
            member("core", "core", &[("util", DependencyKind::Build)]),
            member("util", "util", &[("app", DependencyKind::Development)]),
        ],
        workspace_members: vec!["app".to_owned(), "core".to_owned(), "util".to_owned()],
    };
    assert!(metadata.is_well_formed());

    let order = release_order_from_metadata(&metadata).expect("no cycle");

    assert_eq!(names(&order), ["util", "core", "app"]);
}

#[test]
fn release_order_skips_unpublishable_members() {
    let mut private = member("private", "private", &[]);
    private.publish = Some(Vec::new());
    let metadata = WorkspaceMetadata {
        packages: vec![private, member("public", "public", &[("private", DependencyKind::Normal)])],
        workspace_members: vec!["private".to_owned(), "public".to_owned()],
    };

    let order = release_order_from_metadata(&metadata).expect("no cycle");

    assert_eq!(names(&order), ["public"]);
}

#[test]
fn release_order_reports_cycles() {
    let metadata = WorkspaceMetadata {
        packages: vec![
            member("a", "a", &[("b", DependencyKind::Normal)]),
            member("b", "b", &[("a", DependencyKind::Normal)]),
            member("c", "c", &[]),
        ],
        workspace_members: vec!["a".to_owned(), "b".to_owned(), "c".to_owned()],
    };

    let error = release_order_from_metadata(&metadata).expect_err("cycle");

    assert_eq!(
        error,
        ReleaseError::DependencyCycle {
            blocked: vec![
                BlockedPackage {
                    name: "a".to_owned(),
                    waits_on: vec!["b".to_owned()],
                },
                BlockedPackage {
                    name: "b".to_owned(),
                    waits_on: vec!["a".to_owned()],
                },
            ],
        }
    );
    assert_eq!(
        error.message(),
        "workspace publish dependencies contain a cycle: a waits on b; b waits on a"
    );
}

#[test]
fn release_plan_lists_packages_in_order() {
    let packages = [
        ReleasePackage::new("util", "0.2.0"),
        ReleasePackage::new("core", "1.0.0"),
    ];

    assert_eq!(
        release_plan_text(&packages),
        "Release publish order:\n 1. util 0.2.0\n 2. core 1.0.0\nOrder is computed from non-dev workspace dependencies.\n"
    );
}

#[test]
fn plan_renders_the_workspace_order() {
    let metadata = WorkspaceMetadata {
        packages: vec![
            member("b", "b", &[("a", DependencyKind::Normal)]),
            member("a", "a", &[]),
        ],
        workspace_members: vec!["b".to_owned(), "a".to_owned()],
    };

    assert_eq!(
        plan(&metadata).expect("no cycle"),
        "Release publish order:\n 1. a 1.0.0\n 2. b 1.0.0\nOrder is computed from non-dev workspace dependencies.\n"
    );
}

#[test]
fn publish_attempts_retry_until_the_last_one() {
    let options = options();

    assert_eq!(
        publish_attempt_outcome(0, &options, true, ""),
        PublishStep::Published
    );
    assert_eq!(
        publish_attempt_outcome(0, &options, false, "network"),
        PublishStep::Retry
    );
    assert_eq!(
        publish_attempt_outcome(3, &options, false, "network"),
        PublishStep::GiveUp
    );
}

#[test]
fn existing_uploads_are_skipped_only_when_asked() {
    let stderr = "error: crate version `1.0.0` is Already Uploaded";
    assert!(output_mentions_existing_upload(stderr));
    assert!(output_mentions_existing_upload("the version ALREADY EXISTS"));
    assert!(!output_mentions_existing_upload("timeout"));

    assert_eq!(
        publish_attempt_outcome(0, &options().skip_existing(true), false, stderr),
        PublishStep::AlreadyUploaded
    );
    assert_eq!(
        publish_attempt_outcome(0, &options(), false, stderr),
        PublishStep::Retry
    );
}

#[test]
fn lowercase_output_is_searched_for_existing_uploads() {
    assert!(lowercase_output_reports_existing_upload("crate already uploaded"));
    assert!(lowercase_output_reports_existing_upload("version already exists on index"));
    assert!(!lowercase_output_reports_existing_upload("ALREADY EXISTS"));
    assert!(!lowercase_output_reports_existing_upload(""));
}

#[test]
fn giving_up_reports_the_command_attempts_and_status() {
    let command = cargo_publish_command(&package("crate-a"), &options().include_dev_deps(true));

    assert_eq!(
        publish_give_up_message(&command, 3, "exit status: 101"),
        "cargo publish -p crate-a failed after 4 attempt(s) with status exit status: 101"
    );
}

#[test]
fn cloned_publish_options_keep_every_setting() {
    let options = options()
        .registry(Some("private".to_owned()))
        .expect("registry should parse")
        .resume_from(Some("beta".to_owned()))
        .expect("resume point should parse")
        .allow_dirty(true)
        .retries(5);
    let copy = options.clone();

    assert_eq!(copy.registry.as_ref().map(|r| r.as_str()), Some("private"));
    assert_eq!(copy.from, options.from);
    assert!(copy.allow_dirty);
    assert_eq!(copy.retries, 5);
    assert_eq!(copy.retry_delay_seconds, 20);
    assert_eq!(command_line(&copy), command_line(&options));
}

fn command_line(options: &PublishOptions) -> String {
    cargo_publish_command(&package("x"), options).display()
}
