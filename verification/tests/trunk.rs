use stayhydated::trunk::{
    OutputFile, OutputFileKind, TrunkConfigError, TrunkDemoBuildConfig, TrunkDemoCopyDir,
    TrunkDemoPageConfig, TrunkInputs, TrunkOutputProblem, extension_of, find_bytes,
    output_file_kind, render_index_html, trunk_build_args, trunk_failure_message, trunk_inputs,
    validate_config, verify_output,
};

#[test]
fn generated_page_renders_the_complete_trunk_contract() {
    let config = TrunkDemoPageConfig::new("Configured demo", "Demo & loader")
        .bootstrap_module("./bootstrap.js")
        .bootstrap_export("run")
        .copy_dirs(vec![TrunkDemoCopyDir::new("assets", "public/assets")])
        .canvas_id("demo-canvas");

    let html = render_index_html(&config).expect("page should render");

    assert_eq!(
        html,
        [
            "<!doctype html>\n",
            "<!-- Generated by stayhydated-xtask. -->\n",
            "<html lang=\"en\">\n",
            "  <head>\n",
            "    <meta charset=\"utf-8\" />\n",
            "    <meta name=\"viewport\" content=\"width=device-width, initial-scale=1\" />\n",
            "    <title>Configured demo</title>\n",
            "    <base data-trunk-public-url />\n",
            "    <meta\n",
            "      data-wasm-demo-config\n",
            "      data-wasm-demo-name=\"Demo &amp; loader\"\n",
            "      data-wasm-bootstrap-module=\"./bootstrap.js\"\n",
            "      data-wasm-bootstrap-export=\"run\"\n",
            "    />\n",
            "    <link data-trunk rel=\"copy-dir\" href=\"assets\" ",
            "data-target-path=\"public/assets\" />\n",
            "    <link data-trunk rel=\"rust\" ",
            "data-initializer=\"trunk-loader.js\" />\n",
            "    <style>\n",
            "      html,\n",
            "      body {\n",
            "        width: 100%;\n",
            "        height: 100%;\n",
            "        margin: 0;\n",
            "        overflow: hidden;\n",
            "        background: #000;\n",
            "      }\n",
            "\n",
            "      canvas {\n",
            "        width: 100% !important;\n",
            "        height: 100% !important;\n",
            "      }\n",
            "    </style>\n",
            "  </head>\n",
            "  <body>\n",
            "    <canvas id=\"demo-canvas\"></canvas>\n",
            "  </body>\n",
            "</html>\n",
        ]
        .concat()
    );
}

#[test]
fn generated_page_escapes_html_values() {
    let config = TrunkDemoPageConfig::new("<demo> & \"page\"", "'loader'").canvas_id("canvas&one");

    let html = render_index_html(&config).expect("page should render");

    assert!(html.contains("<title>&lt;demo&gt; &amp; &quot;page&quot;</title>"));
    assert!(html.contains("data-wasm-demo-name=\"&#39;loader&#39;\""));
    assert!(html.contains("<canvas id=\"canvas&amp;one\"></canvas>"));
}

#[test]
fn generated_page_requires_a_module_for_its_bootstrap_export() {
    let config = TrunkDemoPageConfig::new("Demo", "Demo").bootstrap_export("run");

    let error = render_index_html(&config).expect_err("bootstrap export should require a module");

    assert_eq!(
        error.message(),
        "Trunk demo bootstrap export requires a bootstrap module"
    );
}

#[test]
fn generated_page_without_canvas_has_an_empty_body() {
    let config = TrunkDemoPageConfig::new("Demo", "Loader");

    let html = render_index_html(&config).expect("page should render");

    assert!(html.ends_with("    </style>\n  </head>\n  <body></body>\n</html>\n"));
    assert!(!html.contains("canvas"));
    assert!(!html.contains("data-wasm-bootstrap"));
}

#[test]
fn page_validation_reports_the_first_problem() {
    let error = |config: TrunkDemoPageConfig| render_index_html(&config).unwrap_err();

    assert_eq!(error(TrunkDemoPageConfig::new(" ", "")), TrunkConfigError::EmptyTitle);
    assert_eq!(error(TrunkDemoPageConfig::new("T", "\t")), TrunkConfigError::EmptyDemoName);
    assert_eq!(
        error(TrunkDemoPageConfig::new("T", "D").bootstrap_module(" ")),
        TrunkConfigError::EmptyBootstrapModule
    );
    assert_eq!(
        error(TrunkDemoPageConfig::new("T", "D").bootstrap_module("m").bootstrap_export("")),
        TrunkConfigError::EmptyBootstrapExport
    );
    assert_eq!(
        error(TrunkDemoPageConfig::new("T", "D").canvas_id(" ")),
        TrunkConfigError::EmptyCanvasId
    );
    assert_eq!(
        error(TrunkDemoPageConfig::new("T", "D").copy_dirs(vec![
            TrunkDemoCopyDir::new("a", "b"),
            TrunkDemoCopyDir::new(" ", "c"),
        ])),
        TrunkConfigError::EmptyCopyDirSource
    );
    assert_eq!(
        error(TrunkDemoPageConfig::new("T", "D").copy_dirs(vec![TrunkDemoCopyDir::new("a", "")])),
        TrunkConfigError::EmptyCopyDirTarget
    );
    assert_eq!(
        TrunkConfigError::EmptyCopyDirTarget.message(),
        "Trunk demo copy directory target cannot be empty"
    );
}

fn build_config() -> TrunkDemoBuildConfig {
    TrunkDemoBuildConfig::new("/workspace", "examples/demo", "web/public/demo", "demo", "demo-marker")
}

#[test]
fn build_config_validation_follows_the_documented_order() {
    assert!(validate_config(&build_config()).is_ok());

    let blank_name = TrunkDemoBuildConfig::new("/w", "e", "o", " ", "m");
    assert_eq!(validate_config(&blank_name), Err(TrunkConfigError::EmptyExampleName));

    let no_marker = TrunkDemoBuildConfig::new("/w", "e", "o", "demo", "");
    assert_eq!(validate_config(&no_marker), Err(TrunkConfigError::EmptyMarker));

    let both = build_config()
        .loader_destination("scripts/trunk-loader.js")
        .generated_page(TrunkDemoPageConfig::new("T", "D"));
    assert_eq!(validate_config(&both), Err(TrunkConfigError::PageAndLoaderDestination));
    assert_eq!(
        TrunkConfigError::PageAndLoaderDestination.message(),
        "Trunk generated page and loader destination are mutually exclusive"
    );

    let bad_page = build_config().generated_page(TrunkDemoPageConfig::new("", "D"));
    assert_eq!(validate_config(&bad_page), Err(TrunkConfigError::EmptyTitle));
}

#[test]
fn build_config_resolves_relative_directories_against_the_workspace() {
    let config = build_config();

    assert_eq!(config.program, "trunk");
    assert!(config.require_javascript);
    assert_eq!(config.example_dir(), "/workspace/examples/demo");
    assert_eq!(config.output_dir(), "/workspace/web/public/demo");
    assert_eq!(config.resolve("/elsewhere/out"), "/elsewhere/out");
}

#[test]
fn trunk_runs_a_release_build_into_the_output_directory() {
    let config = build_config().toolchain("nightly");

    assert_eq!(
        trunk_build_args(&config, "/workspace/web/public/demo"),
        [
            "build",
            "index.html",
            "--example",
            "demo",
            "--release",
            "--no-default-features",
            "--no-sri",
            "--public-url",
            "./",
            "--dist",
            "/workspace/web/public/demo",
        ]
    );
    assert_eq!(
        trunk_failure_message(&config, "exit status: 1"),
        "Trunk failed for example `demo` with Rust toolchain `nightly` with status exit status: 1"
    );
    assert_eq!(
        trunk_failure_message(&build_config(), "exit status: 2"),
        "Trunk failed for example `demo` with status exit status: 2"
    );
}

#[test]
fn output_files_are_classified_by_extension() {
    assert_eq!(extension_of("demo.wasm").as_deref(), Some("wasm"));
    assert_eq!(extension_of("archive.tar.gz").as_deref(), Some("gz"));
    assert_eq!(extension_of(".gitignore"), None);
    assert_eq!(extension_of("README"), None);
    assert_eq!(extension_of(".."), None);
    assert_eq!(extension_of("name.").as_deref(), Some(""));
    assert_eq!(output_file_kind("app.js"), OutputFileKind::JavaScript);
    assert_eq!(output_file_kind("app_bg.wasm"), OutputFileKind::Wasm);
    assert_eq!(output_file_kind("index.html"), OutputFileKind::Other);
}

#[test]
fn marker_search_finds_runs_anywhere() {
    assert!(find_bytes(b"prefix-demo-marker-suffix", b"demo-marker"));
    assert!(find_bytes(b"demo-marker", b"demo-marker"));
    assert!(!find_bytes(b"demo-marke", b"demo-marker"));
    assert!(!find_bytes(b"other", b"required"));
}

fn file(name: &str, contents: &[u8]) -> OutputFile {
    OutputFile {
        name: name.to_owned(),
        contents: contents.to_vec(),
    }
}

#[test]
fn verifier_reports_missing_marker() {
    let config = TrunkDemoBuildConfig::new("/tmp", "example", "output", "demo", "required");
    let files = [file("index.html", b""), file("demo.js", b""), file("demo.wasm", b"other")];

    let error = verify_output(&config, "/tmp/output", true, &files).expect_err("marker should be required");

    assert!(error.message.contains("missing marker `required`"));
    assert_eq!(error.problem, TrunkOutputProblem::MissingMarker);
}

#[test]
fn verifier_checks_index_javascript_and_wasm_in_order() {
    let config = build_config();
    let good = [file("demo.js", b""), file("demo.wasm", b"xx demo-marker xx")];

    assert!(verify_output(&config, "/out", true, &good).is_ok());

    let missing_index = verify_output(&config, "/out", false, &good).unwrap_err();
    assert_eq!(missing_index.problem, TrunkOutputProblem::MissingIndex);
    assert_eq!(missing_index.message, "missing Trunk demo HTML output at /out/index.html");

    let no_js = verify_output(&config, "/out", true, &good[1..]).unwrap_err();
    assert_eq!(no_js.message, "missing Trunk demo JavaScript output in /out");

    let js_optional = build_config().require_javascript(false);
    assert!(verify_output(&js_optional, "/out", true, &good[1..]).is_ok());

    let no_wasm = verify_output(&config, "/out", true, &good[..1]).unwrap_err();
    assert_eq!(no_wasm.problem, TrunkOutputProblem::MissingWasm);
    assert_eq!(no_wasm.message, "missing Trunk demo wasm output in /out");
}

#[test]
fn generated_pages_and_loaders_are_written_into_the_example() {
    let page = TrunkDemoPageConfig::new("Shared demo", "Shared loader").canvas_id("demo");
    let config = build_config().generated_page(page.clone());

    match trunk_inputs(&config) {
        TrunkInputs::GeneratedPage { index, loader, html } => {
            assert_eq!(index, "/workspace/examples/demo/index.html");
            assert_eq!(loader, "/workspace/examples/demo/trunk-loader.js");
            assert_eq!(html, render_index_html(&page).expect("page should render"));
        },
        other => panic!("unexpected inputs {other:?}"),
    }

    let with_loader = build_config().loader_destination("examples/scripts/trunk-loader.js");
    match trunk_inputs(&with_loader) {
        TrunkInputs::Loader { destination } => {
            assert_eq!(destination, "/workspace/examples/scripts/trunk-loader.js");
        },
        other => panic!("unexpected inputs {other:?}"),
    }

    assert!(matches!(trunk_inputs(&build_config()), TrunkInputs::Existing));
}
