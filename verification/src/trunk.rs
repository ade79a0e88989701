//! Trunk-built WebAssembly demos: the generated input page, the build
//! configuration and its validation, the Trunk command line and the checks on
//! what Trunk wrote.
use vstd::prelude::*;

use crate::paths::{join, join_path};
use crate::text::{clone_opt, copy_string, is_blank, opt_view, owned, push_char, push_str, trim_ws};
use vstd::std_specs::cmp::PartialEqSpecImpl;
use vstd::utf8::encode_utf8;

verus! {

/// File name used for the loader beside a generated Trunk index.
pub const TRUNK_DEMO_LOADER_FILE_NAME: &'static str = "trunk-loader.js";

/// The HTML escape of one character.
pub open spec fn html_escape_char(c: char) -> Seq<char> {
    if c == '&' {
        "&amp;"@
    } else if c == '<' {
        "&lt;"@
    } else if c == '>' {
        "&gt;"@
    } else if c == '"' {
        "&quot;"@
    } else if c == '\'' {
        "&#39;"@
    } else {
        seq![c]
    }
}

/// `s` with each character replaced by its HTML escape.
pub open spec fn html_escaped(s: Seq<char>) -> Seq<char>
    decreases s.len(),
{
    if s.len() == 0 {
        Seq::empty()
    } else {
        html_escaped(s.drop_last()) + html_escape_char(s.last())
    }
}

/// Whether `c` is a character that HTML escaping removes from text.
pub open spec fn is_html_markup(c: char) -> bool {
    c == '<' || c == '>' || c == '"' || c == '\''
}

/// Escaped text holds no `<`, `>`, `"` or `'`, so it cannot open or close a tag
/// or an attribute value.
pub proof fn law_html_escaped_is_inert(s: Seq<char>)
    ensures
        forall|i: int| 0 <= i < html_escaped(s).len() ==> !is_html_markup(#[trigger] html_escaped(s)[i]),
    decreases s.len(),
{
    if s.len() > 0 {
        law_html_escaped_is_inert(s.drop_last());
        reveal_strlit("&amp;");
        reveal_strlit("&lt;");
        reveal_strlit("&gt;");
        reveal_strlit("&quot;");
        reveal_strlit("&#39;");
        let prev = html_escaped(s.drop_last());
        let tail = html_escape_char(s.last());
        assert forall|j: int| 0 <= j < tail.len() implies !is_html_markup(#[trigger] tail[j]) by {
        }
        assert forall|i: int| 0 <= i < html_escaped(s).len() implies !is_html_markup(
            #[trigger] html_escaped(s)[i],
        ) by {
            if i < prev.len() {
                assert(html_escaped(s)[i] == prev[i]);
            } else {
                assert(html_escaped(s)[i] == tail[i - prev.len()]);
            }
        }
    }
}

/// Appends `value` to `html` with `&`, `<`, `>`, `"` and `'` escaped.
pub fn push_html_escaped(html: &mut String, value: &str)
    ensures
        final(html)@ == old(html)@ + html_escaped(value@),
{
    let chars = crate::text::chars_of(value);
    let mut i: usize = 0;
    while i < chars.len()
        invariant
            chars@ == value@,
            i <= chars@.len(),
            html@ == old(html)@ + html_escaped(chars@.take(i as int)),
        decreases chars@.len() - i,
    {
        let c = chars[i];
        let ghost before = html@;
        if c == '&' {
            push_str(html, "&amp;");
        } else if c == '<' {
            push_str(html, "&lt;");
        } else if c == '>' {
            push_str(html, "&gt;");
        } else if c == '"' {
            push_str(html, "&quot;");
        } else if c == '\'' {
            push_str(html, "&#39;");
        } else {
            push_char(html, c);
        }
        proof {
            let t = chars@.take(i + 1);
            assert(t.drop_last() =~= chars@.take(i as int));
            assert(t.last() == c);
            assert(html@ =~= old(html)@ + html_escaped(t));
        }
        i += 1;
    }
    proof {
        assert(chars@.take(chars@.len() as int) =~= chars@);
    }
}

/// A Trunk `copy-dir` declaration rendered into a generated demo page.
#[derive(Debug)]
pub struct TrunkDemoCopyDir {
    source: String,
    target: String,
}

impl View for TrunkDemoCopyDir {
    type V = (Seq<char>, Seq<char>);

    closed spec fn view(&self) -> (Seq<char>, Seq<char>) {
        (self.source@, self.target@)
    }
}

impl Clone for TrunkDemoCopyDir {
    fn clone(&self) -> (res: Self)
        ensures
            res@ == self@,
    {
        TrunkDemoCopyDir { source: copy_string(&self.source), target: copy_string(&self.target) }
    }
}

impl PartialEq for TrunkDemoCopyDir {
    fn eq(&self, other: &Self) -> (res: bool) {
        self.source == other.source && self.target == other.target
    }
}

impl PartialEqSpecImpl for TrunkDemoCopyDir {
    open spec fn obeys_eq_spec() -> bool {
        true
    }

    open spec fn eq_spec(&self, other: &Self) -> bool {
        self@ == other@
    }
}

impl Eq for TrunkDemoCopyDir {}

impl TrunkDemoCopyDir {
    /// Copies the directory `source` of the demo to `target` in Trunk's output.
    pub fn new(source: &str, target: &str) -> (res: Self)
        ensures
            res@ == (source@, target@),
    {
        TrunkDemoCopyDir { source: owned(source), target: owned(target) }
    }

    /// The directory that is copied.
    pub fn source(&self) -> (res: &str)
        ensures
            res@ == self@.0,
    {
        self.source.as_str()
    }

    /// Where the directory lands in Trunk's output.
    pub fn target(&self) -> (res: &str)
        ensures
            res@ == self@.1,
    {
        self.target.as_str()
    }
}

/// The views of a sequence of copy declarations.
pub open spec fn copy_dir_views(dirs: Seq<TrunkDemoCopyDir>) -> Seq<(Seq<char>, Seq<char>)> {
    dirs.map_values(|d: TrunkDemoCopyDir| d@)
}

/// The abstract content of a demo page configuration.
pub struct TrunkDemoPageView {
    pub title: Seq<char>,
    pub demo_name: Seq<char>,
    pub bootstrap_module: Option<Seq<char>>,
    pub bootstrap_export: Option<Seq<char>>,
    pub copy_dirs: Seq<(Seq<char>, Seq<char>)>,
    pub canvas_id: Option<Seq<char>>,
}

/// Standard fullscreen HTML inputs for a Trunk-built WebAssembly demo.
#[derive(Debug)]
pub struct TrunkDemoPageConfig {
    title: String,
    demo_name: String,
    bootstrap_module: Option<String>,
    bootstrap_export: Option<String>,
    copy_dirs: Vec<TrunkDemoCopyDir>,
    canvas_id: Option<String>,
}

impl View for TrunkDemoPageConfig {
    type V = TrunkDemoPageView;

    closed spec fn view(&self) -> TrunkDemoPageView {
        TrunkDemoPageView {
            title: self.title@,
            demo_name: self.demo_name@,
            bootstrap_module: opt_view(self.bootstrap_module),
            bootstrap_export: opt_view(self.bootstrap_export),
            copy_dirs: copy_dir_views(self.copy_dirs@),
            canvas_id: opt_view(self.canvas_id),
        }
    }
}

fn clone_copy_dirs(dirs: &Vec<TrunkDemoCopyDir>) -> (res: Vec<TrunkDemoCopyDir>)
    ensures
        copy_dir_views(res@) == copy_dir_views(dirs@),
{
    let mut res: Vec<TrunkDemoCopyDir> = Vec::new();
    let mut i: usize = 0;
    while i < dirs.len()
        invariant
            i <= dirs@.len(),
            copy_dir_views(res@) == copy_dir_views(dirs@).take(i as int),
        decreases dirs@.len() - i,
    {
        let c = dirs[i].clone();
        assert(c@ == dirs@[i as int]@);
        let ghost before = res@;
        res.push(c);
        proof {
            assert(copy_dir_views(before.push(c)) =~= copy_dir_views(before).push(c@));
            assert(copy_dir_views(dirs@).take(i + 1) =~= copy_dir_views(dirs@).take(i as int).push(
                dirs@[i as int]@,
            ));
        }
        i += 1;
    }
    proof {
        assert(copy_dir_views(dirs@).take(dirs@.len() as int) =~= copy_dir_views(dirs@));
    }
    res
}

impl Clone for TrunkDemoPageConfig {
    fn clone(&self) -> (res: Self)
        ensures
            res@ == self@,
    {
        TrunkDemoPageConfig {
            title: copy_string(&self.title),
            demo_name: copy_string(&self.demo_name),
            bootstrap_module: clone_opt(&self.bootstrap_module),
            bootstrap_export: clone_opt(&self.bootstrap_export),
            copy_dirs: clone_copy_dirs(&self.copy_dirs),
            canvas_id: clone_opt(&self.canvas_id),
        }
    }
}

impl TrunkDemoPageConfig {
    /// A page with the given title and loader name, no bootstrap module or export,
    /// no copied directories and no canvas.
    pub fn new(title: &str, demo_name: &str) -> (res: Self)
        ensures
            res@ == (TrunkDemoPageView {
                title: title@,
                demo_name: demo_name@,
                bootstrap_module: None,
                bootstrap_export: None,
                copy_dirs: Seq::empty(),
                canvas_id: None,
            }),
    {
        let res = TrunkDemoPageConfig {
            title: owned(title),
            demo_name: owned(demo_name),
            bootstrap_module: None,
            bootstrap_export: None,
            copy_dirs: Vec::new(),
            canvas_id: None,
        };
        assert(copy_dir_views(res.copy_dirs@) =~= Seq::empty());
        res
    }

    /// Sets the module that bootstraps the demo.
    pub fn bootstrap_module(self, module: &str) -> (res: Self)
        ensures
            res@ == (TrunkDemoPageView { bootstrap_module: Some(module@), ..self@ }),
    {
        let mut res = self;
        res.bootstrap_module = Some(owned(module));
        res
    }

    /// Sets the export of the bootstrap module that starts the demo.
    pub fn bootstrap_export(self, export: &str) -> (res: Self)
        ensures
            res@ == (TrunkDemoPageView { bootstrap_export: Some(export@), ..self@ }),
    {
        let mut res = self;
        res.bootstrap_export = Some(owned(export));
        res
    }

    /// Sets the directories Trunk copies into its output.
    pub fn copy_dirs(self, copy_dirs: Vec<TrunkDemoCopyDir>) -> (res: Self)
        ensures
            res@ == (TrunkDemoPageView { copy_dirs: copy_dir_views(copy_dirs@), ..self@ }),
    {
        let mut res = self;
        res.copy_dirs = copy_dirs;
        res
    }

    /// Sets the id of the fullscreen canvas the page provides.
    pub fn canvas_id(self, canvas_id: &str) -> (res: Self)
        ensures
            res@ == (TrunkDemoPageView { canvas_id: Some(canvas_id@), ..self@ }),
    {
        let mut res = self;
        res.canvas_id = Some(owned(canvas_id));
        res
    }
}

/// A Trunk demo configuration that cannot be built.
#[derive(Debug, Clone, Copy, PartialEq, Eq, Structural)]
pub enum TrunkConfigError {
    EmptyExampleName,
    EmptyMarker,
    PageAndLoaderDestination,
    EmptyTitle,
    EmptyDemoName,
    EmptyBootstrapModule,
    EmptyBootstrapExport,
    ExportWithoutModule,
    EmptyCanvasId,
    EmptyCopyDirSource,
    EmptyCopyDirTarget,
}

/// The message that reports a configuration error.
pub open spec fn config_error_text(e: TrunkConfigError) -> Seq<char> {
    match e {
        TrunkConfigError::EmptyExampleName => "Trunk example name cannot be empty"@,
        TrunkConfigError::EmptyMarker => "Trunk wasm marker cannot be empty"@,
        TrunkConfigError::PageAndLoaderDestination =>
            "Trunk generated page and loader destination are mutually exclusive"@,
        TrunkConfigError::EmptyTitle => "Trunk demo page title cannot be empty"@,
        TrunkConfigError::EmptyDemoName => "Trunk demo loader name cannot be empty"@,
        TrunkConfigError::EmptyBootstrapModule => "Trunk demo bootstrap module cannot be empty"@,
        TrunkConfigError::EmptyBootstrapExport => "Trunk demo bootstrap export cannot be empty"@,
        TrunkConfigError::ExportWithoutModule =>
            "Trunk demo bootstrap export requires a bootstrap module"@,
        TrunkConfigError::EmptyCanvasId => "Trunk demo canvas ID cannot be empty"@,
        TrunkConfigError::EmptyCopyDirSource => "Trunk demo copy directory source cannot be empty"@,
        TrunkConfigError::EmptyCopyDirTarget => "Trunk demo copy directory target cannot be empty"@,
    }
}

impl TrunkConfigError {
    /// The message that reports this error.
    pub fn message(&self) -> (res: String)
        ensures
            res@ == config_error_text(*self),
    {
        match self {
            TrunkConfigError::EmptyExampleName => owned("Trunk example name cannot be empty"),
            TrunkConfigError::EmptyMarker => owned("Trunk wasm marker cannot be empty"),
            TrunkConfigError::PageAndLoaderDestination => owned(
                "Trunk generated page and loader destination are mutually exclusive",
            ),
            TrunkConfigError::EmptyTitle => owned("Trunk demo page title cannot be empty"),
            TrunkConfigError::EmptyDemoName => owned("Trunk demo loader name cannot be empty"),
            TrunkConfigError::EmptyBootstrapModule => owned(
                "Trunk demo bootstrap module cannot be empty",
            ),
            TrunkConfigError::EmptyBootstrapExport => owned(
                "Trunk demo bootstrap export cannot be empty",
            ),
            TrunkConfigError::ExportWithoutModule => owned(
                "Trunk demo bootstrap export requires a bootstrap module",
            ),
            TrunkConfigError::EmptyCanvasId => owned("Trunk demo canvas ID cannot be empty"),
            TrunkConfigError::EmptyCopyDirSource => owned(
                "Trunk demo copy directory source cannot be empty",
            ),
            TrunkConfigError::EmptyCopyDirTarget => owned(
                "Trunk demo copy directory target cannot be empty",
            ),
        }
    }
}

/// Whether `s` holds nothing but whitespace.
pub open spec fn blank(s: Seq<char>) -> bool {
    trim_ws(s).len() == 0
}

/// Whether an optional value is present and blank.
pub open spec fn blank_option(o: Option<Seq<char>>) -> bool {
    match o {
        Some(s) => blank(s),
        None => false,
    }
}

/// The first blank source or target among `dirs[i..]`, in order.
pub open spec fn copy_dir_error(dirs: Seq<(Seq<char>, Seq<char>)>, i: int) -> Option<
    TrunkConfigError,
>
    decreases dirs.len() - i,
{
    if i < 0 || i >= dirs.len() {
        None
    } else if blank(dirs[i].0) {
        Some(TrunkConfigError::EmptyCopyDirSource)
    } else if blank(dirs[i].1) {
        Some(TrunkConfigError::EmptyCopyDirTarget)
    } else {
        copy_dir_error(dirs, i + 1)
    }
}

/// The first problem of a page configuration, checked in this order: a blank
/// title, a blank loader name, a blank bootstrap module, a blank bootstrap export,
/// an export without a module, a blank canvas id, a blank copied directory.
pub open spec fn page_error(c: TrunkDemoPageView) -> Option<TrunkConfigError> {
    if blank(c.title) {
        Some(TrunkConfigError::EmptyTitle)
    } else if blank(c.demo_name) {
        Some(TrunkConfigError::EmptyDemoName)
    } else if blank_option(c.bootstrap_module) {
        Some(TrunkConfigError::EmptyBootstrapModule)
    } else if blank_option(c.bootstrap_export) {
        Some(TrunkConfigError::EmptyBootstrapExport)
    } else if c.bootstrap_export is Some && c.bootstrap_module is None {
        Some(TrunkConfigError::ExportWithoutModule)
    } else if blank_option(c.canvas_id) {
        Some(TrunkConfigError::EmptyCanvasId)
    } else {
        copy_dir_error(c.copy_dirs, 0)
    }
}

fn blank_opt(o: &Option<String>) -> (res: bool)
    ensures
        res == blank_option(opt_view(*o)),
{
    match o {
        Some(s) => is_blank(s.as_str()),
        None => false,
    }
}

/// Checks a page configuration.
pub fn validate_page_config(config: &TrunkDemoPageConfig) -> (res: Result<(), TrunkConfigError>)
    ensures
        match page_error(config@) {
            Some(e) => res == Err::<(), TrunkConfigError>(e),
            None => res is Ok,
        },
{
    if is_blank(config.title.as_str()) {
        return Err(TrunkConfigError::EmptyTitle);
    }
    if is_blank(config.demo_name.as_str()) {
        return Err(TrunkConfigError::EmptyDemoName);
    }
    if blank_opt(&config.bootstrap_module) {
        return Err(TrunkConfigError::EmptyBootstrapModule);
    }
    if blank_opt(&config.bootstrap_export) {
        return Err(TrunkConfigError::EmptyBootstrapExport);
    }
    if config.bootstrap_export.is_some() && config.bootstrap_module.is_none() {
        return Err(TrunkConfigError::ExportWithoutModule);
    }
    if blank_opt(&config.canvas_id) {
        return Err(TrunkConfigError::EmptyCanvasId);
    }
    let ghost dirs = config@.copy_dirs;
    let mut i: usize = 0;
    while i < config.copy_dirs.len()
        invariant
            dirs == copy_dir_views(config.copy_dirs@),
            dirs == config@.copy_dirs,
            page_error(config@) == copy_dir_error(dirs, 0),
            i <= dirs.len(),
            copy_dir_error(dirs, 0) == copy_dir_error(dirs, i as int),
        decreases dirs.len() - i,
    {
        if is_blank(config.copy_dirs[i].source()) {
            return Err(TrunkConfigError::EmptyCopyDirSource);
        }
        if is_blank(config.copy_dirs[i].target()) {
            return Err(TrunkConfigError::EmptyCopyDirTarget);
        }
        i += 1;
    }
    Ok(())
}

/// The page up to the title.
pub const INDEX_HEAD: &'static str = "<!doctype html>\n<!-- Generated by stayhydated-xtask. -->\n<html lang=\"en\">\n  <head>\n    <meta charset=\"utf-8\" />\n    <meta name=\"viewport\" content=\"width=device-width, initial-scale=1\" />\n    <title>";

/// From the end of the title to the demo name.
pub const INDEX_CONFIG_META: &'static str = "</title>\n    <base data-trunk-public-url />\n    <meta\n      data-wasm-demo-config\n      data-wasm-demo-name=\"";

/// The end of one attribute value and its line.
pub const INDEX_ATTRIBUTE_END: &'static str = "\"\n";

/// The opening of the bootstrap module attribute.
pub const INDEX_MODULE_ATTRIBUTE: &'static str = "      data-wasm-bootstrap-module=\"";

/// The opening of the bootstrap export attribute.
pub const INDEX_EXPORT_ATTRIBUTE: &'static str = "      data-wasm-bootstrap-export=\"";

/// The end of the configuration element.
pub const INDEX_CONFIG_END: &'static str = "    />\n";

/// The opening of one `copy-dir` link.
pub const INDEX_COPY_DIR_OPEN: &'static str = "    <link data-trunk rel=\"copy-dir\" href=\"";

/// Between the source and the target of a `copy-dir` link.
pub const INDEX_COPY_DIR_TARGET: &'static str = "\" data-target-path=\"";

/// The end of a link element.
pub const INDEX_LINK_END: &'static str = "\" />\n";

/// The opening of the Rust link, up to its initializer.
pub const INDEX_RUST_LINK: &'static str = "    <link data-trunk rel=\"rust\" data-initializer=\"";

/// The end of the Rust link and the page style.
pub const INDEX_STYLE: &'static str = "\" />\n    <style>\n      html,\n      body {\n        width: 100%;\n        height: 100%;\n        margin: 0;\n        overflow: hidden;\n        background: #000;\n      }\n";

/// The style of a fullscreen canvas.
pub const INDEX_CANVAS_STYLE: &'static str = "\n      canvas {\n        width: 100% !important;\n        height: 100% !important;\n      }\n";

/// The end of the style and of the head.
pub const INDEX_HEAD_END: &'static str = "    </style>\n  </head>\n";

/// The body up to the canvas id.
pub const INDEX_CANVAS_BODY: &'static str = "  <body>\n    <canvas id=\"";

/// The end of the canvas and of the body.
pub const INDEX_CANVAS_BODY_END: &'static str = "\"></canvas>\n  </body>\n";

/// The body of a page without a canvas.
pub const INDEX_EMPTY_BODY: &'static str = "  <body></body>\n";

/// The end of the page.
pub const INDEX_END: &'static str = "</html>\n";

/// An attribute line opened by `opening` holding the escaped value, if there is one.
pub open spec fn optional_attribute(opening: Seq<char>, value: Option<Seq<char>>) -> Seq<char> {
    match value {
        Some(v) => opening + html_escaped(v) + INDEX_ATTRIBUTE_END@,
        None => Seq::empty(),
    }
}

/// The `copy-dir` link of one declaration.
pub open spec fn copy_dir_link(dir: (Seq<char>, Seq<char>)) -> Seq<char> {
    INDEX_COPY_DIR_OPEN@ + html_escaped(dir.0) + INDEX_COPY_DIR_TARGET@ + html_escaped(dir.1)
        + INDEX_LINK_END@
}

/// The `copy-dir` links of the declarations, in order.
pub open spec fn copy_dir_links(dirs: Seq<(Seq<char>, Seq<char>)>) -> Seq<char>
    decreases dirs.len(),
{
    if dirs.len() == 0 {
        Seq::empty()
    } else {
        copy_dir_links(dirs.drop_last()) + copy_dir_link(dirs.last())
    }
}

/// The canvas style, on pages with a canvas.
pub open spec fn canvas_style(canvas_id: Option<Seq<char>>) -> Seq<char> {
    if canvas_id is Some {
        INDEX_CANVAS_STYLE@
    } else {
        Seq::empty()
    }
}

/// The body: a fullscreen canvas with the escaped id, or an empty body.
pub open spec fn page_body(canvas_id: Option<Seq<char>>) -> Seq<char> {
    match canvas_id {
        Some(id) => INDEX_CANVAS_BODY@ + html_escaped(id) + INDEX_CANVAS_BODY_END@,
        None => INDEX_EMPTY_BODY@,
    }
}

/// The generated `index.html` of a demo page.
pub open spec fn index_html(c: TrunkDemoPageView) -> Seq<char> {
    INDEX_HEAD@ + html_escaped(c.title) + INDEX_CONFIG_META@ + html_escaped(c.demo_name)
        + INDEX_ATTRIBUTE_END@ + optional_attribute(INDEX_MODULE_ATTRIBUTE@, c.bootstrap_module)
        + optional_attribute(INDEX_EXPORT_ATTRIBUTE@, c.bootstrap_export) + INDEX_CONFIG_END@
        + copy_dir_links(c.copy_dirs) + INDEX_RUST_LINK@ + TRUNK_DEMO_LOADER_FILE_NAME@
        + INDEX_STYLE@ + canvas_style(c.canvas_id) + INDEX_HEAD_END@ + page_body(c.canvas_id)
        + INDEX_END@
}

fn push_optional_attribute(html: &mut String, opening: &str, value: &Option<String>)
    ensures
        final(html)@ == old(html)@ + optional_attribute(opening@, opt_view(*value)),
{
    match value {
        Some(v) => {
            push_str(html, opening);
            push_html_escaped(html, v.as_str());
            push_str(html, INDEX_ATTRIBUTE_END);
            assert(html@ =~= old(html)@ + optional_attribute(opening@, opt_view(*value)));
        },
        None => {
            assert(html@ =~= old(html)@ + optional_attribute(opening@, opt_view(*value)));
        },
    }
}

fn push_copy_dir_links(html: &mut String, dirs: &Vec<TrunkDemoCopyDir>)
    ensures
        final(html)@ == old(html)@ + copy_dir_links(copy_dir_views(dirs@)),
{
    let ghost views = copy_dir_views(dirs@);
    let mut i: usize = 0;
    while i < dirs.len()
        invariant
            views == copy_dir_views(dirs@),
            i <= dirs@.len(),
            html@ == old(html)@ + copy_dir_links(views.take(i as int)),
        decreases dirs@.len() - i,
    {
        let ghost before = html@;
        push_str(html, INDEX_COPY_DIR_OPEN);
        push_html_escaped(html, dirs[i].source());
        push_str(html, INDEX_COPY_DIR_TARGET);
        push_html_escaped(html, dirs[i].target());
        push_str(html, INDEX_LINK_END);
        proof {
            let t = views.take(i + 1);
            assert(t.drop_last() =~= views.take(i as int));
            assert(t.last() == dirs@[i as int]@);
            assert(html@ =~= before + copy_dir_link(t.last()));
            assert(html@ =~= old(html)@ + copy_dir_links(t));
        }
        i += 1;
    }
    proof {
        assert(views.take(dirs@.len() as int) =~= views);
    }
}

/// Renders the deterministic source index of a generated demo page, or the first
/// problem of its configuration.
pub fn render_index_html(config: &TrunkDemoPageConfig) -> (res: Result<String, TrunkConfigError>)
    ensures
        match page_error(config@) {
            Some(e) => res == Err::<String, TrunkConfigError>(e),
            None => res matches Ok(html) && html@ == index_html(config@),
        },
{
    match validate_page_config(config) {
        Err(e) => {
            return Err(e);
        },
        Ok(()) => {},
    }
    let mut html = owned(INDEX_HEAD);
    push_html_escaped(&mut html, config.title.as_str());
    push_str(&mut html, INDEX_CONFIG_META);
    push_html_escaped(&mut html, config.demo_name.as_str());
    push_str(&mut html, INDEX_ATTRIBUTE_END);
    push_optional_attribute(&mut html, INDEX_MODULE_ATTRIBUTE, &config.bootstrap_module);
    push_optional_attribute(&mut html, INDEX_EXPORT_ATTRIBUTE, &config.bootstrap_export);
    push_str(&mut html, INDEX_CONFIG_END);
    push_copy_dir_links(&mut html, &config.copy_dirs);
    push_str(&mut html, INDEX_RUST_LINK);
    push_str(&mut html, TRUNK_DEMO_LOADER_FILE_NAME);
    push_str(&mut html, INDEX_STYLE);
    let ghost before_canvas = html@;
    if config.canvas_id.is_some() {
        push_str(&mut html, INDEX_CANVAS_STYLE);
    }
    assert(html@ =~= before_canvas + canvas_style(config@.canvas_id));
    push_str(&mut html, INDEX_HEAD_END);
    let ghost before_body = html@;
    match &config.canvas_id {
        Some(id) => {
            push_str(&mut html, INDEX_CANVAS_BODY);
            push_html_escaped(&mut html, id.as_str());
            push_str(&mut html, INDEX_CANVAS_BODY_END);
        },
        None => {
            push_str(&mut html, INDEX_EMPTY_BODY);
        },
    }
    assert(html@ =~= before_body + page_body(config@.canvas_id));
    push_str(&mut html, INDEX_END);
    Ok(html)
}

/// How a Trunk demo is built: where the example and its output live, what to
/// run, and what the output must hold.
#[derive(Debug)]
pub struct TrunkDemoBuildConfig {
    pub workspace_root: String,
    pub example_dir: String,
    pub output_dir: String,
    pub example_name: String,
    pub required_marker: String,
    pub program: String,
    pub toolchain: Option<String>,
    pub require_javascript: bool,
    pub loader_destination: Option<String>,
    /// Generates `index.html` and an adjacent shared loader before Trunk runs.
    pub generated_page: Option<TrunkDemoPageConfig>,
}

impl TrunkDemoBuildConfig {
    /// A build of example `example_name` from `example_dir` into `output_dir`, both
    /// resolved against `workspace_root`, whose wasm output must hold
    /// `required_marker`; it runs `trunk` with the default toolchain, requires
    /// JavaScript output, and neither generates a page nor writes a loader.
    pub fn new(
        workspace_root: &str,
        example_dir: &str,
        output_dir: &str,
        example_name: &str,
        required_marker: &str,
    ) -> (res: Self)
        ensures
            res.workspace_root@ == workspace_root@,
            res.example_dir@ == example_dir@,
            res.output_dir@ == output_dir@,
            res.example_name@ == example_name@,
            res.required_marker@ == required_marker@,
            res.program@ == "trunk"@,
            res.toolchain is None,
            res.require_javascript,
            res.loader_destination is None,
            res.generated_page is None,
    {
        TrunkDemoBuildConfig {
            workspace_root: owned(workspace_root),
            example_dir: owned(example_dir),
            output_dir: owned(output_dir),
            example_name: owned(example_name),
            required_marker: owned(required_marker),
            program: owned("trunk"),
            toolchain: None,
            require_javascript: true,
            loader_destination: None,
            generated_page: None,
        }
    }

    /// Sets the program that runs Trunk.
    pub fn program(self, program: &str) -> (res: Self)
        ensures
            res.program@ == program@,
            res == (TrunkDemoBuildConfig { program: res.program, ..self }),
    {
        let mut res = self;
        res.program = owned(program);
        res
    }

    /// Sets the Rust toolchain Trunk builds with.
    pub fn toolchain(self, toolchain: &str) -> (res: Self)
        ensures
            opt_view(res.toolchain) == Some(toolchain@),
            res == (TrunkDemoBuildConfig { toolchain: res.toolchain, ..self }),
    {
        let mut res = self;
        res.toolchain = Some(owned(toolchain));
        res
    }

    /// Sets whether the output must hold a JavaScript file.
    pub fn require_javascript(self, require_javascript: bool) -> (res: Self)
        ensures
            res == (TrunkDemoBuildConfig { require_javascript, ..self }),
    {
        let mut res = self;
        res.require_javascript = require_javascript;
        res
    }

    /// Sets where the shared loader is written before Trunk runs.
    pub fn loader_destination(self, destination: &str) -> (res: Self)
        ensures
            opt_view(res.loader_destination) == Some(destination@),
            res == (TrunkDemoBuildConfig { loader_destination: res.loader_destination, ..self }),
    {
        let mut res = self;
        res.loader_destination = Some(owned(destination));
        res
    }

    /// Generates the demo's `index.html` and loader from `page` before Trunk runs.
    pub fn generated_page(self, page: TrunkDemoPageConfig) -> (res: Self)
        ensures
            res.generated_page matches Some(p) && p@ == page@,
            res == (TrunkDemoBuildConfig { generated_page: res.generated_page, ..self }),
    {
        let mut res = self;
        res.generated_page = Some(page);
        res
    }

    /// `path` resolved against the workspace root; an absolute path stays as it is.
    pub fn resolve(&self, path: &str) -> (res: String)
        ensures
            res@ == join_path(self.workspace_root@, path@),
    {
        join(self.workspace_root.as_str(), path)
    }

    /// The resolved example directory.
    pub fn example_dir(&self) -> (res: String)
        ensures
            res@ == join_path(self.workspace_root@, self.example_dir@),
    {
        self.resolve(self.example_dir.as_str())
    }

    /// The resolved output directory.
    pub fn output_dir(&self) -> (res: String)
        ensures
            res@ == join_path(self.workspace_root@, self.output_dir@),
    {
        self.resolve(self.output_dir.as_str())
    }
}

/// The view of an optional page configuration.
pub open spec fn page_view(p: Option<TrunkDemoPageConfig>) -> Option<TrunkDemoPageView> {
    match p {
        Some(page) => Some(page@),
        None => None,
    }
}

/// The first problem of a build configuration, checked in this order: a blank
/// example name, an empty marker, both a generated page and a loader destination,
/// then the problems of the generated page.
pub open spec fn build_config_error(c: TrunkDemoBuildConfig) -> Option<TrunkConfigError> {
    if blank(c.example_name@) {
        Some(TrunkConfigError::EmptyExampleName)
    } else if c.required_marker@.len() == 0 {
        Some(TrunkConfigError::EmptyMarker)
    } else if c.generated_page is Some && c.loader_destination is Some {
        Some(TrunkConfigError::PageAndLoaderDestination)
    } else {
        match page_view(c.generated_page) {
            Some(page) => page_error(page),
            None => None,
        }
    }
}

/// Checks a build configuration.
pub fn validate_config(config: &TrunkDemoBuildConfig) -> (res: Result<(), TrunkConfigError>)
    ensures
        match build_config_error(*config) {
            Some(e) => res == Err::<(), TrunkConfigError>(e),
            None => res is Ok,
        },
{
    if is_blank(config.example_name.as_str()) {
        return Err(TrunkConfigError::EmptyExampleName);
    }
    if config.required_marker.as_str().is_empty() {
        return Err(TrunkConfigError::EmptyMarker);
    }
    if config.generated_page.is_some() && config.loader_destination.is_some() {
        return Err(TrunkConfigError::PageAndLoaderDestination);
    }
    match &config.generated_page {
        Some(page) => validate_page_config(page),
        None => Ok(()),
    }
}

/// What is written into the example before Trunk runs.
#[derive(Debug)]
pub enum TrunkInputs {
    /// A generated `index.html` and the shared loader beside it.
    GeneratedPage { index: String, loader: String, html: String },
    /// The shared loader, written to the configured destination.
    Loader { destination: String },
    /// Nothing: the example's own `index.html` is used.
    Existing,
}

/// Decides what is written into the example of a valid configuration before Trunk
/// runs: a generated page writes its `index.html` and the loader into the example
/// directory; otherwise a loader destination, resolved against the workspace,
/// receives the loader; otherwise nothing is written.
pub fn trunk_inputs(config: &TrunkDemoBuildConfig) -> (res: TrunkInputs)
    requires
        build_config_error(*config) is None,
    ensures
        match page_view(config.generated_page) {
            Some(page) => res matches TrunkInputs::GeneratedPage { index, loader, html } && index@
                == join_path(join_path(config.workspace_root@, config.example_dir@), "index.html"@)
                && loader@ == join_path(
                join_path(config.workspace_root@, config.example_dir@),
                TRUNK_DEMO_LOADER_FILE_NAME@,
            ) && html@ == index_html(page),
            None => match opt_view(config.loader_destination) {
                Some(d) => res matches TrunkInputs::Loader { destination } && destination@
                    == join_path(config.workspace_root@, d),
                None => res is Existing,
            },
        },
{
    match &config.generated_page {
        Some(page) => {
            let example_dir = config.example_dir();
            let index = join(example_dir.as_str(), "index.html");
            let loader = join(example_dir.as_str(), TRUNK_DEMO_LOADER_FILE_NAME);
            match render_index_html(page) {
                Ok(html) => TrunkInputs::GeneratedPage { index, loader, html },
                Err(_) => TrunkInputs::Existing,
            }
        },
        None => match &config.loader_destination {
            Some(destination) => TrunkInputs::Loader { destination: config.resolve(destination.as_str()) },
            None => TrunkInputs::Existing,
        },
    }
}

/// The arguments Trunk is run with to build example `example_name` into `output_dir`.
pub open spec fn trunk_arguments(example_name: Seq<char>, output_dir: Seq<char>) -> Seq<Seq<char>> {
    seq![
        "build"@,
        "index.html"@,
        "--example"@,
        example_name,
        "--release"@,
        "--no-default-features"@,
        "--no-sri"@,
        "--public-url"@,
        "./"@,
        "--dist"@,
        output_dir,
    ]
}

/// The arguments of the Trunk run that builds the configured example into
/// `output_dir`.
pub fn trunk_build_args(config: &TrunkDemoBuildConfig, output_dir: &str) -> (res: Vec<String>)
    ensures
        crate::text::views(res@) == trunk_arguments(config.example_name@, output_dir@),
{
    let res = vec![
        owned("build"),
        owned("index.html"),
        owned("--example"),
        copy_string(&config.example_name),
        owned("--release"),
        owned("--no-default-features"),
        owned("--no-sri"),
        owned("--public-url"),
        owned("./"),
        owned("--dist"),
        owned(output_dir),
    ];
    assert(crate::text::views(res@) =~= trunk_arguments(config.example_name@, output_dir@));
    res
}

/// The message of a failed Trunk run: the example, the toolchain if one was set,
/// and the exit status.
pub open spec fn trunk_failure_text(
    example_name: Seq<char>,
    toolchain: Option<Seq<char>>,
    status: Seq<char>,
) -> Seq<char> {
    "Trunk failed for example `"@ + example_name + "`"@ + match toolchain {
        Some(t) => " with Rust toolchain `"@ + t + "`"@,
        None => Seq::empty(),
    } + " with status "@ + status
}

/// Reports a Trunk run of the configured example that ended with `status`.
pub fn trunk_failure_message(config: &TrunkDemoBuildConfig, status: &str) -> (res: String)
    ensures
        res@ == trunk_failure_text(config.example_name@, opt_view(config.toolchain), status@),
{
    let mut s = owned("Trunk failed for example `");
    push_str(&mut s, config.example_name.as_str());
    push_str(&mut s, "`");
    let ghost before = s@;
    match &config.toolchain {
        Some(t) => {
            push_str(&mut s, " with Rust toolchain `");
            push_str(&mut s, t.as_str());
            push_str(&mut s, "`");
        },
        None => {},
    }
    let ghost after = s@;
    push_str(&mut s, " with status ");
    push_str(&mut s, status);
    proof {
        let hint = match opt_view(config.toolchain) {
            Some(t) => " with Rust toolchain `"@ + t + "`"@,
            None => Seq::<char>::empty(),
        };
        assert(after =~= before + hint);
        assert(s@ =~= trunk_failure_text(config.example_name@, opt_view(config.toolchain), status@));
    }
    s
}

/// The index of the last `c` in `s`, or -1 when there is none.
pub open spec fn last_index_of(s: Seq<char>, c: char) -> int
    decreases s.len(),
{
    if s.len() == 0 {
        -1
    } else if s.last() == c {
        s.len() - 1
    } else {
        last_index_of(s.drop_last(), c)
    }
}

proof fn lemma_last_index_of(s: Seq<char>, c: char, k: int)
    requires
        0 <= k <= s.len(),
        forall|j: int| k <= j < s.len() ==> s[j] != c,
    ensures
        last_index_of(s, c) == last_index_of(s.take(k), c),
    decreases s.len() - k,
{
    if k < s.len() {
        assert(s.drop_last().take(k) =~= s.take(k));
        lemma_last_index_of(s.drop_last(), c, k);
    } else {
        assert(s.take(k) =~= s);
    }
}

/// The extension of a file name: what follows its last `.`, when that `.` is not
/// its first character; `..` has none.
pub open spec fn file_extension(name: Seq<char>) -> Option<Seq<char>> {
    let i = last_index_of(name, '.');
    if name == ".."@ || i <= 0 {
        None
    } else {
        Some(name.skip(i + 1))
    }
}

/// The extension of a file name.
pub fn extension_of(name: &str) -> (res: Option<String>)
    ensures
        opt_view(res) == file_extension(name@),
{
    if crate::text::str_eq(name, "..") {
        return None;
    }
    let chars = crate::text::chars_of(name);
    let mut k: usize = chars.len();
    while k > 0 && chars[k - 1] != '.'
        invariant
            chars@ == name@,
            k <= chars@.len(),
            forall|j: int| k <= j < chars@.len() ==> chars@[j] != '.',
        decreases k,
    {
        k -= 1;
    }
    proof {
        lemma_last_index_of(chars@, '.', k as int);
        if k > 0 {
            assert(chars@.take(k as int).last() == '.');
        } else {
            assert(chars@.take(0) =~= Seq::<char>::empty());
        }
    }
    if k <= 1 {
        return None;
    }
    let ext = crate::text::string_from_range(&chars, k, chars.len());
    assert(ext@ =~= name@.skip(k as int));
    Some(ext)
}

/// What a file in Trunk's output is, by its extension.
#[derive(Debug, Clone, Copy, PartialEq, Eq, Structural)]
pub enum OutputFileKind {
    JavaScript,
    Wasm,
    Other,
}

/// The kind of a file with this name: `js` files are JavaScript, `wasm` files are
/// WebAssembly.
pub open spec fn kind_of(name: Seq<char>) -> OutputFileKind {
    match file_extension(name) {
        Some(ext) => if ext == "js"@ {
            OutputFileKind::JavaScript
        } else if ext == "wasm"@ {
            OutputFileKind::Wasm
        } else {
            OutputFileKind::Other
        },
        None => OutputFileKind::Other,
    }
}

/// The kind of a file in Trunk's output.
pub fn output_file_kind(name: &str) -> (res: OutputFileKind)
    ensures
        res == kind_of(name@),
{
    match extension_of(name) {
        Some(ext) => {
            if crate::text::str_eq(ext.as_str(), "js") {
                OutputFileKind::JavaScript
            } else if crate::text::str_eq(ext.as_str(), "wasm") {
                OutputFileKind::Wasm
            } else {
                OutputFileKind::Other
            }
        },
        None => OutputFileKind::Other,
    }
}

/// A regular file found in Trunk's output directory: its name, and its bytes when
/// it is a wasm file (the bytes of other files are not read).
#[derive(Debug)]
pub struct OutputFile {
    pub name: String,
    pub contents: Vec<u8>,
}

/// Whether `needle` occurs in `haystack` as a contiguous run.
pub open spec fn contains_run(haystack: Seq<u8>, needle: Seq<u8>) -> bool {
    exists|i: int|
        0 <= i <= haystack.len() - needle.len() && #[trigger] haystack.subrange(i, i + needle.len())
            == needle
}

/// Whether `needle` occurs in `haystack`.
pub fn find_bytes(haystack: &[u8], needle: &[u8]) -> (res: bool)
    ensures
        res == contains_run(haystack@, needle@),
{
    if needle.len() > haystack.len() {
        return false;
    }
    if needle.len() == 0 {
        proof {
            assert(haystack@.subrange(0int, 0int + needle@.len()) =~= needle@);
        }
        return true;
    }
    let hl: usize = haystack.len();
    let limit: usize = hl - needle.len();
    let mut i: usize = 0;
    while i <= limit
        invariant
            hl == haystack@.len(),
            needle@.len() > 0,
            limit == haystack@.len() - needle@.len(),
            needle@.len() <= haystack@.len(),
            i <= limit + 1,
            forall|j: int| 0 <= j < i ==> #[trigger] haystack@.subrange(j, j + needle@.len()) != needle@,
        decreases limit + 1 - i,
    {
        let mut k: usize = 0;
        let mut same = true;
        while k < needle.len()
            invariant
                hl == haystack@.len(),
                i <= limit,
                limit == haystack@.len() - needle@.len(),
                needle@.len() <= haystack@.len(),
                k <= needle@.len(),
                same <==> forall|x: int| 0 <= x < k ==> haystack@[i + x] == needle@[x],
            decreases needle@.len() - k,
        {
            if haystack[i + k] != needle[k] {
                same = false;
            }
            k += 1;
        }
        if same {
            proof {
                assert(haystack@.subrange(i as int, i + needle@.len()) =~= needle@);
            }
            return true;
        }
        proof {
            let x = choose|x: int| 0 <= x < needle@.len() && haystack@[i + x] != needle@[x];
            assert(haystack@.subrange(i as int, i + needle@.len())[x] != needle@[x]);
        }
        i += 1;
    }
    false
}

/// What is missing from Trunk's output.
#[derive(Debug, Clone, Copy, PartialEq, Eq, Structural)]
pub enum TrunkOutputProblem {
    MissingIndex,
    MissingJavascript,
    MissingWasm,
    MissingMarker,
}

/// Trunk's output lacks something the build requires.
#[derive(Debug)]
pub struct TrunkOutputError {
    pub problem: TrunkOutputProblem,
    pub message: String,
}

/// Whether some file of the output has this kind.
pub open spec fn has_kind(files: Seq<OutputFile>, kind: OutputFileKind) -> bool {
    exists|i: int| 0 <= i < files.len() && kind_of(#[trigger] files[i].name@) == kind
}

/// Whether some wasm file of the output holds the marker.
pub open spec fn has_marked_wasm(files: Seq<OutputFile>, marker: Seq<u8>) -> bool {
    exists|i: int|
        0 <= i < files.len() && kind_of(#[trigger] files[i].name@) == OutputFileKind::Wasm
            && contains_run(files[i].contents@, marker)
}

/// The first thing missing from the output, checked in this order: the index, a
/// JavaScript file when one is required, a wasm file, the marker in a wasm file.
pub open spec fn output_problem(
    require_javascript: bool,
    marker: Seq<u8>,
    index_is_file: bool,
    files: Seq<OutputFile>,
) -> Option<TrunkOutputProblem> {
    if !index_is_file {
        Some(TrunkOutputProblem::MissingIndex)
    } else if require_javascript && !has_kind(files, OutputFileKind::JavaScript) {
        Some(TrunkOutputProblem::MissingJavascript)
    } else if !has_kind(files, OutputFileKind::Wasm) {
        Some(TrunkOutputProblem::MissingWasm)
    } else if !has_marked_wasm(files, marker) {
        Some(TrunkOutputProblem::MissingMarker)
    } else {
        None
    }
}

/// The message that reports a problem of the output in `output_dir`.
pub open spec fn output_error_text(
    problem: TrunkOutputProblem,
    output_dir: Seq<char>,
    marker: Seq<char>,
) -> Seq<char> {
    match problem {
        TrunkOutputProblem::MissingIndex => "missing Trunk demo HTML output at "@ + join_path(
            output_dir,
            "index.html"@,
        ),
        TrunkOutputProblem::MissingJavascript => "missing Trunk demo JavaScript output in "@
            + output_dir,
        TrunkOutputProblem::MissingWasm => "missing Trunk demo wasm output in "@ + output_dir,
        TrunkOutputProblem::MissingMarker => "Trunk demo wasm output in "@ + output_dir
            + " is missing marker `"@ + marker + "`"@,
    }
}

fn output_error(problem: TrunkOutputProblem, output_dir: &str, marker: &str) -> (res:
    TrunkOutputError)
    ensures
        res.problem == problem,
        res.message@ == output_error_text(problem, output_dir@, marker@),
{
    let message = match problem {
        TrunkOutputProblem::MissingIndex => {
            let index = join(output_dir, "index.html");
            crate::text::concat("missing Trunk demo HTML output at ", index.as_str())
        },
        TrunkOutputProblem::MissingJavascript => crate::text::concat(
            "missing Trunk demo JavaScript output in ",
            output_dir,
        ),
        TrunkOutputProblem::MissingWasm => crate::text::concat(
            "missing Trunk demo wasm output in ",
            output_dir,
        ),
        TrunkOutputProblem::MissingMarker => {
            let mut s = crate::text::concat("Trunk demo wasm output in ", output_dir);
            push_str(&mut s, " is missing marker `");
            push_str(&mut s, marker);
            push_str(&mut s, "`");
            s
        },
    };
    TrunkOutputError { problem, message }
}

/// Checks what Trunk wrote to `output_dir`: whether its `index.html` is a file, and
/// the regular files found there.
pub fn verify_output(
    config: &TrunkDemoBuildConfig,
    output_dir: &str,
    index_is_file: bool,
    files: &[OutputFile],
) -> (res: Result<(), TrunkOutputError>)
    requires
        config.required_marker@.len() > 0,
    ensures
        match output_problem(
            config.require_javascript,
            encode_utf8(config.required_marker@),
            index_is_file,
            files@,
        ) {
            Some(p) => res matches Err(e) && e.problem == p && e.message@ == output_error_text(
                p,
                output_dir@,
                config.required_marker@,
            ),
            None => res is Ok,
        },
{
    let marker_str = config.required_marker.as_str();
    if !index_is_file {
        return Err(output_error(TrunkOutputProblem::MissingIndex, output_dir, marker_str));
    }
    let marker = marker_str.as_bytes();
    let mut has_javascript = false;
    let mut has_wasm = false;
    let mut has_marker = false;
    let mut i: usize = 0;
    while i < files.len()
        invariant
            i <= files@.len(),
            marker@ == encode_utf8(config.required_marker@),
            has_javascript <==> exists|j: int|
                0 <= j < i && kind_of(#[trigger] files@[j].name@) == OutputFileKind::JavaScript,
            has_wasm <==> exists|j: int|
                0 <= j < i && kind_of(#[trigger] files@[j].name@) == OutputFileKind::Wasm,
            has_marker <==> exists|j: int|
                0 <= j < i && kind_of(#[trigger] files@[j].name@) == OutputFileKind::Wasm
                    && contains_run(files@[j].contents@, marker@),
        decreases files@.len() - i,
    {
        let kind = output_file_kind(files[i].name.as_str());
        match kind {
            OutputFileKind::JavaScript => {
                has_javascript = true;
            },
            OutputFileKind::Wasm => {
                has_wasm = true;
                if find_bytes(files[i].contents.as_slice(), marker) {
                    has_marker = true;
                }
            },
            OutputFileKind::Other => {},
        }
        i += 1;
    }
    if config.require_javascript && !has_javascript {
        return Err(output_error(TrunkOutputProblem::MissingJavascript, output_dir, marker_str));
    }
    if !has_wasm {
        return Err(output_error(TrunkOutputProblem::MissingWasm, output_dir, marker_str));
    }
    if !has_marker {
        return Err(output_error(TrunkOutputProblem::MissingMarker, output_dir, marker_str));
    }
    Ok(())
}

} // verus!
