//! Release planning for a workspace: publish options, `cargo publish` command
//! lines and the dependency order in which packages are published.
use vstd::prelude::*;

use crate::presentation::decimal;
use crate::text::{
    contains_text, copy_string, is_blank, join_strings, joined, lemma_views_push, owned, push_char, push_str, str_eq,
    trim_ws, views,
};
use vstd::std_specs::cmp::PartialEqSpecImpl;

verus! {

/// The name of a workspace package.
#[derive(Debug)]
pub struct PackageName(String);

impl View for PackageName {
    type V = Seq<char>;

    closed spec fn view(&self) -> Seq<char> {
        self.0@
    }
}

impl Clone for PackageName {
    fn clone(&self) -> (res: Self)
        ensures
            res@ == self@,
    {
        PackageName(copy_string(&self.0))
    }
}

impl PartialEq for PackageName {
    fn eq(&self, other: &Self) -> (res: bool) {
        self.0 == other.0
    }
}

impl PartialEqSpecImpl for PackageName {
    open spec fn obeys_eq_spec() -> bool {
        true
    }

    open spec fn eq_spec(&self, other: &Self) -> bool {
        self@ == other@
    }
}

impl Eq for PackageName {}

/// Why a release request is refused.
#[derive(Debug, PartialEq, Eq)]
pub enum ReleaseError {
    /// A package name given for `label` is empty or whitespace.
    EmptyPackageName { label: String },
    /// A registry name is empty or whitespace.
    EmptyRegistryName,
    /// The resume point names no package of the release; `expected` lists them.
    UnknownResumePoint { package: String, expected: Vec<String> },
    /// Some packages wait on one another; each entry names a package and what it waits on.
    DependencyCycle { blocked: Vec<BlockedPackage> },
}

/// A package that cannot be released and the packages it still waits on.
#[derive(Debug, PartialEq, Eq)]
pub struct BlockedPackage {
    pub name: String,
    pub waits_on: Vec<String>,
}

impl PackageName {
    /// A package name taken as it comes from workspace metadata.
    pub fn from_metadata(name: &str) -> (res: Self)
        ensures
            res@ == name@,
    {
        PackageName(owned(name))
    }

    /// A package name given by a user for the purpose `label`; refused when blank.
    pub fn parse(value: &str, label: &str) -> (res: Result<Self, ReleaseError>)
        ensures
            trim_ws(value@).len() == 0 <==> res is Err,
            res matches Ok(name) ==> name@ == value@,
            res matches Err(e) ==> e matches ReleaseError::EmptyPackageName { label: l } && l@
                == label@,
    {
        if is_blank(value) {
            return Err(ReleaseError::EmptyPackageName { label: owned(label) });
        }
        Ok(PackageName(owned(value)))
    }

    pub fn as_str(&self) -> (res: &str)
        ensures
            res@ == self@,
    {
        self.0.as_str()
    }
}

/// The name of a package registry.
#[derive(Debug)]
pub struct RegistryName(String);

impl View for RegistryName {
    type V = Seq<char>;

    closed spec fn view(&self) -> Seq<char> {
        self.0@
    }
}

impl Clone for RegistryName {
    fn clone(&self) -> (res: Self)
        ensures
            res@ == self@,
    {
        RegistryName(copy_string(&self.0))
    }
}

impl PartialEq for RegistryName {
    fn eq(&self, other: &Self) -> (res: bool) {
        self.0 == other.0
    }
}

impl PartialEqSpecImpl for RegistryName {
    open spec fn obeys_eq_spec() -> bool {
        true
    }

    open spec fn eq_spec(&self, other: &Self) -> bool {
        self@ == other@
    }
}

impl Eq for RegistryName {}

impl RegistryName {
    /// A registry name given by a user; refused when blank.
    pub fn parse(value: &str) -> (res: Result<Self, ReleaseError>)
        ensures
            trim_ws(value@).len() == 0 <==> res is Err,
            res matches Ok(name) ==> name@ == value@,
            res matches Err(e) ==> e == ReleaseError::EmptyRegistryName,
    {
        if is_blank(value) {
            return Err(ReleaseError::EmptyRegistryName);
        }
        Ok(RegistryName(owned(value)))
    }

    pub fn as_str(&self) -> (res: &str)
        ensures
            res@ == self@,
    {
        self.0.as_str()
    }
}

/// The package from which an interrupted release resumes.
#[derive(Debug, PartialEq, Eq)]
pub struct ReleaseResumePoint(PackageName);

impl View for ReleaseResumePoint {
    type V = Seq<char>;

    closed spec fn view(&self) -> Seq<char> {
        self.0@
    }
}

impl Clone for ReleaseResumePoint {
    fn clone(&self) -> (res: Self)
        ensures
            res@ == self@,
    {
        ReleaseResumePoint(self.0.clone())
    }
}

/// The label under which a blank resume point is reported.
pub open spec fn resume_label() -> Seq<char> {
    "release resume"@
}

impl ReleaseResumePoint {
    /// A resume point naming `value`; refused when blank.
    pub fn parse(value: &str) -> (res: Result<Self, ReleaseError>)
        ensures
            trim_ws(value@).len() == 0 <==> res is Err,
            res matches Ok(point) ==> point@ == value@,
            res matches Err(e) ==> e matches ReleaseError::EmptyPackageName { label: l } && l@
                == resume_label(),
    {
        match PackageName::parse(value, "release resume") {
            Ok(name) => Ok(ReleaseResumePoint(name)),
            Err(e) => Err(e),
        }
    }

    pub fn package_name(&self) -> (res: &PackageName)
        ensures
            res@ == self@,
    {
        &self.0
    }
}

/// How a release is published.
#[derive(Debug)]
pub struct PublishOptions {
    pub execute: bool,
    pub from: Option<ReleaseResumePoint>,
    pub registry: Option<RegistryName>,
    pub allow_dirty: bool,
    pub skip_verify: bool,
    pub include_dev_deps: bool,
    pub skip_existing: bool,
    pub retries: u32,
    pub retry_delay_seconds: u64,
}

/// Whether two optional values that have views hold equal views.
pub open spec fn same_view<T: View>(a: Option<T>, b: Option<T>) -> bool {
    match (a, b) {
        (Some(x), Some(y)) => x@ == y@,
        (None, None) => true,
        _ => false,
    }
}

impl Clone for PublishOptions {
    fn clone(&self) -> (res: Self)
        ensures
            res.execute == self.execute,
            same_view(res.from, self.from),
            same_view(res.registry, self.registry),
            res.allow_dirty == self.allow_dirty,
            res.skip_verify == self.skip_verify,
            res.include_dev_deps == self.include_dev_deps,
            res.skip_existing == self.skip_existing,
            res.retries == self.retries,
            res.retry_delay_seconds == self.retry_delay_seconds,
    {
        let from = match &self.from {
            Some(point) => Some(point.clone()),
            None => None,
        };
        let registry = match &self.registry {
            Some(name) => Some(name.clone()),
            None => None,
        };
        PublishOptions {
            execute: self.execute,
            from,
            registry,
            allow_dirty: self.allow_dirty,
            skip_verify: self.skip_verify,
            include_dev_deps: self.include_dev_deps,
            skip_existing: self.skip_existing,
            retries: self.retries,
            retry_delay_seconds: self.retry_delay_seconds,
        }
    }
}

impl PublishOptions {
    /// Options with every flag off, no resume point or registry, three retries and a
    /// twenty-second retry delay.
    pub fn new(execute: bool) -> (res: Self)
        ensures
            res.execute == execute,
            res.from is None,
            res.registry is None,
            !res.allow_dirty,
            !res.skip_verify,
            !res.include_dev_deps,
            !res.skip_existing,
            res.retries == 3,
            res.retry_delay_seconds == 20,
    {
        PublishOptions {
            execute,
            from: None,
            registry: None,
            allow_dirty: false,
            skip_verify: false,
            include_dev_deps: false,
            skip_existing: false,
            retries: 3,
            retry_delay_seconds: 20,
        }
    }

    /// Sets the resume point; a blank package name is refused.
    pub fn resume_from(self, from: Option<String>) -> (res: Result<Self, ReleaseError>)
        ensures
            (from matches Some(f) && trim_ws(f@).len() == 0) <==> res is Err,
            res matches Err(e) ==> e matches ReleaseError::EmptyPackageName { label: l } && l@
                == resume_label(),
            res matches Ok(o) ==> {
                &&& o.execute == self.execute
                &&& o.registry == self.registry
                &&& o.allow_dirty == self.allow_dirty
                &&& o.skip_verify == self.skip_verify
                &&& o.include_dev_deps == self.include_dev_deps
                &&& o.skip_existing == self.skip_existing
                &&& o.retries == self.retries
                &&& o.retry_delay_seconds == self.retry_delay_seconds
                &&& match from {
                    Some(f) => o.from matches Some(p) && p@ == f@,
                    None => o.from is None,
                }
            },
    {
        let mut options = self;
        match from {
            Some(f) => {
                match ReleaseResumePoint::parse(f.as_str()) {
                    Ok(point) => {
                        options.from = Some(point);
                    },
                    Err(e) => {
                        return Err(e);
                    },
                }
            },
            None => {
                options.from = None;
            },
        }
        Ok(options)
    }

    /// Sets the registry; a blank registry name is refused.
    pub fn registry(self, registry: Option<String>) -> (res: Result<Self, ReleaseError>)
        ensures
            (registry matches Some(r) && trim_ws(r@).len() == 0) <==> res is Err,
            res matches Err(e) ==> e == ReleaseError::EmptyRegistryName,
            res matches Ok(o) ==> {
                &&& o.execute == self.execute
                &&& o.from == self.from
                &&& o.allow_dirty == self.allow_dirty
                &&& o.skip_verify == self.skip_verify
                &&& o.include_dev_deps == self.include_dev_deps
                &&& o.skip_existing == self.skip_existing
                &&& o.retries == self.retries
                &&& o.retry_delay_seconds == self.retry_delay_seconds
                &&& match registry {
                    Some(r) => o.registry matches Some(n) && n@ == r@,
                    None => o.registry is None,
                }
            },
    {
        let mut options = self;
        match registry {
            Some(r) => {
                match RegistryName::parse(r.as_str()) {
                    Ok(name) => {
                        options.registry = Some(name);
                    },
                    Err(e) => {
                        return Err(e);
                    },
                }
            },
            None => {
                options.registry = None;
            },
        }
        Ok(options)
    }

    pub fn allow_dirty(self, allow_dirty: bool) -> (res: Self)
        ensures
            res == (PublishOptions { allow_dirty, ..self }),
    {
        PublishOptions { allow_dirty, ..self }
    }

    pub fn skip_verify(self, skip_verify: bool) -> (res: Self)
        ensures
            res == (PublishOptions { skip_verify, ..self }),
    {
        PublishOptions { skip_verify, ..self }
    }

    pub fn include_dev_deps(self, include_dev_deps: bool) -> (res: Self)
        ensures
            res == (PublishOptions { include_dev_deps, ..self }),
    {
        PublishOptions { include_dev_deps, ..self }
    }

    pub fn skip_existing(self, skip_existing: bool) -> (res: Self)
        ensures
            res == (PublishOptions { skip_existing, ..self }),
    {
        PublishOptions { skip_existing, ..self }
    }

    pub fn retries(self, retries: u32) -> (res: Self)
        ensures
            res == (PublishOptions { retries, ..self }),
    {
        PublishOptions { retries, ..self }
    }

    pub fn retry_delay_seconds(self, retry_delay_seconds: u64) -> (res: Self)
        ensures
            res == (PublishOptions { retry_delay_seconds, ..self }),
    {
        PublishOptions { retry_delay_seconds, ..self }
    }
}

/// A package of the release and the version it publishes.
#[derive(Debug)]
pub struct ReleasePackage {
    pub name: PackageName,
    pub version: String,
}

impl ReleasePackage {
    pub fn new(name: &str, version: &str) -> (res: Self)
        ensures
            res.name@ == name@,
            res.version@ == version@,
    {
        ReleasePackage { name: PackageName::from_metadata(name), version: owned(version) }
    }
}

/// Whether `cargo publish` runs with `--allow-dirty`: when asked for, and always under
/// cargo-hack, whose temporary manifest edits dirty the worktree.
pub open spec fn needs_allow_dirty(options: PublishOptions) -> bool {
    options.allow_dirty || !options.include_dev_deps
}

/// Whether the tracked worktree must be clean before each publish attempt: under
/// cargo-hack unless dirty publishing was asked for.
pub open spec fn needs_clean_worktree(options: PublishOptions) -> bool {
    !options.allow_dirty && !options.include_dev_deps
}

pub fn cargo_publish_needs_allow_dirty(options: &PublishOptions) -> (res: bool)
    ensures
        res == needs_allow_dirty(*options),
{
    options.allow_dirty || !options.include_dev_deps
}

pub fn requires_clean_worktree_guard(options: &PublishOptions) -> (res: bool)
    ensures
        res == needs_clean_worktree(*options),
{
    !options.allow_dirty && !options.include_dev_deps
}

/// The arguments of the publish command for the package `name`.
pub open spec fn publish_args(name: Seq<char>, options: PublishOptions) -> Seq<Seq<char>> {
    let base = if options.include_dev_deps {
        seq!["publish"@, "-p"@, name]
    } else {
        seq!["hack"@, "--no-dev-deps"@, "publish"@, "-p"@, name]
    };
    let with_registry = match options.registry {
        Some(r) => base + seq!["--registry"@, r@],
        None => base,
    };
    let with_dirty = if needs_allow_dirty(options) {
        with_registry.push("--allow-dirty"@)
    } else {
        with_registry
    };
    if options.skip_verify {
        with_dirty.push("--no-verify"@)
    } else {
        with_dirty
    }
}

/// Whenever a registry is chosen, the publish arguments name it right after
/// `--registry`, in the plain and in the cargo-hack form alike; they also always
/// name the package right after `-p`.
pub proof fn law_publish_args_name_registry_and_package(name: Seq<char>, options: PublishOptions)
    ensures
        options.registry matches Some(r) ==> exists|i: int|
            0 <= i && i + 1 < publish_args(name, options).len()
                && #[trigger] publish_args(name, options)[i] == "--registry"@
                && publish_args(name, options)[i + 1] == r@,
        exists|i: int|
            0 <= i && i + 1 < publish_args(name, options).len()
                && #[trigger] publish_args(name, options)[i] == "-p"@
                && publish_args(name, options)[i + 1] == name,
{
    let args = publish_args(name, options);
    let base = if options.include_dev_deps {
        seq!["publish"@, "-p"@, name]
    } else {
        seq!["hack"@, "--no-dev-deps"@, "publish"@, "-p"@, name]
    };
    let p = base.len() - 2;
    assert(base[p] == "-p"@ && base[p + 1] == name);
    let with_registry = if options.registry is Some {
        base + seq!["--registry"@, options.registry->0@]
    } else {
        base
    };
    assert(with_registry[p] == "-p"@ && with_registry[p + 1] == name);
    let with_dirty = if needs_allow_dirty(options) {
        with_registry.push("--allow-dirty"@)
    } else {
        with_registry
    };
    assert(with_dirty[p] == "-p"@ && with_dirty[p + 1] == name);
    assert(args[p] == "-p"@ && args[p + 1] == name);
    match options.registry {
        Some(r) => {
            let i = base.len() as int;
            assert(with_registry[i] == "--registry"@ && with_registry[i + 1] == r@);
            assert(with_dirty[i] == "--registry"@ && with_dirty[i + 1] == r@);
            assert(args[i] == "--registry"@ && args[i + 1] == r@);
        },
        None => {},
    }
}

/// A `cargo publish` invocation: the program and its arguments.
#[derive(Debug, PartialEq, Eq)]
pub struct CargoPublishCommand {
    program: String,
    args: Vec<String>,
}

impl CargoPublishCommand {
    /// The spec view: the program followed by its arguments.
    pub closed spec fn argv_view(&self) -> Seq<Seq<char>> {
        seq![self.program@] + views(self.args@)
    }

    pub closed spec fn program_view(&self) -> Seq<char> {
        self.program@
    }

    pub closed spec fn args_view(&self) -> Seq<Seq<char>> {
        views(self.args@)
    }

    /// The command line is the program followed by its arguments.
    pub proof fn lemma_argv_view(&self)
        ensures
            self.argv_view() == seq![self.program_view()] + self.args_view(),
    {
    }

    /// The command that publishes `package` under `options`: `cargo` with
    /// [`publish_args`].
    pub fn new(package: &ReleasePackage, options: &PublishOptions) -> (res: Self)
        ensures
            res.program_view() == "cargo"@,
            res.args_view() == publish_args(package.name@, *options),
            res.argv_view() == seq!["cargo"@] + publish_args(package.name@, *options),
    {
        let ghost name = package.name@;
        let mut args: Vec<String> = Vec::new();
        if options.include_dev_deps {
            args.push(owned("publish"));
            args.push(owned("-p"));
            args.push(owned(package.name.as_str()));
            assert(views(args@) =~= seq!["publish"@, "-p"@, name]);
        } else {
            args.push(owned("hack"));
            args.push(owned("--no-dev-deps"));
            args.push(owned("publish"));
            args.push(owned("-p"));
            args.push(owned(package.name.as_str()));
            assert(views(args@) =~= seq!["hack"@, "--no-dev-deps"@, "publish"@, "-p"@, name]);
        }
        let ghost base = views(args@);
        match &options.registry {
            Some(registry) => {
                args.push(owned("--registry"));
                args.push(owned(registry.as_str()));
                assert(views(args@) =~= base + seq!["--registry"@, registry@]);
            },
            None => {},
        }
        if cargo_publish_needs_allow_dirty(options) {
            let ghost before = args@;
            args.push(owned("--allow-dirty"));
            proof {
                lemma_views_push(before, args@.last());
            }
        }
        if options.skip_verify {
            let ghost before = args@;
            args.push(owned("--no-verify"));
            proof {
                lemma_views_push(before, args@.last());
            }
        }
        let res = CargoPublishCommand { program: owned("cargo"), args };
        assert(res.argv_view() == seq![res.program@] + views(res.args@));
        res
    }

    pub fn program(&self) -> (res: &str)
        ensures
            res@ == self.program_view(),
    {
        self.program.as_str()
    }

    pub fn args(&self) -> (res: &[String])
        ensures
            views(res@) == self.args_view(),
    {
        self.args.as_slice()
    }

    /// The program followed by its arguments.
    pub fn argv(&self) -> (res: Vec<String>)
        ensures
            views(res@) == self.argv_view(),
            views(res@) == seq![self.program_view()] + self.args_view(),
    {
        let mut argv: Vec<String> = Vec::new();
        argv.push(copy_string(&self.program));
        let mut i: usize = 0;
        while i < self.args.len()
            invariant
                i <= self.args@.len(),
                views(argv@) == seq![self.program@] + views(self.args@).take(i as int),
            decreases self.args@.len() - i,
        {
            let ghost before = argv@;
            argv.push(copy_string(&self.args[i]));
            proof {
                lemma_views_push(before, argv@.last());
                assert(views(self.args@).take(i + 1) == views(self.args@).take(i as int).push(
                    self.args@[i as int]@,
                ));
            }
            i += 1;
        }
        proof {
            assert(views(self.args@).take(self.args@.len() as int) == views(self.args@));
        }
        argv
    }

    /// The command line as shown to a reader: the argv joined by spaces.
    pub fn display(&self) -> (res: String)
        ensures
            res@ == joined(self.argv_view(), seq![' ']),
            res@ == joined(seq![self.program_view()] + self.args_view(), seq![' ']),
    {
        let argv = self.argv();
        let res = join_strings(&argv, " ");
        proof {
            reveal_strlit(" ");
            assert(" "@ =~= seq![' ']);
        }
        res
    }
}

/// The message of a publish that failed on its last allowed attempt, attempt
/// number `attempt` counted from zero: the command line, the number of attempts
/// made, and the exit status.
pub open spec fn give_up_text(command_line: Seq<char>, attempt: nat, status: Seq<char>) -> Seq<char> {
    command_line + " failed after "@ + decimal(attempt + 1) + " attempt(s) with status "@ + status
}

/// Reports a publish command that failed on attempt `attempt` (counted from zero)
/// with exit status `status`.
pub fn publish_give_up_message(command: &CargoPublishCommand, attempt: u32, status: &str) -> (res:
    String)
    ensures
        res@ == give_up_text(
            joined(seq![command.program_view()] + command.args_view(), seq![' ']),
            attempt as nat,
            status@,
        ),
{
    let mut s = command.display();
    push_str(&mut s, " failed after ");
    crate::presentation::push_decimal(&mut s, attempt as u64 + 1);
    push_str(&mut s, " attempt(s) with status ");
    push_str(&mut s, status);
    s
}

pub fn cargo_publish_command(package: &ReleasePackage, options: &PublishOptions) -> (res:
    CargoPublishCommand)
    ensures
        res.program_view() == "cargo"@,
        res.args_view() == publish_args(package.name@, *options),
        res.argv_view() == seq!["cargo"@] + publish_args(package.name@, *options),
{
    CargoPublishCommand::new(package, options)
}

/// The kind of a package dependency.
#[derive(Debug, Clone, Copy, PartialEq, Eq, Structural)]
pub enum DependencyKind {
    Normal,
    Development,
    Build,
}

/// One dependency of a workspace package, as workspace metadata lists it.
#[derive(Debug)]
pub struct WorkspaceDependency {
    pub name: String,
    pub kind: DependencyKind,
}

/// A package as workspace metadata lists it.
#[derive(Debug)]
pub struct WorkspacePackage {
    pub id: String,
    pub name: String,
    pub version: String,
    /// The registries the package may be published to; `None` means any.
    pub publish: Option<Vec<String>>,
    pub dependencies: Vec<WorkspaceDependency>,
}

/// The part of workspace metadata that release planning reads.
#[derive(Debug)]
pub struct WorkspaceMetadata {
    pub packages: Vec<WorkspacePackage>,
    pub workspace_members: Vec<String>,
}

/// No two members of `s` are equal.
pub open spec fn distinct_views(s: Seq<Seq<char>>) -> bool {
    forall|i: int, j: int| 0 <= i < j < s.len() ==> s[i] != s[j]
}

impl WorkspaceMetadata {
    /// Workspace member ids are distinct, as workspace metadata guarantees.
    pub open spec fn wf(&self) -> bool {
        &&& distinct_views(views(self.workspace_members@))
    }

    /// Whether workspace member ids are distinct.
    pub fn is_well_formed(&self) -> (res: bool)
        ensures
            res == self.wf(),
    {
        let mut m: usize = 0;
        while m < self.workspace_members.len()
            invariant
                m <= self.workspace_members@.len(),
                forall|a: int, b: int|
                    0 <= a < b < self.workspace_members@.len() && a < m
                        ==> self.workspace_members@[a]@ != self.workspace_members@[b]@,
            decreases self.workspace_members@.len() - m,
        {
            let mut k: usize = m + 1;
            while k < self.workspace_members.len()
                invariant
                    m < self.workspace_members@.len(),
                    m + 1 <= k <= self.workspace_members@.len(),
                    forall|b: int|
                        m < b < k ==> self.workspace_members@[m as int]@ != self.workspace_members@[b]@,
                decreases self.workspace_members@.len() - k,
            {
                if str_eq(self.workspace_members[m].as_str(), self.workspace_members[k].as_str()) {
                    proof {
                        assert(views(self.workspace_members@)[m as int] == views(self.workspace_members@)[k as int]);
                    }
                    return false;
                }
                k += 1;
            }
            m += 1;
        }
        true
    }
}

/// Whether a package may be published: it names no registry list, or a non-empty one.
pub open spec fn is_publishable(package: WorkspacePackage) -> bool {
    match package.publish {
        None => true,
        Some(registries) => registries@.len() > 0,
    }
}

/// The index of the package with id `id`, if any; when several share it, the last.
pub open spec fn package_index(packages: Seq<WorkspacePackage>, id: Seq<char>) -> Option<int>
    decreases packages.len(),
{
    if packages.len() == 0 {
        None
    } else if packages.last().id@ == id {
        Some(packages.len() - 1)
    } else {
        package_index(packages.drop_last(), id)
    }
}

/// The publishable workspace members, in workspace order, as indices into `packages`.
pub open spec fn publishable_indices(packages: Seq<WorkspacePackage>, members: Seq<Seq<char>>) -> Seq<
    int,
>
    decreases members.len(),
{
    if members.len() == 0 {
        Seq::empty()
    } else {
        let prev = publishable_indices(packages, members.drop_last());
        match package_index(packages, members.last()) {
            Some(k) => if is_publishable(packages[k]) {
                prev.push(k)
            } else {
                prev
            },
            None => prev,
        }
    }
}

/// The last position in `names` that holds `name`, if any.
pub open spec fn last_index_of(names: Seq<Seq<char>>, name: Seq<char>) -> Option<int>
    decreases names.len(),
{
    if names.len() == 0 {
        None
    } else if names.last() == name {
        Some(names.len() - 1)
    } else {
        last_index_of(names.drop_last(), name)
    }
}

/// The release positions that the dependencies `deps` resolve to: each non-development
/// dependency named like a publishable package resolves to the last such package.
pub open spec fn resolved_deps(deps: Seq<WorkspaceDependency>, names: Seq<Seq<char>>) -> Seq<int>
    decreases deps.len(),
{
    if deps.len() == 0 {
        Seq::empty()
    } else {
        let prev = resolved_deps(deps.drop_last(), names);
        let d = deps.last();
        if d.kind == DependencyKind::Development {
            prev
        } else {
            match last_index_of(names, d.name@) {
                Some(j) => prev.push(j),
                None => prev,
            }
        }
    }
}

/// The release graph of a workspace: the publishable packages in workspace order and,
/// for each, the positions of the publishable packages it depends on.
pub struct ReleaseGraph {
    pub packages: Seq<WorkspacePackage>,
    pub deps: Seq<Seq<int>>,
}

/// The release graph that workspace metadata describes.
pub open spec fn release_graph(metadata: WorkspaceMetadata) -> ReleaseGraph {
    let order = publishable_indices(metadata.packages@, views(metadata.workspace_members@));
    let packages = order.map_values(|k: int| metadata.packages@[k]);
    let names = packages.map_values(|p: WorkspacePackage| p.name@);
    ReleaseGraph {
        packages,
        deps: packages.map_values(|p: WorkspacePackage| resolved_deps(p.dependencies@, names)),
    }
}

/// Package `i` may be released once `done` has been: it is not yet released and every
/// package it depends on is.
pub open spec fn eligible(deps: Seq<Seq<int>>, done: Seq<int>, i: int) -> bool {
    &&& 0 <= i < deps.len()
    &&& !done.contains(i)
    &&& forall|m: int| 0 <= m < deps[i].len() ==> done.contains(#[trigger] deps[i][m])
}

/// The least package eligible after `done`, if any.
pub open spec fn next_release(deps: Seq<Seq<int>>, done: Seq<int>) -> Option<int> {
    if exists|i: int| eligible(deps, done, i) {
        Some(choose|i: int| eligible(deps, done, i) && forall|j: int| 0 <= j < i ==> !eligible(deps, done, j))
    } else {
        None
    }
}

/// The first `k` steps of the release order: each step releases the least eligible
/// package, and the order stops early when none is eligible.
pub open spec fn release_sequence(deps: Seq<Seq<int>>, k: nat) -> Seq<int>
    decreases k,
{
    if k == 0 {
        Seq::empty()
    } else {
        let prev = release_sequence(deps, (k - 1) as nat);
        match next_release(deps, prev) {
            Some(i) => prev.push(i),
            None => prev,
        }
    }
}

/// The full release order of a graph with `deps.len()` packages.
pub open spec fn release_order_of(deps: Seq<Seq<int>>) -> Seq<int> {
    release_sequence(deps, deps.len())
}

/// The values of a sequence of indices, as integers.
pub open spec fn ints(v: Seq<usize>) -> Seq<int> {
    v.map_values(|x: usize| x as int)
}

/// The dependency lists of an executable graph, as integers.
pub open spec fn dep_views(deps: Seq<Vec<usize>>) -> Seq<Seq<int>> {
    deps.map_values(|v: Vec<usize>| ints(v@))
}

/// Every dependency names a package of the graph.
pub open spec fn deps_in_range(deps: Seq<Seq<int>>) -> bool {
    forall|i: int, m: int|
        0 <= i < deps.len() && 0 <= m < deps[i].len() ==> 0 <= #[trigger] deps[i][m] < deps.len()
}

/// `flags` records exactly the members of `done`.
pub open spec fn flags_match(flags: Seq<bool>, done: Seq<int>) -> bool {
    forall|j: int| 0 <= j < flags.len() ==> (flags[j] <==> done.contains(j))
}

proof fn lemma_package_index_in_range(packages: Seq<WorkspacePackage>, id: Seq<char>)
    ensures
        package_index(packages, id) matches Some(k) ==> 0 <= k < packages.len(),
    decreases packages.len(),
{
    if packages.len() > 0 && packages.last().id@ != id {
        lemma_package_index_in_range(packages.drop_last(), id);
    }
}

fn find_package(packages: &Vec<WorkspacePackage>, id: &str) -> (res: Option<usize>)
    ensures
        match res {
            Some(r) => package_index(packages@, id@) == Some(r as int),
            None => package_index(packages@, id@) is None,
        },
{
    let mut k: usize = packages.len();
    proof {
        assert(packages@.take(packages@.len() as int) == packages@);
    }
    while k > 0
        invariant
            k <= packages@.len(),
            package_index(packages@, id@) == package_index(packages@.take(k as int), id@),
        decreases k,
    {
        proof {
            assert(packages@.take(k as int).drop_last() == packages@.take(k - 1));
            assert(packages@.take(k as int).last() == packages@[k - 1]);
        }
        if str_eq(packages[k - 1].id.as_str(), id) {
            return Some(k - 1);
        }
        k -= 1;
    }
    None
}

proof fn lemma_ints_push(v: Seq<usize>, x: usize)
    ensures
        ints(v.push(x)) == ints(v).push(x as int),
{
    assert(ints(v.push(x)) =~= ints(v).push(x as int));
}

/// Every workspace member whose package may be published (its publish setting is
/// absent or names a registry) is in the release, and every package in the release
/// is such a member's package.
pub proof fn law_publishable_members_enter_the_release(
    packages: Seq<WorkspacePackage>,
    members: Seq<Seq<char>>,
)
    ensures
        forall|m: int, k: int|
            #![trigger members[m], publishable_indices(packages, members).contains(k)]
            0 <= m < members.len() && package_index(packages, members[m]) == Some(k) && (
            packages[k].publish is None || packages[k].publish->0@.len() > 0)
                ==> publishable_indices(packages, members).contains(k),
        forall|q: int|
            0 <= q < publishable_indices(packages, members).len() ==> {
                let k = #[trigger] publishable_indices(packages, members)[q];
                &&& 0 <= k < packages.len()
                &&& packages[k].publish is None || packages[k].publish->0@.len() > 0
                &&& exists|m: int| 0 <= m < members.len() && package_index(packages, members[m]) == Some(k)
            },
    decreases members.len(),
{
    if members.len() > 0 {
        let prev = members.drop_last();
        law_publishable_members_enter_the_release(packages, prev);
        let before = publishable_indices(packages, prev);
        let after = publishable_indices(packages, members);
        lemma_package_index_in_range(packages, members.last());
        assert forall|m: int, k: int|
            #![trigger members[m], publishable_indices(packages, members).contains(k)]
            0 <= m < members.len() && package_index(packages, members[m]) == Some(k) && (
            packages[k].publish is None || packages[k].publish->0@.len() > 0) implies after.contains(
            k,
        ) by {
            if m < prev.len() {
                assert(prev[m] == members[m]);
                assert(before.contains(k));
                let j = choose|j: int| 0 <= j < before.len() && before[j] == k;
                assert(after[j] == k);
            } else {
                assert(members[m] == members.last());
                assert(after == before.push(k));
                assert(after[before.len() as int] == k);
            }
        }
        assert forall|q: int| 0 <= q < after.len() implies {
            let k = #[trigger] after[q];
            &&& 0 <= k < packages.len()
            &&& packages[k].publish is None || packages[k].publish->0@.len() > 0
            &&& exists|m: int| 0 <= m < members.len() && package_index(packages, members[m]) == Some(k)
        } by {
            if q < before.len() {
                assert(after[q] == before[q]);
                let k = before[q];
                let m = choose|m: int| 0 <= m < prev.len() && package_index(packages, prev[m]) == Some(k);
                assert(members[m] == prev[m]);
            } else {
                let m = members.len() - 1;
                assert(members[m] == members.last());
            }
        }
    }
}

/// The publishable workspace members, as indices into the metadata's packages.
fn publishable_order(metadata: &WorkspaceMetadata) -> (res: Vec<usize>)
    requires
        metadata.wf(),
    ensures
        ints(res@) == publishable_indices(metadata.packages@, views(metadata.workspace_members@)),
        forall|i: int| 0 <= i < res@.len() ==> res@[i] < metadata.packages@.len(),
{
    let ghost members = views(metadata.workspace_members@);
    let mut res: Vec<usize> = Vec::new();
    let mut m: usize = 0;
    while m < metadata.workspace_members.len()
        invariant
            metadata.wf(),
            m <= metadata.workspace_members@.len(),
            members == views(metadata.workspace_members@),
            ints(res@) == publishable_indices(metadata.packages@, members.take(m as int)),
            forall|i: int| 0 <= i < res@.len() ==> res@[i] < metadata.packages@.len(),
        decreases metadata.workspace_members@.len() - m,
    {
        proof {
            assert(members.take(m + 1).drop_last() == members.take(m as int));
            assert(members.take(m + 1).last() == metadata.workspace_members@[m as int]@);
        }
        let found = find_package(&metadata.packages, metadata.workspace_members[m].as_str());
        proof {
            lemma_package_index_in_range(metadata.packages@, members[m as int]);
            let s1 = members.take(m + 1);
            assert(publishable_indices(metadata.packages@, s1) == match package_index(metadata.packages@, members[m as int]) {
                Some(k) => if is_publishable(metadata.packages@[k]) {
                    publishable_indices(metadata.packages@, members.take(m as int)).push(k)
                } else {
                    publishable_indices(metadata.packages@, members.take(m as int))
                },
                None => publishable_indices(metadata.packages@, members.take(m as int)),
            });
        }
        match found {
            Some(k) => {
                let publishable = match &metadata.packages[k].publish {
                    None => true,
                    Some(registries) => registries.len() > 0,
                };
                if publishable {
                    let ghost before = res@;
                    res.push(k);
                    proof {
                        lemma_ints_push(before, k);
                    }
                }
            },
            None => {},
        }
        m += 1;
    }
    proof {
        assert(members.take(metadata.workspace_members@.len() as int) == members);
    }
    res
}

/// The last position of `names` holding `name`.
fn last_position(names: &Vec<&str>, name: &str) -> (res: Option<usize>)
    ensures
        match res {
            Some(r) => last_index_of(names@.map_values(|x: &str| x@), name@) == Some(r as int),
            None => last_index_of(names@.map_values(|x: &str| x@), name@) is None,
        },
{
    let ghost nv = names@.map_values(|x: &str| x@);
    let mut k: usize = names.len();
    proof {
        assert(nv.take(names@.len() as int) == nv);
    }
    while k > 0
        invariant
            k <= names@.len(),
            nv == names@.map_values(|x: &str| x@),
            last_index_of(nv, name@) == last_index_of(nv.take(k as int), name@),
        decreases k,
    {
        proof {
            assert(nv.take(k as int).drop_last() == nv.take(k - 1));
            assert(nv.take(k as int).last() == names@[k - 1]@);
        }
        if str_eq(names[k - 1], name) {
            return Some(k - 1);
        }
        k -= 1;
    }
    proof {
        assert(nv.take(0).len() == 0);
    }
    None
}

proof fn lemma_last_index_in_range(names: Seq<Seq<char>>, name: Seq<char>)
    ensures
        last_index_of(names, name) matches Some(j) ==> 0 <= j < names.len(),
    decreases names.len(),
{
    if names.len() > 0 && names.last() != name {
        lemma_last_index_in_range(names.drop_last(), name);
    }
}

/// The release positions that a package's dependencies resolve to.
fn resolve_deps(deps: &Vec<WorkspaceDependency>, names: &Vec<&str>) -> (res: Vec<usize>)
    ensures
        ints(res@) == resolved_deps(deps@, names@.map_values(|x: &str| x@)),
        forall|m: int| 0 <= m < res@.len() ==> res@[m] < names@.len(),
{
    let ghost nv = names@.map_values(|x: &str| x@);
    let mut res: Vec<usize> = Vec::new();
    let mut i: usize = 0;
    while i < deps.len()
        invariant
            i <= deps@.len(),
            nv == names@.map_values(|x: &str| x@),
            ints(res@) == resolved_deps(deps@.take(i as int), nv),
            forall|m: int| 0 <= m < res@.len() ==> res@[m] < names@.len(),
        decreases deps@.len() - i,
    {
        proof {
            assert(deps@.take(i + 1).drop_last() == deps@.take(i as int));
            assert(deps@.take(i + 1).last() == deps@[i as int]);
        }
        if deps[i].kind != DependencyKind::Development {
            match last_position(names, deps[i].name.as_str()) {
                Some(j) => {
                    proof {
                        lemma_last_index_in_range(nv, deps@[i as int].name@);
                    }
                    let ghost before = res@;
                    res.push(j);
                    proof {
                        lemma_ints_push(before, j);
                    }
                },
                None => {},
            }
        }
        i += 1;
    }
    proof {
        assert(deps@.take(deps@.len() as int) == deps@);
    }
    res
}

proof fn lemma_next_release_is(deps: Seq<Seq<int>>, done: Seq<int>, i: int)
    requires
        eligible(deps, done, i),
        forall|j: int| 0 <= j < i ==> !eligible(deps, done, j),
    ensures
        next_release(deps, done) == Some(i),
{
    let c = choose|c: int| eligible(deps, done, c) && forall|j: int| 0 <= j < c ==> !eligible(deps, done, j);
    assert(eligible(deps, done, c));
    if c < i {
        assert(!eligible(deps, done, c));
    } else if c > i {
        assert(!eligible(deps, done, i));
    }
}

proof fn lemma_release_sequence_stops(deps: Seq<Seq<int>>, k: nat, m: nat)
    requires
        k <= m,
        next_release(deps, release_sequence(deps, k)) is None,
    ensures
        release_sequence(deps, m) == release_sequence(deps, k),
    decreases m - k,
{
    if m > k {
        lemma_release_sequence_stops(deps, k, (m - 1) as nat);
    }
}

proof fn lemma_flags_push(flags: Seq<bool>, done: Seq<int>, i: int)
    requires
        flags_match(flags, done),
        0 <= i < flags.len(),
    ensures
        flags_match(flags.update(i, true), done.push(i)),
{
    let f2 = flags.update(i, true);
    let d2 = done.push(i);
    assert forall|j: int| 0 <= j < f2.len() implies (f2[j] <==> d2.contains(j)) by {
        if j != i {
            if d2.contains(j) {
                let q = choose|q: int| 0 <= q < d2.len() && d2[q] == j;
                assert(q < done.len());
                assert(done[q] == j);
            }
            if done.contains(j) {
                let q = choose|q: int| 0 <= q < done.len() && done[q] == j;
                assert(d2[q] == j);
            }
        } else {
            assert(d2[d2.len() - 1] == i);
        }
    }
}

/// Whether every dependency in `deps_i` is marked in `done`.
fn all_released(deps_i: &Vec<usize>, done: &Vec<bool>) -> (res: bool)
    requires
        forall|m: int| 0 <= m < deps_i@.len() ==> deps_i@[m] < done@.len(),
    ensures
        res == forall|m: int| 0 <= m < deps_i@.len() ==> done@[#[trigger] deps_i@[m] as int],
{
    let mut m: usize = 0;
    while m < deps_i.len()
        invariant
            m <= deps_i@.len(),
            forall|x: int| 0 <= x < deps_i@.len() ==> deps_i@[x] < done@.len(),
            forall|x: int| 0 <= x < m ==> done@[#[trigger] deps_i@[x] as int],
        decreases deps_i@.len() - m,
    {
        if !done[deps_i[m]] {
            return false;
        }
        m += 1;
    }
    true
}

/// The least package eligible after the released set marked in `done`.
fn least_eligible(deps: &Vec<Vec<usize>>, done: &Vec<bool>, Ghost(order): Ghost<Seq<int>>) -> (res:
    Option<usize>)
    requires
        done@.len() == deps@.len(),
        deps_in_range(dep_views(deps@)),
        flags_match(done@, order),
    ensures
        match res {
            Some(i) => next_release(dep_views(deps@), order) == Some(i as int) && i < deps@.len(),
            None => next_release(dep_views(deps@), order) is None,
        },
{
    let ghost d = dep_views(deps@);
    let mut i: usize = 0;
    while i < deps.len()
        invariant
            i <= deps@.len(),
            done@.len() == deps@.len(),
            d == dep_views(deps@),
            deps_in_range(d),
            flags_match(done@, order),
            forall|j: int| 0 <= j < i ==> !eligible(d, order, j),
        decreases deps@.len() - i,
    {
        proof {
            assert forall|m: int| 0 <= m < deps@[i as int]@.len() implies deps@[i as int]@[m]
                < done@.len() by {
                assert(d[i as int][m] == deps@[i as int]@[m] as int);
            }
        }
        if !done[i] && all_released(&deps[i], done) {
            proof {
                assert forall|m: int| 0 <= m < d[i as int].len() implies order.contains(
                    #[trigger] d[i as int][m],
                ) by {
                    assert(d[i as int][m] == deps@[i as int]@[m] as int);
                    assert(done@[deps@[i as int]@[m] as int]);
                }
                lemma_next_release_is(d, order, i as int);
            }
            return Some(i);
        }
        proof {
            if eligible(d, order, i as int) {
                assert(!done@[i as int]);
                assert forall|m: int| 0 <= m < deps@[i as int]@.len() implies done@[#[trigger] deps@[i
                    as int]@[m] as int] by {
                    assert(d[i as int][m] == deps@[i as int]@[m] as int);
                    assert(order.contains(d[i as int][m]));
                }
            }
        }
        i += 1;
    }
    proof {
        assert forall|j: int| !eligible(d, order, j) by {
            if 0 <= j < d.len() {
            }
        }
    }
    None
}

/// Releases the packages of a graph in order: each step the least package whose
/// dependencies have all been released; stops early when none is left eligible.
fn release_positions(deps: &Vec<Vec<usize>>) -> (res: Vec<usize>)
    requires
        deps_in_range(dep_views(deps@)),
    ensures
        ints(res@) == release_order_of(dep_views(deps@)),
        forall|q: int| 0 <= q < res@.len() ==> res@[q] < deps@.len(),
{
    let ghost d = dep_views(deps@);
    let n = deps.len();
    let mut done: Vec<bool> = Vec::new();
    let mut z: usize = 0;
    while z < n
        invariant
            z <= n,
            done@.len() == z,
            forall|j: int| 0 <= j < z ==> !done@[j],
        decreases n - z,
    {
        done.push(false);
        z += 1;
    }
    let mut order: Vec<usize> = Vec::new();
    let mut stuck = false;
    let mut k: usize = 0;
    proof {
        assert(ints(order@) =~= Seq::<int>::empty());
    }
    while k < n
        invariant
            n == deps@.len(),
            d == dep_views(deps@),
            deps_in_range(d),
            k <= n,
            done@.len() == n,
            ints(order@) == release_sequence(d, k as nat),
            flags_match(done@, ints(order@)),
            stuck ==> next_release(d, ints(order@)) is None,
            forall|q: int| 0 <= q < order@.len() ==> order@[q] < n,
        decreases n - k,
    {
        let ghost before = ints(order@);
        if !stuck {
            match least_eligible(deps, &done, Ghost(ints(order@))) {
                Some(i) => {
                    let ghost old_order = order@;
                    let ghost old_done = done@;
                    order.push(i);
                    done.set(i, true);
                    proof {
                        lemma_ints_push(old_order, i);
                        lemma_flags_push(old_done, before, i as int);
                        assert(done@ == old_done.update(i as int, true));
                    }
                },
                None => {
                    stuck = true;
                },
            }
        }
        proof {
            assert(release_sequence(d, (k + 1) as nat) == match next_release(d, release_sequence(d, k as nat)) {
                Some(i) => release_sequence(d, k as nat).push(i),
                None => release_sequence(d, k as nat),
            });
        }
        k += 1;
    }
    proof {
        assert(release_order_of(d) == release_sequence(d, n as nat));
    }
    order
}

/// The positions below `n`, in increasing order, that satisfy `p`.
pub open spec fn positions_where(n: nat, p: spec_fn(int) -> bool) -> Seq<int>
    decreases n,
{
    if n == 0 {
        Seq::empty()
    } else {
        let prev = positions_where((n - 1) as nat, p);
        if p(n - 1) {
            prev.push(n - 1)
        } else {
            prev
        }
    }
}

proof fn lemma_positions_where_bounds(n: nat, p: spec_fn(int) -> bool)
    ensures
        forall|q: int|
            0 <= q < positions_where(n, p).len() ==> 0 <= #[trigger] positions_where(n, p)[q] < n,
    decreases n,
{
    if n > 0 {
        lemma_positions_where_bounds((n - 1) as nat, p);
        let prev = positions_where((n - 1) as nat, p);
        assert forall|q: int| 0 <= q < positions_where(n, p).len() implies 0
            <= #[trigger] positions_where(n, p)[q] < n by {
            if q < prev.len() {
                assert(positions_where(n, p)[q] == prev[q]);
            }
        }
    }
}

/// The packages that a stopped release left unreleased, in workspace order.
pub open spec fn blocked_positions(deps: Seq<Seq<int>>, done: Seq<int>) -> Seq<int> {
    positions_where(deps.len(), |j: int| !done.contains(j))
}

/// The unreleased packages that package `i` depends on, in workspace order.
pub open spec fn waiting_positions(deps: Seq<Seq<int>>, done: Seq<int>, i: int) -> Seq<int> {
    positions_where(deps.len(), |j: int| deps[i].contains(j) && !done.contains(j))
}

/// The names of the packages at `positions`.
pub open spec fn names_at(packages: Seq<WorkspacePackage>, positions: Seq<int>) -> Seq<Seq<char>> {
    positions.map_values(|j: int| packages[j].name@)
}

/// The error reported when the release stops at `done`: each unreleased package, in
/// workspace order, with the unreleased packages it depends on.
pub open spec fn cycle_report_matches(graph: ReleaseGraph, done: Seq<int>, blocked: Seq<BlockedPackage>) -> bool {
    let positions = blocked_positions(graph.deps, done);
    &&& blocked.len() == positions.len()
    &&& forall|q: int|
        0 <= q < blocked.len() ==> {
            &&& (#[trigger] blocked[q]).name@ == graph.packages[positions[q]].name@
            &&& views(blocked[q].waits_on@) == names_at(
                graph.packages,
                waiting_positions(graph.deps, done, positions[q]),
            )
        }
}

/// Whether the positions in `deps_i` include `j`.
fn has_dep(deps_i: &Vec<usize>, j: usize) -> (res: bool)
    ensures
        res == ints(deps_i@).contains(j as int),
{
    let mut m: usize = 0;
    while m < deps_i.len()
        invariant
            m <= deps_i@.len(),
            forall|x: int| 0 <= x < m ==> deps_i@[x] != j,
        decreases deps_i@.len() - m,
    {
        if deps_i[m] == j {
            proof {
                assert(ints(deps_i@)[m as int] == j as int);
            }
            return true;
        }
        m += 1;
    }
    proof {
        if ints(deps_i@).contains(j as int) {
            let q = choose|q: int| 0 <= q < ints(deps_i@).len() && ints(deps_i@)[q] == j as int;
            assert(deps_i@[q] == j);
        }
    }
    false
}

proof fn lemma_views_of_strs_push(s: Seq<String>, x: String)
    ensures
        views(s.push(x)) == views(s).push(x@),
{
    assert(views(s.push(x)) =~= views(s).push(x@));
}

/// The names of the packages at the positions marked `true` in `select`, in order.
fn select_names(names: &Vec<&str>, select: &Vec<bool>, Ghost(p): Ghost<spec_fn(int) -> bool>) -> (res: Vec<String>)
    requires
        select@.len() == names@.len(),
        forall|j: int| 0 <= j < select@.len() ==> (select@[j] <==> p(j)),
    ensures
        views(res@) == positions_where(names@.len() as nat, p).map_values(|j: int| names@[j]@),
{
    let mut res: Vec<String> = Vec::new();
    let mut j: usize = 0;
    proof {
        assert(views(res@) =~= positions_where(0, p).map_values(|j: int| names@[j]@));
    }
    while j < names.len()
        invariant
            j <= names@.len(),
            select@.len() == names@.len(),
            forall|x: int| 0 <= x < select@.len() ==> (select@[x] <==> p(x)),
            views(res@) == positions_where(j as nat, p).map_values(|x: int| names@[x]@),
        decreases names@.len() - j,
    {
        proof {
            assert(positions_where((j + 1) as nat, p) == if p(j as int) {
                positions_where(j as nat, p).push(j as int)
            } else {
                positions_where(j as nat, p)
            });
        }
        if select[j] {
            let ghost before = res@;
            res.push(owned(names[j]));
            proof {
                lemma_views_of_strs_push(before, res@.last());
                assert(positions_where((j + 1) as nat, p).map_values(|x: int| names@[x]@)
                    =~= positions_where(j as nat, p).map_values(|x: int| names@[x]@).push(names@[j as int]@));
            }
        }
        j += 1;
    }
    res
}

/// The publish order of a workspace's publishable packages: each step publishes the
/// first package, in workspace order, whose non-development workspace dependencies
/// have all been published. Fails, naming what each unpublished package waits on,
/// when the packages left all wait on one another.
pub fn release_order_from_metadata(metadata: &WorkspaceMetadata) -> (res: Result<
    Vec<ReleasePackage>,
    ReleaseError,
>)
    requires
        metadata.wf(),
    ensures
        ({
            let graph = release_graph(*metadata);
            let order = release_order_of(graph.deps);
            &&& (order.len() == graph.packages.len() <==> res is Ok)
            &&& res matches Ok(packages) ==> {
                &&& packages@.len() == order.len()
                &&& forall|q: int|
                    0 <= q < packages@.len() ==> (#[trigger] packages@[q]).name@
                        == graph.packages[order[q]].name@ && packages@[q].version@
                        == graph.packages[order[q]].version@
            }
            &&& res matches Err(e) ==> e matches ReleaseError::DependencyCycle { blocked }
                && cycle_report_matches(graph, order, blocked@)
        }),
{
    let ghost graph = release_graph(*metadata);
    let order = publishable_order(metadata);
    let n = order.len();
    let mut names: Vec<&str> = Vec::new();
    let mut q: usize = 0;
    while q < n
        invariant
            n == order@.len(),
            q <= n,
            forall|i: int| 0 <= i < order@.len() ==> order@[i] < metadata.packages@.len(),
            ints(order@) == publishable_indices(metadata.packages@, views(metadata.workspace_members@)),
            graph == release_graph(*metadata),
            names@.len() == q,
            forall|i: int| 0 <= i < q ==> (#[trigger] names@[i])@ == graph.packages[i].name@,
        decreases n - q,
    {
        names.push(metadata.packages[order[q]].name.as_str());
        q += 1;
    }
    proof {
        assert(names@.map_values(|x: &str| x@) =~= graph.packages.map_values(|p: WorkspacePackage| p.name@));
    }
    let mut deps: Vec<Vec<usize>> = Vec::new();
    let mut r: usize = 0;
    while r < n
        invariant
            n == order@.len(),
            n == names@.len(),
            r <= n,
            forall|i: int| 0 <= i < order@.len() ==> order@[i] < metadata.packages@.len(),
            ints(order@) == publishable_indices(metadata.packages@, views(metadata.workspace_members@)),
            graph == release_graph(*metadata),
            names@.map_values(|x: &str| x@) == graph.packages.map_values(|p: WorkspacePackage| p.name@),
            deps@.len() == r,
            forall|i: int| 0 <= i < r ==> ints((#[trigger] deps@[i])@) == graph.deps[i],
            forall|i: int, m: int| 0 <= i < r && 0 <= m < deps@[i]@.len() ==> deps@[i]@[m] < n,
        decreases n - r,
    {
        let resolved = resolve_deps(&metadata.packages[order[r]].dependencies, &names);
        deps.push(resolved);
        r += 1;
    }
    proof {
        assert(dep_views(deps@) =~= graph.deps);
        assert forall|i: int, m: int| 0 <= i < graph.deps.len() && 0 <= m < graph.deps[i].len()
            implies 0 <= #[trigger] graph.deps[i][m] < graph.deps.len() by {
            assert(graph.deps[i][m] == deps@[i]@[m] as int);
        }
    }
    let positions = release_positions(&deps);
    if positions.len() == n {
        let mut packages: Vec<ReleasePackage> = Vec::new();
        let mut t: usize = 0;
        while t < n
            invariant
                n == order@.len(),
                n == positions@.len(),
                t <= n,
                forall|i: int| 0 <= i < order@.len() ==> order@[i] < metadata.packages@.len(),
                forall|i: int| 0 <= i < positions@.len() ==> positions@[i] < n,
                ints(order@) == publishable_indices(metadata.packages@, views(metadata.workspace_members@)),
                graph == release_graph(*metadata),
                ints(positions@) == release_order_of(graph.deps),
                packages@.len() == t,
                forall|i: int|
                    0 <= i < t ==> (#[trigger] packages@[i]).name@ == graph.packages[positions@[i] as int].name@
                        && packages@[i].version@ == graph.packages[positions@[i] as int].version@,
            decreases n - t,
        {
            let pkg = &metadata.packages[order[positions[t]]];
            packages.push(ReleasePackage::new(pkg.name.as_str(), pkg.version.as_str()));
            t += 1;
        }
        proof {
            let ord = release_order_of(graph.deps);
            assert forall|i: int| 0 <= i < packages@.len() implies (#[trigger] packages@[i]).name@
                == graph.packages[ord[i]].name@ && packages@[i].version@ == graph.packages[ord[i]].version@ by {
                assert(ord[i] == positions@[i] as int);
            }
        }
        Ok(packages)
    } else {
        let mut released: Vec<bool> = Vec::new();
        let mut z: usize = 0;
        while z < n
            invariant
                z <= n,
                released@.len() == z,
                forall|j: int| 0 <= j < z ==> (released@[j] <==> ints(positions@).contains(j)),
            decreases n - z,
        {
            released.push(has_dep(&positions, z));
            z += 1;
        }
        let ghost done = ints(positions@);
        let mut unreleased: Vec<bool> = Vec::new();
        let mut u: usize = 0;
        while u < n
            invariant
                u <= n,
                released@.len() == n,
                unreleased@.len() == u,
                forall|j: int| 0 <= j < u ==> (unreleased@[j] <==> !released@[j]),
            decreases n - u,
        {
            unreleased.push(!released[u]);
            u += 1;
        }
        let ghost blocked_p = |j: int| !done.contains(j);
        proof {
            assert forall|j: int| 0 <= j < n implies (#[trigger] names@[j])@ == graph.packages[j].name@ by {
                assert(names@.map_values(|x: &str| x@)[j] == graph.packages.map_values(|p: WorkspacePackage| p.name@)[j]);
            }
        }
        let blocked_names = select_names(&names, &unreleased, Ghost(blocked_p));
        let mut blocked: Vec<BlockedPackage> = Vec::new();
        let mut b: usize = 0;
        while b < n
            invariant
                b <= n,
                n == names@.len(),
                n == deps@.len(),
                released@.len() == n,
                forall|j: int| 0 <= j < n ==> (released@[j] <==> done.contains(j)),
                graph == release_graph(*metadata),
                done == release_order_of(graph.deps),
                dep_views(deps@) == graph.deps,
                forall|j: int| 0 <= j < n ==> (#[trigger] names@[j])@ == graph.packages[j].name@,
                blocked@.len() == positions_where(b as nat, |j: int| !done.contains(j)).len(),
                forall|q: int|
                    0 <= q < blocked@.len() ==> {
                        &&& (#[trigger] blocked@[q]).name@ == graph.packages[positions_where(b as nat, |j: int| !done.contains(j))[q]].name@
                        &&& views(blocked@[q].waits_on@) == names_at(
                            graph.packages,
                            waiting_positions(graph.deps, done, positions_where(b as nat, |j: int| !done.contains(j))[q]),
                        )
                    },
            decreases n - b,
        {
            if !released[b] {
                let mut waits: Vec<bool> = Vec::new();
                let mut w: usize = 0;
                while w < n
                    invariant
                        w <= n,
                        b < n,
                        n == deps@.len(),
                        released@.len() == n,
                        waits@.len() == w,
                        forall|j: int|
                            0 <= j < w ==> (waits@[j] <==> (ints(deps@[b as int]@).contains(j) && !released@[j])),
                    decreases n - w,
                {
                    waits.push(has_dep(&deps[b], w) && !released[w]);
                    w += 1;
                }
                let ghost wp = |j: int| graph.deps[b as int].contains(j) && !done.contains(j);
                proof {
                    assert(graph.deps[b as int] == ints(deps@[b as int]@));
                }
                let waits_on = select_names(&names, &waits, Ghost(wp));
                let ghost before = blocked@;
                blocked.push(BlockedPackage { name: owned(names[b]), waits_on });
                proof {
                    let pw = positions_where((b + 1) as nat, |j: int| !done.contains(j));
                    assert(pw == positions_where(b as nat, |j: int| !done.contains(j)).push(b as int));
                    lemma_positions_where_bounds(n as nat, wp);
                    assert forall|q: int| 0 <= q < blocked@.len() implies {
                        &&& (#[trigger] blocked@[q]).name@ == graph.packages[pw[q]].name@
                        &&& views(blocked@[q].waits_on@) == names_at(
                            graph.packages,
                            waiting_positions(graph.deps, done, pw[q]),
                        )
                    } by {
                        if q == before.len() {
                            assert(pw[q] == b as int);
                            assert(waiting_positions(graph.deps, done, b as int) == positions_where(n as nat, wp));
                            assert(names_at(graph.packages, positions_where(n as nat, wp)) =~= positions_where(n as nat, wp).map_values(|j: int| names@[j]@));
                        } else {
                            assert(blocked@[q] == before[q]);
                        }
                    }
                }
            }
            b += 1;
        }
        proof {
            assert(blocked_positions(graph.deps, done) == positions_where(n as nat, |j: int| !done.contains(j)));
        }
        Err(ReleaseError::DependencyCycle { blocked })
    }
}

/// What every prefix of the release order keeps: positions are packages of the graph,
/// none is released twice, and each package comes after every package it depends on.
pub open spec fn respects_dependencies(deps: Seq<Seq<int>>, order: Seq<int>) -> bool {
    &&& forall|q: int| 0 <= q < order.len() ==> 0 <= #[trigger] order[q] < deps.len()
    &&& order.no_duplicates()
    &&& forall|q: int, m: int|
        0 <= q < order.len() && 0 <= m < deps[order[q]].len() ==> order.take(q).contains(
            #[trigger] deps[order[q]][m],
        )
}

proof fn lemma_least_eligible_exists(deps: Seq<Seq<int>>, done: Seq<int>, w: int)
    requires
        eligible(deps, done, w),
    ensures
        exists|c: int| eligible(deps, done, c) && forall|j: int| 0 <= j < c ==> !eligible(deps, done, j),
    decreases w,
{
    if exists|j: int| 0 <= j < w && eligible(deps, done, j) {
        let j = choose|j: int| 0 <= j < w && eligible(deps, done, j);
        lemma_least_eligible_exists(deps, done, j);
    } else {
        assert(eligible(deps, done, w) && forall|j: int| 0 <= j < w ==> !eligible(deps, done, j));
    }
}

proof fn lemma_next_release_eligible(deps: Seq<Seq<int>>, done: Seq<int>)
    ensures
        next_release(deps, done) matches Some(i) ==> eligible(deps, done, i),
{
    if exists|i: int| eligible(deps, done, i) {
        let w = choose|i: int| eligible(deps, done, i);
        lemma_least_eligible_exists(deps, done, w);
    }
}

proof fn lemma_respects_push(deps: Seq<Seq<int>>, prev: Seq<int>, i: int)
    requires
        respects_dependencies(deps, prev),
        eligible(deps, prev, i),
    ensures
        respects_dependencies(deps, prev.push(i)),
{
    let cur = prev.push(i);
    assert(cur.take(prev.len() as int) =~= prev);
    assert forall|q: int, m: int|
        0 <= q < cur.len() && 0 <= m < deps[cur[q]].len() implies cur.take(q).contains(
        #[trigger] deps[cur[q]][m]) by {
        if q < prev.len() {
            assert(cur.take(q) =~= prev.take(q));
            assert(cur[q] == prev[q]);
        } else {
            assert(cur.take(q) =~= prev);
            assert(prev.contains(deps[i][m]));
        }
    }
    assert forall|a: int, b: int| 0 <= a < cur.len() && 0 <= b < cur.len() && a != b
        implies cur[a] != cur[b] by {
        if a == prev.len() {
            assert(cur[b] == prev[b]);
        } else if b == prev.len() {
            assert(cur[a] == prev[a]);
        }
    }
}

proof fn lemma_release_sequence_invariant(deps: Seq<Seq<int>>, k: nat)
    ensures
        respects_dependencies(deps, release_sequence(deps, k)),
        release_sequence(deps, k).len() == k || next_release(deps, release_sequence(deps, k)) is None,
    decreases k,
{
    if k > 0 {
        lemma_release_sequence_invariant(deps, (k - 1) as nat);
        let prev = release_sequence(deps, (k - 1) as nat);
        lemma_next_release_eligible(deps, prev);
        match next_release(deps, prev) {
            Some(i) => {
                lemma_respects_push(deps, prev, i);
            },
            None => {},
        }
    }
}

/// The release order respects dependencies: it lists packages of the graph, none
/// twice, each after all the packages it depends on. When it covers every package it
/// is a permutation of them; when it stops early, every package left unreleased waits
/// on another unreleased package, so the packages left depend on one another in a cycle.
pub proof fn law_release_order_respects_dependencies(deps: Seq<Seq<int>>)
    requires
        deps_in_range(deps),
    ensures
        respects_dependencies(deps, release_order_of(deps)),
        release_order_of(deps).len() == deps.len() ==> forall|i: int|
            0 <= i < deps.len() ==> release_order_of(deps).contains(i),
        release_order_of(deps).len() < deps.len() ==> forall|i: int|
            0 <= i < deps.len() && !release_order_of(deps).contains(i) ==> exists|m: int|
                0 <= m < deps[i].len() && !release_order_of(deps).contains(#[trigger] deps[i][m]),
{
    let order = release_order_of(deps);
    lemma_release_sequence_invariant(deps, deps.len());
    if order.len() == deps.len() {
        let range = vstd::set_lib::set_int_range(0, deps.len() as int);
        vstd::set_lib::lemma_int_range(0, deps.len() as int);
        order.unique_seq_to_set();
        assert(order.to_set().subset_of(range));
        vstd::set_lib::lemma_subset_equality(order.to_set(), range);
        assert forall|i: int| 0 <= i < deps.len() implies order.contains(i) by {
            assert(range.contains(i));
            assert(order.to_set().contains(i));
        }
    } else {
        assert(next_release(deps, order) is None);
        assert forall|i: int| 0 <= i < deps.len() && !order.contains(i) implies exists|m: int|
            0 <= m < deps[i].len() && !order.contains(#[trigger] deps[i][m]) by {
            assert(!eligible(deps, order, i));
        }
    }
}

/// The first position of `names` holding `name`, if any.
pub open spec fn first_index_of(names: Seq<Seq<char>>, name: Seq<char>) -> Option<int>
    decreases names.len(),
{
    if names.len() == 0 {
        None
    } else {
        match first_index_of(names.drop_last(), name) {
            Some(i) => Some(i),
            None => if names.last() == name {
                Some(names.len() - 1)
            } else {
                None
            },
        }
    }
}

/// The names of release packages.
pub open spec fn package_names(packages: Seq<ReleasePackage>) -> Seq<Seq<char>> {
    packages.map_values(|p: ReleasePackage| p.name@)
}

/// The release packages from the resume point on: all of them without one, the
/// suffix starting at the first package of that name otherwise, and an error naming
/// the expected packages when none has that name.
pub fn packages_from<'a>(packages: &'a [ReleasePackage], from: Option<&ReleaseResumePoint>) -> (res:
    Result<&'a [ReleasePackage], ReleaseError>)
    ensures
        match from {
            None => res == Ok::<&[ReleasePackage], ReleaseError>(packages),
            Some(point) => match first_index_of(package_names(packages@), point@) {
                Some(i) => res matches Ok(rest) && rest@ == packages@.skip(i),
                None => res matches Err(e) && e matches ReleaseError::UnknownResumePoint {
                    package,
                    expected,
                } && package@ == point@ && views(expected@) == package_names(packages@),
            },
        },
{
    let resume = match from {
        None => {
            return Ok(packages);
        },
        Some(f) => f,
    };
    let name = resume.package_name();
    let ghost names = package_names(packages@);
    let mut i: usize = 0;
    while i < packages.len()
        invariant
            i <= packages@.len(),
            names == package_names(packages@),
            name@ == resume@,
            from == Some(resume),
            first_index_of(names.take(i as int), name@) is None,
        decreases packages@.len() - i,
    {
        proof {
            assert(names.take(i + 1).drop_last() == names.take(i as int));
            assert(names.take(i + 1).last() == packages@[i as int].name@);
        }
        if packages[i].name == *name {
            proof {
                lemma_first_index_prefix(names, name@, i as int);
            }
            let rest = &packages[i..packages.len()];
            proof {
                assert(rest@ =~= packages@.skip(i as int));
            }
            return Ok(rest);
        }
        i += 1;
    }
    proof {
        assert(names.take(packages@.len() as int) == names);
    }
    let mut expected: Vec<String> = Vec::new();
    let mut k: usize = 0;
    while k < packages.len()
        invariant
            k <= packages@.len(),
            views(expected@) == package_names(packages@).take(k as int),
        decreases packages@.len() - k,
    {
        let ghost before = expected@;
        expected.push(owned(packages[k].name.as_str()));
        proof {
            lemma_views_push(before, expected@.last());
            assert(package_names(packages@).take(k + 1) =~= package_names(packages@).take(k as int).push(
                packages@[k as int].name@,
            ));
        }
        k += 1;
    }
    proof {
        assert(package_names(packages@).take(packages@.len() as int) =~= package_names(packages@));
    }
    Err(ReleaseError::UnknownResumePoint { package: owned(name.as_str()), expected })
}

proof fn lemma_first_index_prefix(names: Seq<Seq<char>>, name: Seq<char>, i: int)
    requires
        0 <= i < names.len(),
        names[i] == name,
        first_index_of(names.take(i), name) is None,
    ensures
        first_index_of(names, name) == Some(i),
    decreases names.len(),
{
    if names.len() > i + 1 {
        assert(names.drop_last().take(i) == names.take(i));
        lemma_first_index_prefix(names.drop_last(), name, i);
    } else {
        assert(names.drop_last() == names.take(i));
    }
}

/// The text of a number right-aligned in a two-character column.
pub open spec fn right_aligned2(digits: Seq<char>) -> Seq<char> {
    if digits.len() < 2 {
        Seq::new((2 - digits.len()) as nat, |k: int| ' ') + digits
    } else {
        digits
    }
}

/// One line of the release plan: `<n>. <name> <version>`.
pub open spec fn plan_line(position: nat, package: ReleasePackage) -> Seq<char> {
    right_aligned2(decimal(position)) + ". "@ + package.name@ + " "@ + package.version@ + "\n"@
}

/// The lines of the release plan for `packages`, numbered from one.
pub open spec fn plan_lines(packages: Seq<ReleasePackage>) -> Seq<char>
    decreases packages.len(),
{
    if packages.len() == 0 {
        Seq::empty()
    } else {
        plan_lines(packages.drop_last()) + plan_line(packages.len(), packages.last())
    }
}

/// The release plan shown before publishing.
pub open spec fn plan_text(packages: Seq<ReleasePackage>) -> Seq<char> {
    "Release publish order:\n"@ + plan_lines(packages)
        + "Order is computed from non-dev workspace dependencies.\n"@
}

/// The release plan that lists `packages` in publish order.
pub fn release_plan_text(packages: &[ReleasePackage]) -> (res: String)
    requires
        packages@.len() < u64::MAX,
    ensures
        res@ == plan_text(packages@),
{
    let mut out = owned("Release publish order:\n");
    let mut i: usize = 0;
    while i < packages.len()
        invariant
            i <= packages@.len() < u64::MAX,
            out@ == "Release publish order:\n"@ + plan_lines(packages@.take(i as int)),
        decreases packages@.len() - i,
    {
        let number = crate::presentation::decimal_string((i + 1) as u64);
        let v = crate::text::chars_of(number.as_str());
        if v.len() < 2 {
            let mut pad: usize = 2 - v.len();
            let ghost before = out@;
            while pad > 0
                invariant
                    pad <= 2,
                    out@ == before + Seq::new((2 - v@.len() - pad) as nat, |k: int| ' '),
                    v@.len() < 2,
                    pad <= 2 - v@.len(),
                decreases pad,
            {
                push_char(&mut out, ' ');
                proof {
                    assert(Seq::new((2 - v@.len() - pad + 1) as nat, |k: int| ' ') =~= Seq::new(
                        (2 - v@.len() - pad) as nat,
                        |k: int| ' ',
                    ).push(' '));
                }
                pad -= 1;
            }
        }
        push_str(&mut out, number.as_str());
        push_str(&mut out, ". ");
        push_str(&mut out, packages[i].name.as_str());
        push_str(&mut out, " ");
        push_str(&mut out, packages[i].version.as_str());
        push_str(&mut out, "\n");
        proof {
            assert(packages@.take(i + 1).drop_last() == packages@.take(i as int));
            assert(packages@.take(i + 1).last() == packages@[i as int]);
            assert(out@ =~= "Release publish order:\n"@ + plan_lines(packages@.take(i + 1)));
        }
        i += 1;
    }
    push_str(&mut out, "Order is computed from non-dev workspace dependencies.\n");
    proof {
        assert(packages@.take(packages@.len() as int) == packages@);
    }
    out
}

/// The release plan of a workspace: its publish order, or why there is none.
pub fn plan(metadata: &WorkspaceMetadata) -> (res: Result<String, ReleaseError>)
    requires
        metadata.wf(),
        metadata.workspace_members@.len() < u64::MAX,
    ensures
        ({
            let graph = release_graph(*metadata);
            let order = release_order_of(graph.deps);
            &&& (order.len() == graph.packages.len() <==> res is Ok)
            &&& res matches Err(e) ==> e matches ReleaseError::DependencyCycle { blocked }
                && cycle_report_matches(graph, order, blocked@)
            &&& res matches Ok(text) ==> exists|packages: Seq<ReleasePackage>|
                #![trigger plan_text(packages)]
                text@ == plan_text(packages) && packages.len() == order.len() && forall|q: int|
                    0 <= q < packages.len() ==> (#[trigger] packages[q]).name@
                        == graph.packages[order[q]].name@ && packages[q].version@
                        == graph.packages[order[q]].version@
        }),
{
    match release_order_from_metadata(metadata) {
        Ok(packages) => {
            proof {
                lemma_publishable_len(metadata.packages@, views(metadata.workspace_members@));
                lemma_release_len(release_graph(*metadata).deps);
            }
            let text = release_plan_text(packages.as_slice());
            Ok(text)
        },
        Err(e) => Err(e),
    }
}

proof fn lemma_publishable_len(packages: Seq<WorkspacePackage>, members: Seq<Seq<char>>)
    ensures
        publishable_indices(packages, members).len() <= members.len(),
    decreases members.len(),
{
    if members.len() > 0 {
        lemma_publishable_len(packages, members.drop_last());
    }
}

proof fn lemma_release_len(deps: Seq<Seq<int>>)
    ensures
        release_order_of(deps).len() <= deps.len(),
{
    lemma_release_sequence_len(deps, deps.len());
}

proof fn lemma_release_sequence_len(deps: Seq<Seq<int>>, k: nat)
    ensures
        release_sequence(deps, k).len() <= k,
    decreases k,
{
    if k > 0 {
        lemma_release_sequence_len(deps, (k - 1) as nat);
    }
}

/// The line that reports one blocked package: `<name> waits on <a>, <b>`.
pub open spec fn blocked_line(b: BlockedPackage) -> Seq<char> {
    b.name@ + " waits on "@ + joined(views(b.waits_on@), ", "@)
}

/// The lines of all blocked packages.
pub open spec fn blocked_lines(blocked: Seq<BlockedPackage>) -> Seq<Seq<char>> {
    blocked.map_values(|b: BlockedPackage| blocked_line(b))
}

/// The text of a release error.
pub open spec fn release_error_message(e: ReleaseError) -> Seq<char> {
    match e {
        ReleaseError::EmptyPackageName { label } => label@ + " package name cannot be empty"@,
        ReleaseError::EmptyRegistryName => "registry name cannot be empty"@,
        ReleaseError::UnknownResumePoint { package, expected } => "unknown release package `"@
            + package@ + "`; expected one of: "@ + joined(views(expected@), ", "@),
        ReleaseError::DependencyCycle { blocked } => "workspace publish dependencies contain a cycle: "@
            + joined(blocked_lines(blocked@), "; "@),
    }
}

impl ReleaseError {
    /// The text that reports this error.
    pub fn message(&self) -> (res: String)
        ensures
            res@ == release_error_message(*self),
    {
        match self {
            ReleaseError::EmptyPackageName { label } => {
                let mut s = copy_string(label);
                push_str(&mut s, " package name cannot be empty");
                s
            },
            ReleaseError::EmptyRegistryName => owned("registry name cannot be empty"),
            ReleaseError::UnknownResumePoint { package, expected } => {
                let mut s = owned("unknown release package `");
                push_str(&mut s, package.as_str());
                push_str(&mut s, "`; expected one of: ");
                let names = join_strings(expected, ", ");
                push_str(&mut s, names.as_str());
                s
            },
            ReleaseError::DependencyCycle { blocked } => {
                let mut lines: Vec<String> = Vec::new();
                let mut i: usize = 0;
                while i < blocked.len()
                    invariant
                        i <= blocked@.len(),
                        views(lines@) == blocked_lines(blocked@).take(i as int),
                    decreases blocked@.len() - i,
                {
                    let mut line = copy_string(&blocked[i].name);
                    push_str(&mut line, " waits on ");
                    let waits = join_strings(&blocked[i].waits_on, ", ");
                    push_str(&mut line, waits.as_str());
                    let ghost before = lines@;
                    lines.push(line);
                    proof {
                        lemma_views_push(before, lines@.last());
                        assert(blocked_lines(blocked@).take(i + 1) =~= blocked_lines(blocked@).take(
                            i as int,
                        ).push(blocked_line(blocked@[i as int])));
                    }
                    i += 1;
                }
                proof {
                    assert(blocked_lines(blocked@).take(blocked@.len() as int) =~= blocked_lines(blocked@));
                }
                let mut s = owned("workspace publish dependencies contain a cycle: ");
                let all = join_strings(&lines, "; ");
                push_str(&mut s, all.as_str());
                s
            },
        }
    }
}

/// What to do after one `cargo publish` attempt.
#[derive(Debug, Clone, Copy, PartialEq, Eq, Structural)]
pub enum PublishStep {
    /// The package was published.
    Published,
    /// The registry already holds this version and existing uploads are skipped.
    AlreadyUploaded,
    /// The last allowed attempt failed.
    GiveUp,
    /// Wait for the retry delay and try again.
    Retry,
}

/// The text converted to lower case (`str::to_lowercase`).
pub uninterp spec fn lowercase(s: Seq<char>) -> Seq<char>;

/// Lower-cases text with `str::to_lowercase`.
///
/// Trusted: the result is named, as a function of the argument alone; what the
/// Unicode case mapping gives each character is left unsaid.
#[verifier::external_body]
fn to_lowercase(s: &str) -> (res: String)
    ensures
        res@ == lowercase(s@),
{
    s.to_lowercase()
}


/// Whether `needle` occurs in `haystack`.
pub fn find_text(haystack: &str, needle: &str) -> (res: bool)
    ensures
        res == contains_text(haystack@, needle@),
{
    let h = crate::text::chars_of(haystack);
    let n = crate::text::chars_of(needle);
    if n.len() > h.len() {
        return false;
    }
    if n.len() == 0 {
        proof {
            assert(haystack@.subrange(0int, 0int + needle@.len()) =~= needle@);
        }
        return true;
    }
    let hl: usize = h.len();
    let limit: usize = hl - n.len();
    let mut i: usize = 0;
    while i <= limit
        invariant
            hl == h@.len(),
            n@.len() > 0,
            h@ == haystack@,
            n@ == needle@,
            limit == h@.len() - n@.len(),
            n@.len() <= h@.len(),
            i <= limit + 1,
            forall|j: int| 0 <= j < i ==> #[trigger] h@.subrange(j, j + n@.len()) != n@,
        decreases limit + 1 - i,
    {
        let mut k: usize = 0;
        let mut same = true;
        while k < n.len()
            invariant
                hl == h@.len(),
                i <= limit,
                limit == h@.len() - n@.len(),
                n@.len() <= h@.len(),
                k <= n@.len(),
                same <==> forall|x: int| 0 <= x < k ==> h@[i + x] == n@[x],
            decreases n@.len() - k,
        {
            let idx: usize = i + k;
            if h[idx] != n[k] {
                same = false;
            }
            k += 1;
        }
        if same {
            proof {
                assert(h@.subrange(i as int, i + n@.len()) =~= n@);
            }
            return true;
        }
        proof {
            let x = choose|x: int| 0 <= x < n@.len() && h@[i + x] != n@[x];
            assert(h@.subrange(i as int, i + n@.len())[x] != n@[x]);
        }
        i += 1;
    }
    false
}

/// Whether lower-cased error output reports an upload that already exists.
pub open spec fn reports_existing_upload(lower: Seq<char>) -> bool {
    contains_text(lower, "already uploaded"@) || contains_text(lower, "already exists"@)
}

/// Whether a failed publish reported an upload that already exists.
pub open spec fn mentions_existing_upload(stderr: Seq<char>) -> bool {
    reports_existing_upload(lowercase(stderr))
}

/// Whether lower-cased error output reports an upload that already exists.
pub fn lowercase_output_reports_existing_upload(lower: &str) -> (res: bool)
    ensures
        res == reports_existing_upload(lower@),
{
    find_text(lower, "already uploaded") || find_text(lower, "already exists")
}

/// Whether the error output of a failed publish reports an upload that already exists.
pub fn output_mentions_existing_upload(stderr: &str) -> (res: bool)
    ensures
        res == mentions_existing_upload(stderr@),
{
    let lower = to_lowercase(stderr);
    lowercase_output_reports_existing_upload(lower.as_str())
}

/// The step after attempt `attempt` (counted from zero) of publishing a package.
pub open spec fn publish_step(
    attempt: u32,
    options: PublishOptions,
    succeeded: bool,
    stderr: Seq<char>,
) -> PublishStep {
    if succeeded {
        PublishStep::Published
    } else if options.skip_existing && mentions_existing_upload(stderr) {
        PublishStep::AlreadyUploaded
    } else if attempt == options.retries {
        PublishStep::GiveUp
    } else {
        PublishStep::Retry
    }
}

/// Decides what follows one publish attempt: done on success, done when an existing
/// upload is reported and such uploads are skipped, give up after the last retry, and
/// otherwise retry.
pub fn publish_attempt_outcome(
    attempt: u32,
    options: &PublishOptions,
    succeeded: bool,
    stderr: &str,
) -> (res: PublishStep)
    ensures
        res == publish_step(attempt, *options, succeeded, stderr@),
{
    if succeeded {
        PublishStep::Published
    } else if options.skip_existing && output_mentions_existing_upload(stderr) {
        PublishStep::AlreadyUploaded
    } else if attempt == options.retries {
        PublishStep::GiveUp
    } else {
        PublishStep::Retry
    }
}

} // verus!
