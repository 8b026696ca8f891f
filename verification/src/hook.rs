//! Hook resolution: the repo abstraction with its identifier-keyed hook map,
//! the override-merge and default-fill algorithm that produces an effective
//! hook, and the assembly step that turns a project configuration plus its
//! prepared repos into the final hook list and the secondary environment
//! preparations it requires.

use vstd::prelude::*;
use vstd::string::StringExecFns;
use crate::config::{
    ConfigModel, ConfigRemoteHook, ConfigRepo, ConfigWire, HookModel, ManifestHook,
    OverrideModel, RepoConfigModel, clone_strings, lookup_version, view_lang_versions,
    view_opt_strs,
};
use crate::languages::{Language, default_version_spec};

verus! {

// ---------------------------------------------------------------------------
// Errors

/// Model of an assembly or resolution error.
#[verifier::ext_equal]
pub enum ErrorModel {
    InvalidUrl { url: Seq<char> },
    HookNotFound { hook: Seq<char>, repo: Seq<char> },
    UnsupportedDependencies { hook: Seq<char>, language: Language },
    InvalidEntry { entry: Seq<char> },
}

/// An error of the resolution and assembly pipeline. Every variant carries
/// enough context to locate the offending configuration entry.
#[derive(Debug)]
pub enum Error {
    /// The configured repository URL does not parse as an absolute URL.
    InvalidUrl { url: String },
    /// A configured hook identifier is absent from its repo's manifest; the
    /// repo is named by its human-readable descriptor.
    HookNotFound { hook: String, repo: String },
    /// A hook declares extra dependencies under a toolchain for which they
    /// are not meaningful.
    UnsupportedDependencies { hook: String, language: Language },
    /// A hook's entry command cannot be shell-tokenized.
    InvalidEntry { entry: String },
}

impl View for Error {
    type V = ErrorModel;

    open spec fn view(&self) -> ErrorModel {
        match self {
            Error::InvalidUrl { url } => ErrorModel::InvalidUrl { url: url@ },
            Error::HookNotFound { hook, repo } => ErrorModel::HookNotFound {
                hook: hook@,
                repo: repo@,
            },
            Error::UnsupportedDependencies { hook, language } => {
                ErrorModel::UnsupportedDependencies { hook: hook@, language: *language }
            },
            Error::InvalidEntry { entry } => ErrorModel::InvalidEntry { entry: entry@ },
        }
    }
}

// ---------------------------------------------------------------------------
// Effective hook: merge and fill

/// The effective hook: a manifest (or inline) definition after project
/// overrides were merged onto it and unset fields were filled from the
/// project defaults.
pub struct Hook(pub ManifestHook);

impl View for Hook {
    type V = HookModel;

    open spec fn view(&self) -> HookModel {
        self.0@
    }
}

impl DeepView for Hook {
    type V = HookModel;

    open spec fn deep_view(&self) -> HookModel {
        self.0@
    }
}

impl From<ManifestHook> for Hook {
    fn from(hook: ManifestHook) -> (r: Hook) {
        Hook(hook)
    }
}

impl vstd::std_specs::convert::FromSpecImpl<ManifestHook> for Hook {
    open spec fn obeys_from_spec() -> bool {
        true
    }

    open spec fn from_spec(hook: ManifestHook) -> Hook {
        Hook(hook)
    }
}

impl Clone for Hook {
    /// The copy models the same effective hook.
    fn clone(&self) -> (r: Self)
        ensures
            r@ == self@,
    {
        Hook(self.0.clone())
    }
}

/// Field-level overlay of a project override onto a base definition: every
/// field the override explicitly sets replaces the base's value whole; every
/// absent field leaves the base value untouched. There is no element-level
/// merging and no interaction between fields.
pub open spec fn merged(b: HookModel, o: OverrideModel) -> HookModel {
    HookModel {
        id: b.id,
        name: if o.name is Some { o.name.unwrap() } else { b.name },
        entry: b.entry,
        language: b.language,
        alias: if o.alias is Some { o.alias } else { b.alias },
        files: if o.files is Some { o.files } else { b.files },
        exclude: if o.exclude is Some { o.exclude } else { b.exclude },
        types: if o.types is Some { o.types } else { b.types },
        types_or: if o.types_or is Some { o.types_or } else { b.types_or },
        exclude_types: if o.exclude_types is Some { o.exclude_types } else { b.exclude_types },
        additional_dependencies: if o.additional_dependencies is Some {
            o.additional_dependencies
        } else {
            b.additional_dependencies
        },
        args: if o.args is Some { o.args } else { b.args },
        always_run: if o.always_run is Some { o.always_run } else { b.always_run },
        verbose: if o.verbose is Some { o.verbose } else { b.verbose },
        log_file: if o.log_file is Some { o.log_file } else { b.log_file },
        language_version: if o.language_version is Some {
            o.language_version
        } else {
            b.language_version
        },
        stages: if o.stages is Some { o.stages } else { b.stages },
    }
}

/// Filling a hook from the project defaults: if the language version is
/// unset, take the configured per-language default; if still unset, take the
/// language's built-in default string. If the stages are unset, take the
/// project's default stage list. No other field is touched.
pub open spec fn filled(
    h: HookModel,
    default_versions: Seq<(Language, Seq<char>)>,
    default_stages: Option<Seq<Seq<char>>>,
) -> HookModel {
    let v1 = if h.language_version is Some {
        h.language_version
    } else {
        lookup_version(default_versions, h.language)
    };
    let v2 = if v1 is Some {
        v1
    } else {
        Some(default_version_spec(h.language))
    };
    HookModel {
        language_version: v2,
        stages: if h.stages is Some {
            h.stages
        } else {
            default_stages
        },
        ..h
    }
}

/// Filling only touches fields that are still unset, so running it twice is
/// the same as running it once.
pub proof fn lemma_fill_idempotent(
    h: HookModel,
    default_versions: Seq<(Language, Seq<char>)>,
    default_stages: Option<Seq<Seq<char>>>,
)
    ensures
        filled(filled(h, default_versions, default_stages), default_versions, default_stages)
            == filled(h, default_versions, default_stages),
{
    assert(filled(filled(h, default_versions, default_stages), default_versions, default_stages)
        =~= filled(h, default_versions, default_stages));
}


/// Replaces `dst` with the override's value where one is present.
fn override_opt<T>(dst: &mut Option<T>, src: Option<T>)
    ensures
        src is Some ==> *final(dst) == src,
        src is None ==> *final(dst) == *old(dst),
{
    match src {
        Some(v) => { *dst = Some(v); },
        None => {},
    }
}

/// Replaces `dst` where the override sets a value.
fn override_val<T>(dst: &mut T, src: Option<T>)
    ensures
        src matches Some(v) ==> *final(dst) == v,
        src is None ==> *final(dst) == *old(dst),
{
    match src {
        Some(v) => { *dst = v; },
        None => {},
    }
}

impl Hook {
    /// Merges a project-level override onto this hook: field-level overlay,
    /// exactly as `merged` states, for every field independently.
    pub fn update(&mut self, repo_hook: ConfigRemoteHook)
        ensures
            final(self)@ == merged(old(self)@, repo_hook@),
    {
        override_val(&mut self.0.name, repo_hook.name);
        override_opt(&mut self.0.alias, repo_hook.alias);
        override_opt(&mut self.0.files, repo_hook.files);
        override_opt(&mut self.0.exclude, repo_hook.exclude);
        override_opt(&mut self.0.types, repo_hook.types);
        override_opt(&mut self.0.types_or, repo_hook.types_or);
        override_opt(&mut self.0.exclude_types, repo_hook.exclude_types);
        override_opt(&mut self.0.additional_dependencies, repo_hook.additional_dependencies);
        override_opt(&mut self.0.args, repo_hook.args);
        override_opt(&mut self.0.always_run, repo_hook.always_run);
        override_opt(&mut self.0.verbose, repo_hook.verbose);
        override_opt(&mut self.0.log_file, repo_hook.log_file);
        override_opt(&mut self.0.language_version, repo_hook.language_version);
        override_opt(&mut self.0.stages, repo_hook.stages);
        proof {
            assert(self@ =~= merged(old(self)@, repo_hook@));
        }
    }

    /// Fills still-unset fields from the project-wide defaults, exactly as
    /// `filled` states. Must run after `update`; running it twice is a no-op.
    pub fn fill(&mut self, config: &ConfigWire)
        ensures
            final(self)@ == filled(
                old(self)@,
                view_lang_versions(config.default_language_version),
                view_opt_strs(config.default_stages),
            ),
    {
        let language = self.0.language;
        if self.0.language_version.is_none() {
            self.0.language_version = crate::config::default_version_for(
                &config.default_language_version,
                language,
            );
        }
        if self.0.language_version.is_none() {
            self.0.language_version = Some(language.default_version());
        }
        if self.0.stages.is_none() {
            self.0.stages = crate::config::clone_opt_strings(&config.default_stages);
        }
        proof {
            assert(self@ =~= filled(
                old(self)@,
                view_lang_versions(config.default_language_version),
                view_opt_strs(config.default_stages),
            ));
        }
    }
}

// ---------------------------------------------------------------------------
// Environment resolution outcome

/// A hook paired with its environment-resolution outcome: either no
/// environment is needed, or the environment is ready at a path.
pub enum ResolvedHook {
    NoNeedInstall(Hook),
    Installed { hook: Hook, env_path: String },
}

// ---------------------------------------------------------------------------
// The repo abstraction and its hook map

/// What `url::Url::parse` yields on a string: `None` where the string is not
/// an absolute URL, otherwise the parsed URL's serialization. Both depend on
/// the string alone.
pub uninterp spec fn url_parse(s: Seq<char>) -> Option<Seq<char>>;

/// Relies on `url::Url::parse` (and the serialization its `Display` writes):
/// parses an absolute URL and returns its serialization, `None` on malformed
/// input.
#[verifier::external_body]
fn parse_url(s: &str) -> (r: Option<String>)
    ensures
        r is Some <==> url_parse(s@) is Some,
        r matches Some(u) ==> url_parse(s@) matches Some(v) && u@ == v,
{
    url::Url::parse(s).ok().map(|u| u.to_string())
}

/// Relies on `str`'s `PartialEq`: two string slices are equal exactly when
/// their character sequences are.
#[verifier::external_body]
fn str_eq(a: &str, b: &str) -> (r: bool)
    ensures
        r == (a@ == b@),
{
    a == b
}

/// The identifiers of a hook list, in order.
pub open spec fn hook_ids(hooks: Seq<HookModel>) -> Seq<Seq<char>> {
    hooks.map_values(|h: HookModel| h.id)
}

/// The identifier-keyed map a hook list induces: hooks are inserted in
/// order, so on duplicate identifiers the last write wins.
pub open spec fn map_of(hooks: Seq<HookModel>) -> Map<Seq<char>, HookModel>
    decreases hooks.len(),
{
    if hooks.len() == 0 {
        Map::empty()
    } else {
        map_of(hooks.drop_last()).insert(hooks.last().id, hooks.last())
    }
}

/// The hook map's keys are exactly the identifiers that occur in the list:
/// with duplicate identifiers among the hooks, the map has exactly one entry
/// per distinct identifier.
pub proof fn lemma_map_of_dom(hooks: Seq<HookModel>)
    ensures
        map_of(hooks).dom() == hook_ids(hooks).to_set(),
        map_of(hooks).dom().len() == hook_ids(hooks).to_set().len(),
    decreases hooks.len(),
{
    broadcast use vstd::set::group_set_axioms;

    if hooks.len() == 0 {
        assert(map_of(hooks).dom() =~= hook_ids(hooks).to_set());
    } else {
        lemma_map_of_dom(hooks.drop_last());
        assert(hook_ids(hooks).drop_last() =~= hook_ids(hooks.drop_last()));
        assert(hook_ids(hooks).to_set()
            =~= hook_ids(hooks.drop_last()).to_set().insert(hooks.last().id)) by {
            let ids = hook_ids(hooks);
            assert forall|x: Seq<char>|
                ids.to_set().contains(x)
                    implies ids.drop_last().to_set().contains(x) || x == hooks.last().id by {
                let i = choose|i: int| 0 <= i < ids.len() && ids[i] == x;
                if i < ids.len() - 1 {
                    assert(ids.drop_last()[i] == x);
                }
            }
            assert forall|x: Seq<char>|
                ids.drop_last().to_set().contains(x) implies ids.to_set().contains(x) by {
                let i = choose|i: int| 0 <= i < ids.drop_last().len() && ids.drop_last()[i] == x;
                assert(ids[i] == x);
            }
            assert(ids.to_set().contains(hooks.last().id)) by {
                assert(ids[ids.len() - 1] == hooks.last().id);
            }
        }
        assert(map_of(hooks).dom()
            =~= map_of(hooks.drop_last()).dom().insert(hooks.last().id));
    }
}

/// Lookup in the induced map returns the last hook with the sought
/// identifier: on duplicate identifiers the last write wins.
pub proof fn lemma_map_of_match(hooks: Seq<HookModel>, j: int)
    requires
        0 <= j < hooks.len(),
        forall|m: int| j < m < hooks.len() ==> hooks[m].id != hooks[j].id,
    ensures
        map_of(hooks).contains_key(hooks[j].id),
        map_of(hooks)[hooks[j].id] == hooks[j],
    decreases hooks.len(),
{
    if j == hooks.len() - 1 {
    } else {
        assert(hooks.drop_last()[j] == hooks[j]);
        lemma_map_of_match(hooks.drop_last(), j);
    }
}

/// An identifier that occurs nowhere in the list is absent from the map.
pub proof fn lemma_map_of_absent(hooks: Seq<HookModel>, id: Seq<char>)
    requires
        forall|m: int| 0 <= m < hooks.len() ==> hooks[m].id != id,
    ensures
        !map_of(hooks).contains_key(id),
    decreases hooks.len(),
{
    if hooks.len() > 0 {
        lemma_map_of_absent(hooks.drop_last(), id);
    }
}

/// A remote hook repository: its cache path, source URL (as serialized by
/// the URL parser), revision, and the hooks its manifest declares.
pub struct RemoteRepo {
    path: String,
    url: String,
    rev: String,
    hooks: Vec<ManifestHook>,
}

/// A local repo: its path and its inline hook definitions.
pub struct LocalRepo {
    path: String,
    hooks: Vec<ManifestHook>,
}

/// A hook repository: remote, local, or the built-in meta repo, which
/// carries no externally supplied hooks. The hook map is fixed at
/// construction; lookups are pure reads.
pub enum Repo {
    Remote(RemoteRepo),
    Local(LocalRepo),
    Meta,
}

/// Model of a prepared repo, as the assembly step reads it: its
/// identifier-keyed hook map and its human-readable descriptor.
#[verifier::ext_equal]
pub struct RepoModel {
    pub hook_map: Map<Seq<char>, HookModel>,
    pub display: Seq<char>,
}

impl View for Repo {
    type V = RepoModel;

    closed spec fn view(&self) -> RepoModel {
        match self {
            Repo::Remote(r) => RepoModel {
                hook_map: map_of(r.hooks.deep_view()),
                display: r.url@ + "@"@ + r.rev@,
            },
            Repo::Local(l) => RepoModel {
                hook_map: map_of(l.hooks.deep_view()),
                display: "local"@,
            },
            Repo::Meta => RepoModel { hook_map: Map::empty(), display: "meta"@ },
        }
    }
}

impl DeepView for Repo {
    type V = RepoModel;

    open spec fn deep_view(&self) -> RepoModel {
        self.view()
    }
}

impl Repo {
    /// Builds a remote repo from its configured URL and revision and the
    /// parsed manifest found at `path`. Fails exactly when the URL is
    /// malformed.
    pub fn remote(url: &str, rev: &str, path: &str, manifest_hooks: Vec<ManifestHook>) -> (r:
        Result<Repo, Error>)
        ensures
            r is Ok <==> url_parse(url@) is Some,
            r matches Ok(repo) ==> repo@.hook_map == map_of(manifest_hooks.deep_view())
                && repo@.display == url_parse(url@).unwrap() + "@"@ + rev@,
            r matches Err(e) ==> e@ == (ErrorModel::InvalidUrl { url: url@ }),
    {
        match parse_url(url) {
            None => Err(Error::InvalidUrl { url: url.to_owned() }),
            Some(parsed) => Ok(Repo::Remote(RemoteRepo {
                path: path.to_owned(),
                url: parsed,
                rev: rev.to_owned(),
                hooks: manifest_hooks,
            })),
        }
    }

    /// Builds a local repo directly from inline hook definitions; well-formed
    /// input cannot fail.
    pub fn local(hooks: Vec<ManifestHook>, path: &str) -> (r: Result<Repo, Error>)
        ensures
            r matches Ok(repo) && repo@.hook_map == map_of(hooks.deep_view())
                && repo@.display == "local"@,
    {
        Ok(Repo::Local(LocalRepo { path: path.to_owned(), hooks }))
    }

    /// The built-in meta repo: an empty hook set, reserved for built-in
    /// checks.
    pub fn meta() -> (r: Repo)
        ensures
            r@.hook_map == Map::<Seq<char>, HookModel>::empty(),
            r@.display == "meta"@,
    {
        Repo::Meta
    }

    /// Pure lookup of a manifest hook by identifier; `None` exactly when the
    /// identifier is absent from this repo's hook map.
    pub fn get_hook(&self, id: &str) -> (r: Option<&ManifestHook>)
        ensures
            r is Some <==> self@.hook_map.contains_key(id@),
            r matches Some(h) ==> h@ == self@.hook_map[id@],
    {
        let hooks: &Vec<ManifestHook> = match self {
            Repo::Remote(repo) => &repo.hooks,
            Repo::Local(repo) => &repo.hooks,
            Repo::Meta => {
                proof {
                    lemma_map_of_absent(Seq::<HookModel>::empty(), id@);
                }
                return None;
            },
        };
        let ghost hs = hooks.deep_view();
        proof {
            assert(self@.hook_map == map_of(hs));
        }
        let mut i: usize = hooks.len();
        while i > 0
            invariant
                0 <= i <= hooks.len(),
                hs == hooks.deep_view(),
                hs.len() == hooks.len(),
                self@.hook_map == map_of(hs),
                forall|m: int| i <= m < hs.len() ==> hs[m].id != id@,
            decreases i,
        {
            i = i - 1;
            if str_eq(hooks[i].id.as_str(), id) {
                proof {
                    assert(hs[i as int] == hooks@[i as int]@);
                    assert(hs[i as int].id == id@);
                    lemma_map_of_match(hs, i as int);
                }
                return Some(&hooks[i]);
            }
        }
        proof {
            lemma_map_of_absent(hs, id@);
        }
        None
    }

    /// The repo's human-readable descriptor, used in diagnostics: a remote
    /// repo renders as `url@revision`, a local repo and the meta repo as
    /// fixed literals.
    pub fn display_string(&self) -> (r: String)
        ensures
            r@ == self@.display,
    {
        match self {
            Repo::Remote(repo) => {
                let mut s = repo.url.clone();
                s.append("@");
                s.append(repo.rev.as_str());
                s
            },
            Repo::Local(_) => String::from_str("local"),
            Repo::Meta => String::from_str("meta"),
        }
    }
}

// ---------------------------------------------------------------------------
// Project assembly

/// A secondary store-preparation request: a hook of the repo at
/// `repo_index` declared extra dependencies, so an isolated environment must
/// be prepared for that repo with those dependencies attached.
pub struct PrepRequest {
    pub repo_index: usize,
    pub dependencies: Vec<String>,
}

/// Model of a secondary preparation request.
#[verifier::ext_equal]
pub struct PrepModel {
    pub repo_index: int,
    pub dependencies: Seq<Seq<char>>,
}

impl View for PrepRequest {
    type V = PrepModel;

    open spec fn view(&self) -> PrepModel {
        PrepModel { repo_index: self.repo_index as int, dependencies: self.dependencies.deep_view() }
    }
}

impl DeepView for PrepRequest {
    type V = PrepModel;

    open spec fn deep_view(&self) -> PrepModel {
        self.view()
    }
}

/// One assembly step: merge the override onto the base definition, then fill
/// unset fields from the project defaults.
pub open spec fn override_step(base: HookModel, o: OverrideModel, c: ConfigModel) -> HookModel {
    filled(merged(base, o), c.default_language_version, c.default_stages)
}

/// One fill-only step for an inline local hook.
pub open spec fn local_step(h: HookModel, c: ConfigModel) -> HookModel {
    filled(h, c.default_language_version, c.default_stages)
}

/// The hooks and secondary preparations produced by the first `n` overrides
/// of one remote repo entry, or the first failed lookup among them.
pub open spec fn remote_prefix(
    os: Seq<OverrideModel>,
    repo: RepoModel,
    c: ConfigModel,
    idx: int,
    n: int,
) -> Result<(Seq<HookModel>, Seq<PrepModel>), ErrorModel>
    decreases n,
{
    if n <= 0 {
        Ok((Seq::empty(), Seq::empty()))
    } else {
        match remote_prefix(os, repo, c, idx, n - 1) {
            Err(e) => Err(e),
            Ok(acc) => {
                let o = os[n - 1];
                if !repo.hook_map.contains_key(o.id) {
                    Err(ErrorModel::HookNotFound { hook: o.id, repo: repo.display })
                } else {
                    let h = override_step(repo.hook_map[o.id], o, c);
                    Ok((
                        acc.0.push(h),
                        if h.additional_dependencies is Some {
                            acc.1.push(PrepModel {
                                repo_index: idx,
                                dependencies: h.additional_dependencies.unwrap(),
                            })
                        } else {
                            acc.1
                        },
                    ))
                }
            },
        }
    }
}

/// The hooks and secondary preparations produced by the first `n` inline
/// hooks of one local repo entry; this cannot fail.
pub open spec fn local_prefix(hs: Seq<HookModel>, c: ConfigModel, idx: int, n: int) -> (Seq<
    HookModel,
>, Seq<PrepModel>)
    decreases n,
{
    if n <= 0 {
        (Seq::empty(), Seq::empty())
    } else {
        let acc = local_prefix(hs, c, idx, n - 1);
        let h = local_step(hs[n - 1], c);
        (
            acc.0.push(h),
            if h.additional_dependencies is Some {
                acc.1.push(PrepModel {
                    repo_index: idx,
                    dependencies: h.additional_dependencies.unwrap(),
                })
            } else {
                acc.1
            },
        )
    }
}

/// What one configured repo entry contributes: effective hooks in
/// declaration order, and the secondary preparations its hooks require.
pub open spec fn repo_entry(
    cfg: RepoConfigModel,
    prep: RepoModel,
    c: ConfigModel,
    idx: int,
) -> Result<(Seq<HookModel>, Seq<PrepModel>), ErrorModel> {
    match cfg {
        RepoConfigModel::Remote { hooks, .. } => remote_prefix(hooks, prep, c, idx, hooks.len() as int),
        RepoConfigModel::Local { hooks } => Ok(local_prefix(hooks, c, idx, hooks.len() as int)),
        RepoConfigModel::Meta => Ok((Seq::empty(), Seq::empty())),
    }
}

/// The assembly of the first `n` configured repo entries, or the first
/// failure among them.
pub open spec fn assemble_prefix(c: ConfigModel, repos: Seq<RepoModel>, n: int) -> Result<
    (Seq<HookModel>, Seq<PrepModel>),
    ErrorModel,
>
    decreases n,
{
    if n <= 0 {
        Ok((Seq::empty(), Seq::empty()))
    } else {
        match assemble_prefix(c, repos, n - 1) {
            Err(e) => Err(e),
            Ok(acc) => match repo_entry(c.repos[n - 1], repos[n - 1], c, n - 1) {
                Err(e) => Err(e),
                Ok(part) => Ok((acc.0 + part.0, acc.1 + part.1)),
            },
        }
    }
}

/// The whole assembly: every configured repo entry against its prepared
/// repo, in configuration order; any failure aborts the whole assembly.
pub open spec fn assemble(c: ConfigModel, repos: Seq<RepoModel>) -> Result<
    (Seq<HookModel>, Seq<PrepModel>),
    ErrorModel,
> {
    assemble_prefix(c, repos, c.repos.len() as int)
}

/// Once a prefix of one remote entry's overrides fails, every longer prefix
/// fails the same way.
proof fn lemma_remote_prefix_err(
    os: Seq<OverrideModel>,
    repo: RepoModel,
    c: ConfigModel,
    idx: int,
    j: int,
    n: int,
)
    requires
        0 <= j <= n,
        remote_prefix(os, repo, c, idx, j) is Err,
    ensures
        remote_prefix(os, repo, c, idx, n) == remote_prefix(os, repo, c, idx, j),
    decreases n - j,
{
    if j < n {
        lemma_remote_prefix_err(os, repo, c, idx, j, n - 1);
    }
}

/// Once a prefix of the configured repo entries fails, every longer prefix
/// fails the same way.
proof fn lemma_assemble_prefix_err(c: ConfigModel, repos: Seq<RepoModel>, j: int, n: int)
    requires
        0 <= j <= n,
        assemble_prefix(c, repos, j) is Err,
    ensures
        assemble_prefix(c, repos, n) == assemble_prefix(c, repos, j),
    decreases n - j,
{
    if j < n {
        lemma_assemble_prefix_err(c, repos, j, n - 1);
    }
}

/// Model of a project: its root directory and its parsed configuration.
#[verifier::ext_equal]
pub struct ProjectModel {
    pub root: Seq<char>,
    pub config: ConfigModel,
}

/// A project: root directory and parsed project-wide configuration.
/// Read-only after construction; the sole producer of the final hook list.
pub struct Project {
    root: String,
    config: ConfigWire,
}

impl View for Project {
    type V = ProjectModel;

    closed spec fn view(&self) -> ProjectModel {
        ProjectModel { root: self.root@, config: self.config@ }
    }
}

impl Project {
    /// Builds a project from its root directory and its already-parsed
    /// configuration record.
    pub fn from_directory(root: String, config: ConfigWire) -> (r: Self)
        ensures
            r@.root == root@,
            r@.config == config@,
    {
        Project { root, config }
    }

    /// Builds a project rooted at the current working directory, denoted by
    /// the relative path `.`.
    pub fn current(config: ConfigWire) -> (r: Self)
        ensures
            r@.root == "."@,
            r@.config == config@,
    {
        Project { root: String::from_str("."), config }
    }

    /// The project's parsed configuration, for the caller that drives repo
    /// preparation.
    pub fn config(&self) -> (r: &ConfigWire)
        ensures
            r@ == self@.config,
    {
        &self.config
    }

    /// Assembles the effective hook list. `prepared` holds, for each
    /// configured repo entry in order, the repo the store prepared for it.
    /// For each remote entry, every referenced hook is looked up in the
    /// prepared repo's manifest (failing with a reference error naming the
    /// hook and the repo descriptor if absent), merged with its override and
    /// filled from the defaults; local entries fill their inline hooks
    /// directly. Hooks that declare extra dependencies contribute a
    /// secondary preparation request for an isolated environment. Any
    /// failure aborts the whole assembly.
    pub fn hooks(&self, prepared: &Vec<Repo>) -> (r: Result<
        (Vec<Hook>, Vec<PrepRequest>),
        Error,
    >)
        requires
            prepared@.len() == self@.config.repos.len(),
        ensures
            r matches Ok(out) ==> assemble(self@.config, prepared.deep_view())
                == Ok::<_, ErrorModel>((out.0.deep_view(), out.1.deep_view())),
            r matches Err(e) ==> assemble(self@.config, prepared.deep_view())
                == Err::<(Seq<HookModel>, Seq<PrepModel>), _>(e@),
    {
        let ghost c = self@.config;
        let ghost rm = prepared.deep_view();
        let mut hooks: Vec<Hook> = Vec::new();
        let mut preps: Vec<PrepRequest> = Vec::new();
        proof {
            assert(rm.len() == prepared@.len());
            assert(hooks.deep_view() =~= Seq::<HookModel>::empty());
            assert(preps.deep_view() =~= Seq::<PrepModel>::empty());
        }
        let repo_count = self.config.repos.len();
        let mut i: usize = 0;
        while i < repo_count
            invariant
                0 <= i <= repo_count,
                repo_count == self.config.repos.len(),
                prepared@.len() == self@.config.repos.len(),
                rm.len() == c.repos.len(),
                c == self@.config,
                rm == prepared.deep_view(),
                assemble_prefix(c, rm, i as int) == Ok::<_, ErrorModel>((
                    hooks.deep_view(),
                    preps.deep_view(),
                )),
            decreases repo_count - i,
        {
            let ghost hs0 = hooks.deep_view();
            let ghost ps0 = preps.deep_view();
            let repo = &prepared[i];
            match &self.config.repos[i] {
                ConfigRepo::Remote(remote_cfg) => {
                    let ghost os = remote_cfg.hooks.deep_view();
                    proof {
                        assert(c.repos[i as int] == self.config.repos@[i as int].deep_view());
                        assert(rm[i as int] == prepared@[i as int]@);
                        assert(hooks.deep_view() =~= hs0 + Seq::<HookModel>::empty());
                        assert(preps.deep_view() =~= ps0 + Seq::<PrepModel>::empty());
                    }
                    let hook_count = remote_cfg.hooks.len();
                    let mut j: usize = 0;
                    while j < hook_count
                        invariant
                            0 <= j <= hook_count,
                            hook_count == remote_cfg.hooks.len(),
                            os == remote_cfg.hooks.deep_view(),
                            os.len() == hook_count,
                            0 <= i < rm.len(),
                            rm[i as int] == repo@,
                            rm.len() == c.repos.len(),
                            rm == prepared.deep_view(),
                            c == self@.config,
                            c.repos[i as int] matches RepoConfigModel::Remote { hooks: h_os, .. }
                                && h_os == os,
                            assemble_prefix(c, rm, i as int) == Ok::<_, ErrorModel>((hs0, ps0)),
                            remote_prefix(os, rm[i as int], c, i as int, j as int)
                                matches Ok(part) && hooks.deep_view() == hs0 + part.0
                                && preps.deep_view() == ps0 + part.1,
                        decreases hook_count - j,
                    {
                        let hook_cfg = &remote_cfg.hooks[j];
                        proof {
                            assert(os[j as int] == hook_cfg@);
                        }
                        match repo.get_hook(hook_cfg.id.as_str()) {
                            None => {
                                return Err(self.abort_not_found(
                                    hook_cfg,
                                    repo,
                                    Ghost(c),
                                    Ghost(rm),
                                    Ghost(os),
                                    Ghost(i as int),
                                    Ghost(j as int),
                                ));
                            },
                            Some(manifest_hook) => {
                                let mut hook = Hook::from(manifest_hook.clone());
                                hook.update(hook_cfg.clone());
                                hook.fill(&self.config);
                                proof {
                                    assert(hook@ == override_step(
                                        rm[i as int].hook_map[os[j as int].id],
                                        os[j as int],
                                        c,
                                    ));
                                }
                                push_prep(&mut preps, &hook, i);
                                let ghost prev = hooks.deep_view();
                                hooks.push(hook);
                                proof {
                                    assert(hooks.deep_view() =~= prev.push(hooks@.last()@));
                                    let part = remote_prefix(
                                        os, rm[i as int], c, i as int, j as int,
                                    )->Ok_0;
                                    let part2 = remote_prefix(
                                        os, rm[i as int], c, i as int, j as int + 1,
                                    )->Ok_0;
                                    assert(hooks.deep_view() =~= hs0 + part2.0);
                                    assert(preps.deep_view() =~= ps0 + part2.1);
                                }
                            },
                        }
                        j += 1;
                    }
                    proof {
                        assert(repo_entry(c.repos[i as int], rm[i as int], c, i as int)
                            == remote_prefix(os, rm[i as int], c, i as int, hook_count as int));
                    }
                },
                ConfigRepo::Local(local_cfg) => {
                    let ghost lhs = local_cfg.hooks.deep_view();
                    proof {
                        assert(c.repos[i as int] == self.config.repos@[i as int].deep_view());
                        assert(hooks.deep_view() =~= hs0 + Seq::<HookModel>::empty());
                        assert(preps.deep_view() =~= ps0 + Seq::<PrepModel>::empty());
                    }
                    let hook_count = local_cfg.hooks.len();
                    let mut j: usize = 0;
                    while j < hook_count
                        invariant
                            0 <= j <= hook_count,
                            hook_count == local_cfg.hooks.len(),
                            lhs == local_cfg.hooks.deep_view(),
                            lhs.len() == hook_count,
                            0 <= i < rm.len(),
                            c == self@.config,
                            ({
                                let part = local_prefix(lhs, c, i as int, j as int);
                                hooks.deep_view() == hs0 + part.0 && preps.deep_view() == ps0
                                    + part.1
                            }),
                        decreases hook_count - j,
                    {
                        let hook_cfg = &local_cfg.hooks[j];
                        proof {
                            assert(lhs[j as int] == hook_cfg@);
                        }
                        let mut hook = Hook::from(hook_cfg.clone());
                        hook.fill(&self.config);
                        proof {
                            assert(hook@ == local_step(lhs[j as int], c));
                        }
                        push_prep(&mut preps, &hook, i);
                        let ghost prev = hooks.deep_view();
                        hooks.push(hook);
                        proof {
                            assert(hooks.deep_view() =~= prev.push(hooks@.last()@));
                            let part2 = local_prefix(lhs, c, i as int, j as int + 1);
                            assert(hooks.deep_view() =~= hs0 + part2.0);
                            assert(preps.deep_view() =~= ps0 + part2.1);
                        }
                        j += 1;
                    }
                    proof {
                        assert(repo_entry(c.repos[i as int], rm[i as int], c, i as int)
                            == Ok::<_, ErrorModel>(local_prefix(lhs, c, i as int, hook_count as int)));
                    }
                },
                ConfigRepo::Meta => {
                    proof {
                        assert(c.repos[i as int] == self.config.repos@[i as int].deep_view());
                        assert(repo_entry(c.repos[i as int], rm[i as int], c, i as int)
                            == Ok::<_, ErrorModel>((
                            Seq::<HookModel>::empty(),
                            Seq::<PrepModel>::empty(),
                        )));
                        assert(hooks.deep_view() =~= hs0 + Seq::<HookModel>::empty());
                        assert(preps.deep_view() =~= ps0 + Seq::<PrepModel>::empty());
                    }
                },
            }
            i += 1;
        }
        proof {
            assert(assemble(c, rm) == assemble_prefix(c, rm, repo_count as int));
        }
        Ok((hooks, preps))
    }

    /// Builds the reference error for a missing hook identifier and shows
    /// that the whole assembly fails with it.
    fn abort_not_found(
        &self,
        hook_cfg: &ConfigRemoteHook,
        repo: &Repo,
        Ghost(c): Ghost<ConfigModel>,
        Ghost(rm): Ghost<Seq<RepoModel>>,
        Ghost(os): Ghost<Seq<OverrideModel>>,
        Ghost(i): Ghost<int>,
        Ghost(j): Ghost<int>,
    ) -> (e: Error)
        requires
            c == self@.config,
            0 <= i < rm.len(),
            rm.len() == c.repos.len(),
            rm[i] == repo@,
            c.repos[i] matches RepoConfigModel::Remote { hooks: h_os, .. } && h_os == os,
            0 <= j < os.len(),
            os[j] == hook_cfg@,
            !repo@.hook_map.contains_key(hook_cfg@.id),
            remote_prefix(os, rm[i], c, i, j) is Ok,
            assemble_prefix(c, rm, i) is Ok,
        ensures
            assemble(c, rm) == Err::<(Seq<HookModel>, Seq<PrepModel>), _>(e@),
    {
        let e = Error::HookNotFound {
            hook: hook_cfg.id.clone(),
            repo: repo.display_string(),
        };
        proof {
            let em = ErrorModel::HookNotFound { hook: os[j].id, repo: rm[i].display };
            assert(remote_prefix(os, rm[i], c, i, j + 1) == Err::<
                (Seq<HookModel>, Seq<PrepModel>),
                _,
            >(em));
            lemma_remote_prefix_err(os, rm[i], c, i, j + 1, os.len() as int);
            assert(repo_entry(c.repos[i], rm[i], c, i) == Err::<
                (Seq<HookModel>, Seq<PrepModel>),
                _,
            >(em));
            assert(assemble_prefix(c, rm, i + 1) == Err::<
                (Seq<HookModel>, Seq<PrepModel>),
                _,
            >(em));
            lemma_assemble_prefix_err(c, rm, i + 1, c.repos.len() as int);
            assert(e@ == em);
        }
        e
    }
}

/// Appends the secondary preparation request a hook calls for, if it
/// declares extra dependencies.
fn push_prep(preps: &mut Vec<PrepRequest>, hook: &Hook, repo_index: usize)
    ensures
        hook@.additional_dependencies matches Some(deps) ==> final(preps).deep_view()
            == old(preps).deep_view().push(PrepModel {
            repo_index: repo_index as int,
            dependencies: deps,
        }),
        hook@.additional_dependencies is None ==> *final(preps) == *old(preps),
{
    match &hook.0.additional_dependencies {
        Some(deps) => {
            let req = PrepRequest { repo_index, dependencies: clone_strings(deps) };
            let ghost prev = preps.deep_view();
            preps.push(req);
            proof {
                assert(preps.deep_view() =~= prev.push(preps@.last()@));
            }
        },
        None => {},
    }
}

} // verus!
