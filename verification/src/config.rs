//! Parsed configuration and manifest records: the canonical hook definition a
//! repository ships, the partial project-level override record, and the
//! project-wide configuration. Loading and file formats belong to an outside
//! collaborator; this module only holds the already-parsed values and their
//! mathematical models.

use vstd::prelude::*;
use crate::languages::Language;

verus! {

/// View of an optional string as an optional character sequence.
pub open spec fn view_opt_str(o: Option<String>) -> Option<Seq<char>> {
    match o {
        Some(s) => Some(s@),
        None => None,
    }
}

/// View of a string list as a sequence of character sequences.
pub open spec fn view_strs(v: Vec<String>) -> Seq<Seq<char>> {
    v.deep_view()
}

/// View of an optional string list.
pub open spec fn view_opt_strs(o: Option<Vec<String>>) -> Option<Seq<Seq<char>>> {
    match o {
        Some(v) => Some(view_strs(v)),
        None => None,
    }
}

/// Mathematical model of a hook definition: every textual field as a
/// character sequence.
#[verifier::ext_equal]
pub struct HookModel {
    pub id: Seq<char>,
    pub name: Seq<char>,
    pub entry: Seq<char>,
    pub language: Language,
    pub alias: Option<Seq<char>>,
    pub files: Option<Seq<char>>,
    pub exclude: Option<Seq<char>>,
    pub types: Option<Seq<Seq<char>>>,
    pub types_or: Option<Seq<Seq<char>>>,
    pub exclude_types: Option<Seq<Seq<char>>>,
    pub additional_dependencies: Option<Seq<Seq<char>>>,
    pub args: Option<Seq<Seq<char>>>,
    pub always_run: Option<bool>,
    pub verbose: Option<bool>,
    pub log_file: Option<Seq<char>>,
    pub language_version: Option<Seq<char>>,
    pub stages: Option<Seq<Seq<char>>>,
}

/// Canonical hook definition shipped by a hook repository's manifest, and
/// also the shape of an inline hook of a local repo. Immutable once loaded.
pub struct ManifestHook {
    pub id: String,
    pub name: String,
    pub entry: String,
    pub language: Language,
    pub alias: Option<String>,
    pub files: Option<String>,
    pub exclude: Option<String>,
    pub types: Option<Vec<String>>,
    pub types_or: Option<Vec<String>>,
    pub exclude_types: Option<Vec<String>>,
    pub additional_dependencies: Option<Vec<String>>,
    pub args: Option<Vec<String>>,
    pub always_run: Option<bool>,
    pub verbose: Option<bool>,
    pub log_file: Option<String>,
    pub language_version: Option<String>,
    pub stages: Option<Vec<String>>,
}

impl View for ManifestHook {
    type V = HookModel;

    open spec fn view(&self) -> HookModel {
        HookModel {
            id: self.id@,
            name: self.name@,
            entry: self.entry@,
            language: self.language,
            alias: view_opt_str(self.alias),
            files: view_opt_str(self.files),
            exclude: view_opt_str(self.exclude),
            types: view_opt_strs(self.types),
            types_or: view_opt_strs(self.types_or),
            exclude_types: view_opt_strs(self.exclude_types),
            additional_dependencies: view_opt_strs(self.additional_dependencies),
            args: view_opt_strs(self.args),
            always_run: self.always_run,
            verbose: self.verbose,
            log_file: view_opt_str(self.log_file),
            language_version: view_opt_str(self.language_version),
            stages: view_opt_strs(self.stages),
        }
    }
}

/// Mathematical model of a project-level override record.
#[verifier::ext_equal]
pub struct OverrideModel {
    pub id: Seq<char>,
    pub name: Option<Seq<char>>,
    pub alias: Option<Seq<char>>,
    pub files: Option<Seq<char>>,
    pub exclude: Option<Seq<char>>,
    pub types: Option<Seq<Seq<char>>>,
    pub types_or: Option<Seq<Seq<char>>>,
    pub exclude_types: Option<Seq<Seq<char>>>,
    pub additional_dependencies: Option<Seq<Seq<char>>>,
    pub args: Option<Seq<Seq<char>>>,
    pub always_run: Option<bool>,
    pub verbose: Option<bool>,
    pub log_file: Option<Seq<char>>,
    pub language_version: Option<Seq<char>>,
    pub stages: Option<Seq<Seq<char>>>,
}

/// Project-level override for one hook reference against a remote repo: the
/// identifier to look up, and a partial record whose present fields replace
/// the manifest definition's.
pub struct ConfigRemoteHook {
    pub id: String,
    pub name: Option<String>,
    pub alias: Option<String>,
    pub files: Option<String>,
    pub exclude: Option<String>,
    pub types: Option<Vec<String>>,
    pub types_or: Option<Vec<String>>,
    pub exclude_types: Option<Vec<String>>,
    pub additional_dependencies: Option<Vec<String>>,
    pub args: Option<Vec<String>>,
    pub always_run: Option<bool>,
    pub verbose: Option<bool>,
    pub log_file: Option<String>,
    pub language_version: Option<String>,
    pub stages: Option<Vec<String>>,
}

impl View for ConfigRemoteHook {
    type V = OverrideModel;

    open spec fn view(&self) -> OverrideModel {
        OverrideModel {
            id: self.id@,
            name: view_opt_str(self.name),
            alias: view_opt_str(self.alias),
            files: view_opt_str(self.files),
            exclude: view_opt_str(self.exclude),
            types: view_opt_strs(self.types),
            types_or: view_opt_strs(self.types_or),
            exclude_types: view_opt_strs(self.exclude_types),
            additional_dependencies: view_opt_strs(self.additional_dependencies),
            args: view_opt_strs(self.args),
            always_run: self.always_run,
            verbose: self.verbose,
            log_file: view_opt_str(self.log_file),
            language_version: view_opt_str(self.language_version),
            stages: view_opt_strs(self.stages),
        }
    }
}

/// One remote repo entry of the project configuration: source URL, revision,
/// and the hook references the project lists against it.
pub struct ConfigRemoteRepo {
    pub repo: String,
    pub rev: String,
    pub hooks: Vec<ConfigRemoteHook>,
}

/// One local repo entry: inline hook definitions, no separate manifest.
pub struct ConfigLocalRepo {
    pub hooks: Vec<ManifestHook>,
}

/// Model of one configured repo entry.
#[verifier::ext_equal]
pub enum RepoConfigModel {
    Remote { repo: Seq<char>, rev: Seq<char>, hooks: Seq<OverrideModel> },
    Local { hooks: Seq<HookModel> },
    Meta,
}

/// One configured repo entry: remote, local, or the built-in meta repo.
pub enum ConfigRepo {
    Remote(ConfigRemoteRepo),
    Local(ConfigLocalRepo),
    Meta,
}

impl View for ConfigRepo {
    type V = RepoConfigModel;

    open spec fn view(&self) -> RepoConfigModel {
        match self {
            ConfigRepo::Remote(r) => RepoConfigModel::Remote {
                repo: r.repo@,
                rev: r.rev@,
                hooks: r.hooks.deep_view(),
            },
            ConfigRepo::Local(l) => RepoConfigModel::Local { hooks: l.hooks.deep_view() },
            ConfigRepo::Meta => RepoConfigModel::Meta,
        }
    }
}

impl DeepView for ConfigRemoteHook {
    type V = OverrideModel;

    open spec fn deep_view(&self) -> OverrideModel {
        self.view()
    }
}

impl DeepView for ManifestHook {
    type V = HookModel;

    open spec fn deep_view(&self) -> HookModel {
        self.view()
    }
}

impl DeepView for ConfigRepo {
    type V = RepoConfigModel;

    open spec fn deep_view(&self) -> RepoConfigModel {
        self.view()
    }
}

/// Model of the whole project configuration.
#[verifier::ext_equal]
pub struct ConfigModel {
    pub repos: Seq<RepoConfigModel>,
    pub default_stages: Option<Seq<Seq<char>>>,
    pub default_language_version: Seq<(Language, Seq<char>)>,
}

/// Parsed project-wide configuration: the configured repo entries, the
/// default stage list, and the default per-language version map (a list of
/// pairs; the first entry for a language wins).
pub struct ConfigWire {
    pub repos: Vec<ConfigRepo>,
    pub default_stages: Option<Vec<String>>,
    pub default_language_version: Vec<(Language, String)>,
}

/// View of the per-language default-version pairs.
pub open spec fn view_lang_versions(v: Vec<(Language, String)>) -> Seq<(Language, Seq<char>)> {
    v@.map_values(|p: (Language, String)| (p.0, p.1@))
}

impl View for ConfigWire {
    type V = ConfigModel;

    open spec fn view(&self) -> ConfigModel {
        ConfigModel {
            repos: self.repos.deep_view(),
            default_stages: view_opt_strs(self.default_stages),
            default_language_version: view_lang_versions(self.default_language_version),
        }
    }
}

/// The default version the configuration assigns to a language, if any: the
/// first pair for that language.
pub open spec fn lookup_version(m: Seq<(Language, Seq<char>)>, lang: Language) -> Option<Seq<char>>
    decreases m.len(),
{
    if m.len() == 0 {
        None
    } else if m[0].0 == lang {
        Some(m[0].1)
    } else {
        lookup_version(m.skip(1), lang)
    }
}

/// Looks up the configured default version for `lang`.
pub fn default_version_for(m: &Vec<(Language, String)>, lang: Language) -> (r: Option<String>)
    ensures
        view_opt_str(r) == lookup_version(view_lang_versions(*m), lang),
{
    let ghost mv = view_lang_versions(*m);
    proof {
        assert(mv.skip(0) =~= mv);
    }
    let mut i: usize = 0;
    while i < m.len()
        invariant
            0 <= i <= m.len(),
            mv == view_lang_versions(*m),
            mv.len() == m.len(),
            lookup_version(mv, lang) == lookup_version(mv.skip(i as int), lang),
        decreases m.len() - i,
    {
        proof {
            assert(mv.skip(i as int)[0] == mv[i as int]);
            assert(mv.skip(i as int).skip(1) =~= mv.skip(i as int + 1));
        }
        if m[i].0 == lang {
            let v = m[i].1.clone();
            return Some(v);
        }
        i += 1;
    }
    proof {
        assert(mv.skip(i as int) =~= Seq::<(Language, Seq<char>)>::empty());
    }
    None
}

/// Copies an optional string; the copy has the same value.
pub fn clone_opt_string(o: &Option<String>) -> (r: Option<String>)
    ensures
        r == *o,
{
    match o {
        Some(s) => Some(s.clone()),
        None => None,
    }
}

/// Copies a string list element by element; the copy holds equal strings.
pub fn clone_strings(v: &Vec<String>) -> (r: Vec<String>)
    ensures
        r@.len() == v@.len(),
        forall|i: int| 0 <= i < v@.len() ==> r@[i] == v@[i],
        view_strs(r) == view_strs(*v),
{
    let mut r: Vec<String> = Vec::new();
    let mut i: usize = 0;
    while i < v.len()
        invariant
            0 <= i <= v.len(),
            r@.len() == i,
            forall|j: int| 0 <= j < i ==> r@[j] == v@[j],
        decreases v.len() - i,
    {
        r.push(v[i].clone());
        i += 1;
    }
    proof {
        assert(view_strs(r) =~= view_strs(*v));
    }
    r
}

/// Copies an optional string list; the copy's model equals the source's.
pub fn clone_opt_strings(o: &Option<Vec<String>>) -> (r: Option<Vec<String>>)
    ensures
        r is Some <==> *o is Some,
        view_opt_strs(r) == view_opt_strs(*o),
{
    match o {
        Some(v) => Some(clone_strings(v)),
        None => None,
    }
}

impl Clone for ManifestHook {
    /// The copy models the same hook definition.
    fn clone(&self) -> (r: Self)
        ensures
            r@ == self@,
    {
        let r = ManifestHook {
            id: self.id.clone(),
            name: self.name.clone(),
            entry: self.entry.clone(),
            language: self.language,
            alias: clone_opt_string(&self.alias),
            files: clone_opt_string(&self.files),
            exclude: clone_opt_string(&self.exclude),
            types: clone_opt_strings(&self.types),
            types_or: clone_opt_strings(&self.types_or),
            exclude_types: clone_opt_strings(&self.exclude_types),
            additional_dependencies: clone_opt_strings(&self.additional_dependencies),
            args: clone_opt_strings(&self.args),
            always_run: self.always_run,
            verbose: self.verbose,
            log_file: clone_opt_string(&self.log_file),
            language_version: clone_opt_string(&self.language_version),
            stages: clone_opt_strings(&self.stages),
        };
        proof {
            assert(r@ =~= self@);
        }
        r
    }
}

impl Clone for ConfigRemoteHook {
    /// The copy models the same override record.
    fn clone(&self) -> (r: Self)
        ensures
            r@ == self@,
    {
        let r = ConfigRemoteHook {
            id: self.id.clone(),
            name: clone_opt_string(&self.name),
            alias: clone_opt_string(&self.alias),
            files: clone_opt_string(&self.files),
            exclude: clone_opt_string(&self.exclude),
            types: clone_opt_strings(&self.types),
            types_or: clone_opt_strings(&self.types_or),
            exclude_types: clone_opt_strings(&self.exclude_types),
            additional_dependencies: clone_opt_strings(&self.additional_dependencies),
            args: clone_opt_strings(&self.args),
            always_run: self.always_run,
            verbose: self.verbose,
            log_file: clone_opt_string(&self.log_file),
            language_version: clone_opt_string(&self.language_version),
            stages: clone_opt_strings(&self.stages),
        };
        proof {
            assert(r@ =~= self@);
        }
        r
    }
}

} // verus!
