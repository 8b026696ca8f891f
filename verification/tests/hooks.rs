use hookrun::config::{ConfigLocalRepo, ConfigRemoteHook, ConfigRemoteRepo, ConfigRepo, ConfigWire, ManifestHook};
use hookrun::hook::{Error, Hook, Project, Repo, ResolvedHook};
use hookrun::languages::Language;

fn manifest_hook(id: &str, language: Language) -> ManifestHook {
    ManifestHook {
        id: id.to_string(),
        name: id.to_string(),
        entry: format!("run-{id}"),
        language,
        alias: None,
        files: None,
        exclude: None,
        types: None,
        types_or: None,
        exclude_types: None,
        additional_dependencies: None,
        args: None,
        always_run: None,
        verbose: None,
        log_file: None,
        language_version: None,
        stages: None,
    }
}

fn empty_override(id: &str) -> ConfigRemoteHook {
    ConfigRemoteHook {
        id: id.to_string(),
        name: None,
        alias: None,
        files: None,
        exclude: None,
        types: None,
        types_or: None,
        exclude_types: None,
        additional_dependencies: None,
        args: None,
        always_run: None,
        verbose: None,
        log_file: None,
        language_version: None,
        stages: None,
    }
}

fn empty_config() -> ConfigWire {
    ConfigWire { repos: Vec::new(), default_stages: None, default_language_version: Vec::new() }
}

#[test]
fn merge_is_field_level_overlay() {
    let mut base = manifest_hook("lint", Language::Python);
    base.args = Some(vec!["--strict".to_string()]);
    base.files = Some("src/".to_string());
    base.verbose = Some(false);

    let mut over = empty_override("lint");
    over.args = Some(vec!["--fix".to_string()]);
    over.name = Some("Lint".to_string());
    over.always_run = Some(true);

    let mut hook = Hook::from(base);
    hook.update(over);

    // Fields the override sets are replaced whole.
    assert_eq!(hook.0.args, Some(vec!["--fix".to_string()]));
    assert_eq!(hook.0.name, "Lint".to_string());
    assert_eq!(hook.0.always_run, Some(true));
    // Fields the override leaves unset keep the base values.
    assert_eq!(hook.0.files, Some("src/".to_string()));
    assert_eq!(hook.0.verbose, Some(false));
    assert_eq!(hook.0.entry, "run-lint".to_string());
}

#[test]
fn merge_replaces_lists_whole_never_appends() {
    let mut base = manifest_hook("lint", Language::Python);
    base.args = Some(vec!["--a".to_string(), "--b".to_string()]);
    let mut over = empty_override("lint");
    over.args = Some(vec!["--c".to_string()]);

    let mut hook = Hook::from(base);
    hook.update(over);
    assert_eq!(hook.0.args, Some(vec!["--c".to_string()]));
}

#[test]
fn fill_takes_configured_default_version() {
    let mut config = empty_config();
    config.default_language_version = vec![(Language::Python, "3.12".to_string())];
    let mut hook = Hook::from(manifest_hook("lint", Language::Python));
    hook.fill(&config);
    assert_eq!(hook.0.language_version, Some("3.12".to_string()));
}

#[test]
fn fill_falls_back_to_builtin_default_version() {
    let config = empty_config();
    let mut hook = Hook::from(manifest_hook("lint", Language::Node));
    hook.fill(&config);
    assert_eq!(hook.0.language_version, Some("default".to_string()));
}

#[test]
fn fill_keeps_set_fields_and_takes_default_stages() {
    let mut config = empty_config();
    config.default_stages = Some(vec!["push".to_string()]);
    let mut hook = Hook::from(manifest_hook("lint", Language::Python));
    hook.0.language_version = Some("3.9".to_string());
    hook.fill(&config);
    assert_eq!(hook.0.language_version, Some("3.9".to_string()));
    assert_eq!(hook.0.stages, Some(vec!["push".to_string()]));
}

#[test]
fn fill_is_idempotent() {
    let mut config = empty_config();
    config.default_stages = Some(vec!["commit".to_string()]);
    config.default_language_version = vec![(Language::Python, "3.12".to_string())];
    let mut once = Hook::from(manifest_hook("lint", Language::Python));
    once.fill(&config);
    let mut twice = Hook::from(manifest_hook("lint", Language::Python));
    twice.fill(&config);
    twice.fill(&config);
    assert_eq!(once.0.language_version, twice.0.language_version);
    assert_eq!(once.0.stages, twice.0.stages);
    assert_eq!(once.0.args, twice.0.args);
    assert_eq!(once.0.name, twice.0.name);
}

#[test]
fn assembly_merges_override_and_inherits_stages() {
    // One remote repo at revision v1; its manifest declares `lint` with
    // stages [commit]; the project override sets args only.
    let mut manifest = manifest_hook("lint", Language::Python);
    manifest.stages = Some(vec!["commit".to_string()]);

    let mut over = empty_override("lint");
    over.args = Some(vec!["--fix".to_string()]);

    let config = ConfigWire {
        repos: vec![ConfigRepo::Remote(ConfigRemoteRepo {
            repo: "https://example.com/repo".to_string(),
            rev: "v1".to_string(),
            hooks: vec![over],
        })],
        default_stages: None,
        default_language_version: Vec::new(),
    };
    let prepared = vec![
        Repo::remote("https://example.com/repo", "v1", "/cache/repo", vec![manifest]).unwrap(),
    ];
    let project = Project::from_directory("/work".to_string(), config);
    let (hooks, preps) = project.hooks(&prepared).unwrap();

    assert_eq!(hooks.len(), 1);
    assert_eq!(hooks[0].0.args, Some(vec!["--fix".to_string()]));
    assert_eq!(hooks[0].0.stages, Some(vec!["commit".to_string()]));
    assert!(preps.is_empty());
}

#[test]
fn assembly_reports_missing_hook_with_repo_descriptor() {
    let manifest = manifest_hook("lint", Language::Python);
    let config = ConfigWire {
        repos: vec![ConfigRepo::Remote(ConfigRemoteRepo {
            repo: "https://example.com/x".to_string(),
            rev: "v1".to_string(),
            hooks: vec![empty_override("missing")],
        })],
        default_stages: None,
        default_language_version: Vec::new(),
    };
    let prepared = vec![
        Repo::remote("https://example.com/x", "v1", "/cache/x", vec![manifest]).unwrap(),
    ];
    let project = Project::from_directory("/work".to_string(), config);
    match project.hooks(&prepared) {
        Err(Error::HookNotFound { hook, repo }) => {
            assert_eq!(hook, "missing".to_string());
            assert_eq!(repo, "https://example.com/x@v1".to_string());
        },
        _ => panic!("expected a reference error naming the hook and the repo"),
    }
}

#[test]
fn assembly_fills_local_hooks_and_collects_dependency_preps() {
    let mut inline = manifest_hook("fmt", Language::Python);
    inline.additional_dependencies = Some(vec!["pkg==2".to_string()]);
    let config = ConfigWire {
        repos: vec![ConfigRepo::Local(ConfigLocalRepo { hooks: vec![inline] })],
        default_stages: Some(vec!["commit".to_string()]),
        default_language_version: Vec::new(),
    };
    let prepared = vec![Repo::local(Vec::new(), "/work").unwrap()];
    let project = Project::from_directory("/work".to_string(), config);
    let (hooks, preps) = project.hooks(&prepared).unwrap();
    assert_eq!(hooks.len(), 1);
    assert_eq!(hooks[0].0.stages, Some(vec!["commit".to_string()]));
    assert_eq!(hooks[0].0.language_version, Some("default".to_string()));
    assert_eq!(preps.len(), 1);
    assert_eq!(preps[0].repo_index, 0);
    assert_eq!(preps[0].dependencies, vec!["pkg==2".to_string()]);
}

#[test]
fn assembly_skips_meta_repo() {
    let config = ConfigWire {
        repos: vec![ConfigRepo::Meta],
        default_stages: None,
        default_language_version: Vec::new(),
    };
    let prepared = vec![Repo::meta()];
    let project = Project::current(config);
    let (hooks, preps) = project.hooks(&prepared).unwrap();
    assert!(hooks.is_empty());
    assert!(preps.is_empty());
}

#[test]
fn resolve_rejects_dependencies_under_unsupporting_toolchain() {
    let mut manifest = manifest_hook("check", Language::System);
    manifest.additional_dependencies = Some(vec!["pkg==2".to_string()]);
    let hook = Hook::from(manifest);
    match Language::System.resolve(&hook, None) {
        Err(Error::UnsupportedDependencies { hook, language }) => {
            assert_eq!(hook, "check".to_string());
            assert!(matches!(language, Language::System));
        },
        _ => panic!("expected a capability-mismatch error, not an ignored field"),
    }
}

#[test]
fn resolve_yields_environment_for_installable_toolchain() {
    let hook = Hook::from(manifest_hook("lint", Language::Python));
    match Language::Python.resolve(&hook, Some("/store/py_env-3.12".to_string())) {
        Ok(ResolvedHook::Installed { hook, env_path }) => {
            assert_eq!(hook.0.id, "lint".to_string());
            assert_eq!(env_path, "/store/py_env-3.12".to_string());
        },
        _ => panic!("expected an environment-bearing resolution"),
    }
}

#[test]
fn resolve_needs_no_environment_for_system_toolchain() {
    let hook = Hook::from(manifest_hook("check", Language::System));
    match Language::System.resolve(&hook, None) {
        Ok(ResolvedHook::NoNeedInstall(h)) => assert_eq!(h.0.id, "check".to_string()),
        _ => panic!("expected no environment to be needed"),
    }
}

#[test]
fn language_names_and_defaults() {
    assert_eq!(Language::Python.name(), "python".to_string());
    assert_eq!(Language::Node.name(), "node".to_string());
    assert_eq!(Language::System.name(), "system".to_string());
    assert_eq!(Language::DockerImage.name(), "docker_image".to_string());
    assert_eq!(Language::Python.default_version(), "default".to_string());
    assert_eq!(Language::Python.environment_dir(), Some("py_env".to_string()));
    assert_eq!(Language::Node.environment_dir(), Some("node_env".to_string()));
    assert_eq!(Language::System.environment_dir(), None);
    assert_eq!(Language::DockerImage.environment_dir(), None);
    assert!(Language::Python.supports_dependency());
    assert!(Language::Node.supports_dependency());
    assert!(!Language::System.supports_dependency());
    assert!(!Language::DockerImage.supports_dependency());
}
