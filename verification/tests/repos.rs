use hookrun::config::ManifestHook;
use hookrun::hook::Repo;
use hookrun::languages::Language;

fn manifest_hook(id: &str, entry: &str) -> ManifestHook {
    ManifestHook {
        id: id.to_string(),
        name: id.to_string(),
        entry: entry.to_string(),
        language: Language::Python,
        alias: None,
        files: None,
        exclude: None,
        types: None,
        types_or: None,
        exclude_types: None,
        additional_dependencies: None,
        args: None,
        always_run: None,
        verbose: None,
        log_file: None,
        language_version: None,
        stages: None,
    }
}

#[test]
fn remote_repo_rejects_malformed_url() {
    match Repo::remote("not a url", "v1", "/cache", Vec::new()) {
        Err(hookrun::hook::Error::InvalidUrl { url }) => {
            assert_eq!(url, "not a url".to_string());
        },
        _ => panic!("expected the malformed URL to be rejected"),
    }
}

#[test]
fn remote_repo_renders_as_url_at_revision() {
    let repo = Repo::remote("https://example.com/repo", "v1", "/cache", Vec::new()).unwrap();
    assert_eq!(repo.display_string(), "https://example.com/repo@v1".to_string());
}

#[test]
fn local_and_meta_repos_render_as_fixed_literals() {
    let local = Repo::local(Vec::new(), "/work").unwrap();
    assert_eq!(local.display_string(), "local".to_string());
    assert_eq!(Repo::meta().display_string(), "meta".to_string());
}

#[test]
fn hook_map_keeps_last_write_on_duplicate_identifiers() {
    let hooks = vec![
        manifest_hook("a", "first-a"),
        manifest_hook("b", "only-b"),
        manifest_hook("a", "second-a"),
    ];
    let repo = Repo::remote("https://example.com/repo", "v1", "/cache", hooks).unwrap();
    // Lookup by a duplicated identifier returns the hook written last.
    assert_eq!(repo.get_hook("a").unwrap().entry, "second-a".to_string());
    // Lookup by a non-duplicated identifier returns the matching hook.
    assert_eq!(repo.get_hook("b").unwrap().entry, "only-b".to_string());
    // Lookup by an absent identifier returns empty.
    assert!(repo.get_hook("c").is_none());
}

#[test]
fn local_repo_looks_up_inline_hooks() {
    let repo = Repo::local(vec![manifest_hook("fmt", "run-fmt")], "/work").unwrap();
    assert_eq!(repo.get_hook("fmt").unwrap().entry, "run-fmt".to_string());
    assert!(repo.get_hook("lint").is_none());
}

#[test]
fn meta_repo_has_no_hooks() {
    assert!(Repo::meta().get_hook("anything").is_none());
}
