use hookrun::config::ManifestHook;
use hookrun::hook::Hook;
use hookrun::languages::Language;
use hookrun::languages::docker_image::DockerImage;
use hookrun::run::{combine_results, partition};

fn image_hook(entry: &str, args: Option<Vec<String>>) -> Hook {
    Hook(ManifestHook {
        id: "img".to_string(),
        name: "img".to_string(),
        entry: entry.to_string(),
        language: Language::DockerImage,
        alias: None,
        files: None,
        exclude: None,
        types: None,
        types_or: None,
        exclude_types: None,
        additional_dependencies: None,
        args,
        always_run: None,
        verbose: None,
        log_file: None,
        language_version: None,
        stages: None,
    })
}

#[test]
fn partition_splits_250_files_under_cap_100_into_3_batches() {
    let filenames: Vec<String> = (0..250).map(|i| format!("file-{i}")).collect();
    let batches = partition(&filenames, 100);
    assert_eq!(batches.len(), 3);
    assert_eq!(batches[0].len(), 100);
    assert_eq!(batches[1].len(), 100);
    assert_eq!(batches[2].len(), 50);
    let flat: Vec<String> = batches.into_iter().flatten().collect();
    assert_eq!(flat, filenames);
}

#[test]
fn partition_of_empty_list_is_empty() {
    let batches = partition(&Vec::new(), 7);
    assert!(batches.is_empty());
}

#[test]
fn partition_keeps_order_with_small_cap() {
    let filenames: Vec<String> = vec!["a".to_string(), "b".to_string(), "c".to_string()];
    let batches = partition(&filenames, 2);
    assert_eq!(batches, vec![vec!["a".to_string(), "b".to_string()], vec!["c".to_string()]]);
}

#[test]
fn combine_propagates_single_nonzero_code_and_concatenates_output() {
    let results = vec![
        (0, b"out1err1".to_vec()),
        (1, b"out2err2".to_vec()),
        (0, b"out3err3".to_vec()),
    ];
    let (code, output) = combine_results(&results);
    assert_eq!(code, 1);
    assert_eq!(output, b"out1err1out2err2out3err3".to_vec());
}

#[test]
fn combine_ors_exit_codes_bitwise() {
    let results = vec![(4, Vec::new()), (1, Vec::new()), (4, Vec::new())];
    let (code, _) = combine_results(&results);
    assert_eq!(code, 5);
}

#[test]
fn combine_is_insensitive_to_batch_boundaries() {
    // The same per-invocation codes grouped at different boundaries give
    // the same combined exit code.
    let fine = vec![(0, Vec::new()), (2, Vec::new()), (1, Vec::new()), (0, Vec::new())];
    let (code_fine, _) = combine_results(&fine);
    let left = combine_results(&vec![(0, Vec::new()), (2, Vec::new())]);
    let right = combine_results(&vec![(1, Vec::new()), (0, Vec::new())]);
    let (code_grouped, _) = combine_results(&vec![(left.0, left.1), (right.0, right.1)]);
    assert_eq!(code_fine, code_grouped);
    assert_eq!(code_fine, 3);
}

#[test]
fn combine_of_no_results_is_clean() {
    let (code, output) = combine_results(&Vec::new());
    assert_eq!(code, 0);
    assert!(output.is_empty());
}

#[test]
fn image_run_command_tokenizes_entry_and_appends_args() {
    let hook = image_hook("check --level \"a b\"", Some(vec!["--fix".to_string()]));
    let cmd = DockerImage.run_command(&hook).unwrap();
    assert_eq!(
        cmd,
        vec![
            "check".to_string(),
            "--level".to_string(),
            "a b".to_string(),
            "--fix".to_string(),
        ],
    );
}

#[test]
fn image_run_command_without_args_is_just_the_tokenized_entry() {
    let hook = image_hook("run-me now", None);
    let cmd = DockerImage.run_command(&hook).unwrap();
    assert_eq!(cmd, vec!["run-me".to_string(), "now".to_string()]);
}

#[test]
fn image_run_command_rejects_untokenizable_entry() {
    let hook = image_hook("broken \"quote", None);
    match DockerImage.run_command(&hook) {
        Err(hookrun::hook::Error::InvalidEntry { entry }) => {
            assert_eq!(entry, "broken \"quote".to_string());
        },
        _ => panic!("expected tokenization failure to be a configuration error"),
    }
}

#[test]
fn image_toolchain_is_environment_free() {
    assert!(!DockerImage.supports_dependency());
    let hook = image_hook("echo", None);
    match DockerImage.resolve(&hook) {
        Ok(hookrun::hook::ResolvedHook::NoNeedInstall(h)) => {
            assert_eq!(h.0.id, "img".to_string());
        },
        _ => panic!("expected no environment to be needed"),
    }
    assert!(DockerImage.install(&DockerImage.resolve(&hook).unwrap()).is_ok());
    assert!(DockerImage.check_health().is_ok());
}
