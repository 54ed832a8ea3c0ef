use rt::composer::ComposerRunner;
use rt::npm::NpmRunner;

#[test]
fn test_npm_scripts_are_discovered() {
    let json = r#"{"name": "x", "scripts": {"build": "tsc", "test": "jest"}}"#;
    let mut runner = NpmRunner::new();
    runner.load_from_manifest(Some(json)).unwrap();

    assert_eq!(
        runner.tasks(),
        &vec!["build".to_string(), "test".to_string()]
    );
}

#[test]
fn test_npm_non_string_script_values_are_skipped() {
    let json = r#"{"scripts": {"build": "tsc", "broken": {"cmd": "x"}, "n": 3}}"#;
    let mut runner = NpmRunner::new();
    runner.load_from_manifest(Some(json)).unwrap();

    assert_eq!(runner.tasks(), &vec!["build".to_string()]);
}

#[test]
fn test_npm_without_scripts_is_empty() {
    let mut runner = NpmRunner::new();
    runner.load_from_manifest(Some(r#"{"name": "x"}"#)).unwrap();

    assert!(runner.tasks().is_empty());
}

#[test]
fn test_npm_scripts_not_an_object_is_empty() {
    let mut runner = NpmRunner::new();
    runner
        .load_from_manifest(Some(r#"{"scripts": ["a", "b"]}"#))
        .unwrap();

    assert!(runner.tasks().is_empty());
}

#[test]
fn test_npm_missing_manifest_is_empty_and_ok() {
    let mut runner = NpmRunner::new();
    let result = runner.load_from_manifest(None);

    assert!(result.is_ok());
    assert!(runner.tasks().is_empty());
}

#[test]
fn test_npm_invalid_json_error_names_the_file() {
    let mut runner = NpmRunner::new();
    let err = runner.load_from_manifest(Some("{not json")).unwrap_err();

    assert!(err.message().contains("package.json"));
}

#[test]
fn test_npm_runner_name() {
    assert_eq!(NpmRunner::new().name(), "package.json");
}

#[test]
fn test_npm_command_plan_prefers_pnpm() {
    let runner = NpmRunner::new();
    let plan = runner.command_plan("build", &vec!["--x".to_string()], true, true);

    assert_eq!(plan.program, "pnpm");
    assert_eq!(
        plan.args,
        vec!["run".to_string(), "build".to_string(), "--x".to_string()]
    );
}

#[test]
fn test_npm_command_plan_yarn() {
    let runner = NpmRunner::new();
    let plan = runner.command_plan("build", &vec![], false, true);

    assert_eq!(plan.program, "yarn");
    assert_eq!(plan.args, vec!["run".to_string(), "build".to_string()]);
}

#[test]
fn test_npm_command_plan_default() {
    let runner = NpmRunner::new();
    let plan = runner.command_plan("build", &vec!["--x".to_string()], false, false);

    assert_eq!(plan.program, "npm");
    assert_eq!(
        plan.args,
        vec![
            "run".to_string(),
            "build".to_string(),
            "--".to_string(),
            "--x".to_string()
        ]
    );
}

#[test]
fn test_composer_scripts_are_discovered() {
    let json = r#"{"scripts": {"lint": "phpcs", "fix": 7}}"#;
    let mut runner = ComposerRunner::new();
    runner.load_from_manifest(Some(json)).unwrap();

    assert_eq!(runner.tasks(), &vec!["lint".to_string()]);
}

#[test]
fn test_composer_invalid_json_error_names_the_file() {
    let mut runner = ComposerRunner::new();
    let err = runner.load_from_manifest(Some("]")).unwrap_err();

    assert!(err.message().contains("composer.json"));
}

#[test]
fn test_composer_runner_name() {
    assert_eq!(ComposerRunner::new().name(), "composer.json");
}

#[test]
fn test_composer_command_plan() {
    let runner = ComposerRunner::new();
    let plan = runner.command_plan("lint", &vec!["src".to_string()]);

    assert_eq!(plan.program, "composer");
    assert_eq!(
        plan.args,
        vec!["lint".to_string(), "--".to_string(), "src".to_string()]
    );
}

#[test]
fn test_npm_discovery_twice_yields_identical_tasks() {
    let json = r#"{"scripts": {"a": "1", "b": "2"}}"#;
    let mut first = NpmRunner::new();
    first.load_from_manifest(Some(json)).unwrap();
    let mut second = NpmRunner::new();
    second.load_from_manifest(Some(json)).unwrap();

    assert_eq!(first.tasks(), second.tasks());
}
