use rt::errors::RtError;
use rt::moon::MoonRunner;

fn parse_moon_yml(content: &str) -> Result<Vec<String>, RtError> {
    let mut runner = MoonRunner::new();
    runner.load_from_config(Some(content))?;
    Ok(runner.tasks().clone())
}

#[test]
fn test_parse_simple_tasks() {
    let yaml = r#"
language: "rust"
type: "application"

tasks:
  build:
    description: "Build the project"
    command: "cargo build"

  test:
    description: "Run tests"
    command: "cargo test"
"#;
    let tasks = parse_moon_yml(yaml).unwrap();

    assert_eq!(tasks.len(), 2);
    assert!(tasks.contains(&"build".to_string()));
    assert!(tasks.contains(&"test".to_string()));
}

#[test]
fn test_parse_complex_tasks() {
    let yaml = r#"
language: "rust"
type: "application"

fileGroups:
  sources:
    - "src/**/*"
  configs:
    - "Cargo.toml"

tasks:
  build:
    description: "Build server binary"
    command: "cargo build --bin server"
    inputs:
      - "@group(sources)"
      - "@group(configs)"
    outputs:
      - "target/debug/server"
    options:
      cache: true
      runInCI: true
    deps:
      - "ui:build"

  test-unit:
    description: "Run unit tests"
    command: "cargo nextest run"
    inputs:
      - "@group(sources)"
    options:
      cache: false

  lint:
    command: "cargo clippy"
"#;
    let tasks = parse_moon_yml(yaml).unwrap();

    assert_eq!(tasks.len(), 3);
    assert!(tasks.contains(&"build".to_string()));
    assert!(tasks.contains(&"test-unit".to_string()));
    assert!(tasks.contains(&"lint".to_string()));
}

#[test]
fn test_parse_tasks_without_description() {
    let yaml = r#"
tasks:
  build:
    command: "cargo build"

  test:
    command: "cargo test"
"#;
    let tasks = parse_moon_yml(yaml).unwrap();

    assert_eq!(tasks.len(), 2);
    assert!(tasks.contains(&"build".to_string()));
    assert!(tasks.contains(&"test".to_string()));
}

#[test]
fn test_parse_empty_tasks() {
    let yaml = r#"
language: "rust"
tasks: {}
"#;
    let tasks = parse_moon_yml(yaml).unwrap();

    assert_eq!(tasks.len(), 0);
}

#[test]
fn test_parse_tasks_only() {
    let yaml = r#"
tasks:
  dev:
    command: "npm run dev"
  start:
    command: "npm start"
  deploy:
    command: "npm run deploy"
"#;
    let tasks = parse_moon_yml(yaml).unwrap();

    assert_eq!(tasks.len(), 3);
    assert!(tasks.contains(&"dev".to_string()));
    assert!(tasks.contains(&"start".to_string()));
    assert!(tasks.contains(&"deploy".to_string()));
}

#[test]
fn test_parse_invalid_yaml() {
    let yaml = r#"
this is not: valid: yaml:::
  - invalid
"#;
    let result = parse_moon_yml(yaml);

    assert!(result.is_err());
}

#[test]
fn test_parse_yaml_without_tasks() {
    let yaml = r#"
language: "rust"
type: "application"
fileGroups:
  sources:
    - "src/**/*"
"#;
    let tasks = parse_moon_yml(yaml).unwrap();

    assert_eq!(tasks.len(), 0);
}

#[test]
fn test_runner_name() {
    let runner = MoonRunner::new();
    assert_eq!(runner.name(), "moon.yml");
}

#[test]
fn test_runner_initial_tasks() {
    let runner = MoonRunner::new();
    assert_eq!(runner.tasks().len(), 0);
}

#[test]
fn test_tasks_keep_document_order() {
    let yaml = "tasks:\n  zeta:\n    command: \"a\"\n  alpha:\n    command: \"b\"\n";
    let tasks = parse_moon_yml(yaml).unwrap();

    assert_eq!(tasks, vec!["zeta".to_string(), "alpha".to_string()]);
}

#[test]
fn test_parse_error_names_the_file() {
    let err = parse_moon_yml(": : :").unwrap_err();

    assert!(err.message().contains("moon.yml"));
}

#[test]
fn test_missing_config_is_empty_and_ok() {
    let mut runner = MoonRunner::new();
    let result = runner.load_from_config(None);

    assert!(result.is_ok());
    assert!(runner.tasks().is_empty());
}

#[test]
fn test_tasks_not_a_mapping_is_an_error() {
    let result = parse_moon_yml("tasks: 3\n");

    assert!(result.is_err());
}

#[test]
fn test_moon_command_plan() {
    let runner = MoonRunner::new();
    let plan = runner.command_plan("build", &vec!["--fast".to_string()]);

    assert_eq!(plan.program, "moon");
    assert_eq!(
        plan.args,
        vec!["run".to_string(), "build".to_string(), "--fast".to_string()]
    );
}
