use rt::jake::JakeRunner;
use rt::npm::NpmRunner;
use rt::registry::{
    build_runners, default_selections, parse_runner_config, validate_choice, DispatchPlan,
    Registry, Runner, RunnerSel,
};
use rt::scripts::{FileEntry, ScriptsRunner};

fn npm_runner_with(json: &str) -> Runner {
    let mut r = NpmRunner::new();
    r.load_from_manifest(Some(json)).unwrap();
    Runner::Npm(r)
}

fn jake_runner_with(code: &str) -> Runner {
    let mut r = JakeRunner::new();
    r.load_from_source(Some(code)).unwrap();
    Runner::Jake(r)
}

fn scripts_runner_with(dir: &str, entries: Vec<FileEntry>) -> Runner {
    let mut r = ScriptsRunner::new(dir.to_string());
    r.load_from_entries(Some(&entries));
    Runner::Scripts(r)
}

fn entry(name: &str, is_file: bool, executable: bool) -> FileEntry {
    FileEntry {
        name: name.to_string(),
        is_file,
        executable,
    }
}

#[test]
fn test_executable_directory_discovery() {
    // a directory holding `a` (mode 644), `b` (mode 755) and a
    // subdirectory `c`: only `b` is a task
    let runner = scripts_runner_with(
        "./scripts",
        vec![
            entry("a", true, false),
            entry("b", true, true),
            entry("c", false, true),
        ],
    );

    assert_eq!(runner.tasks(), &vec!["b".to_string()]);
}

#[test]
fn test_missing_directory_is_empty() {
    let mut r = ScriptsRunner::new("./scripts".to_string());
    r.load_from_entries(None);

    assert!(r.tasks().is_empty());
}

#[test]
fn test_scripts_runner_name() {
    let r = ScriptsRunner::new("./tools".to_string());

    assert_eq!(r.name(), "scripts:./tools");
}

#[test]
fn test_scripts_command_plan() {
    let r = ScriptsRunner::new("./scripts".to_string());
    let plan = r.command_plan("deploy", &vec!["now".to_string()]);

    assert_eq!(plan.program, "./scripts/deploy");
    assert_eq!(plan.args, vec!["deploy".to_string(), "now".to_string()]);
}

#[test]
fn test_resolve_keeps_configuration_order() {
    let registry = Registry::new(vec![
        npm_runner_with(r#"{"scripts": {"build": "x", "only-npm": "y"}}"#),
        jake_runner_with(r#"task("build"); task("only-jake");"#),
    ]);

    assert_eq!(registry.resolve("build"), vec![0, 1]);
    assert_eq!(registry.resolve("only-npm"), vec![0]);
    assert_eq!(registry.resolve("only-jake"), vec![1]);
    assert_eq!(registry.resolve("nope"), Vec::<usize>::new());
}

#[test]
fn test_dispatch_unknown_task_message() {
    let registry = Registry::new(vec![npm_runner_with(r#"{"scripts": {"build": "x"}}"#)]);

    let plan = registry.plan_dispatch("missing");
    let DispatchPlan::Unknown(err) = plan else {
        panic!("expected an unknown-task plan");
    };
    assert_eq!(err.message(), "Unknown task 'missing'");
}

#[test]
fn test_dispatch_unique_and_ambiguous() {
    let registry = Registry::new(vec![
        npm_runner_with(r#"{"scripts": {"build": "x"}}"#),
        jake_runner_with(r#"task("build");"#),
    ]);

    assert!(matches!(
        registry.plan_dispatch("build"),
        DispatchPlan::Choose(v) if v == vec![0, 1]
    ));

    let registry = Registry::new(vec![npm_runner_with(r#"{"scripts": {"build": "x"}}"#)]);
    assert!(matches!(
        registry.plan_dispatch("build"),
        DispatchPlan::Run(0)
    ));
}

#[test]
fn test_all_tasks_pairs() {
    let registry = Registry::new(vec![
        npm_runner_with(r#"{"scripts": {"build": "x"}}"#),
        jake_runner_with(r#"task("deploy");"#),
    ]);

    assert_eq!(
        registry.all_tasks(),
        vec![
            ("package.json".to_string(), "build".to_string()),
            ("jake".to_string(), "deploy".to_string())
        ]
    );
}

#[test]
fn test_name_task_lists() {
    let registry = Registry::new(vec![jake_runner_with(r#"task("a"); task("b");"#)]);

    let lists = registry.name_task_lists();
    assert_eq!(lists.len(), 1);
    assert_eq!(lists[0].0, "jake");
    assert_eq!(lists[0].1, vec!["a".to_string(), "b".to_string()]);
}

#[test]
fn test_validate_choice() {
    assert_eq!(validate_choice("1", 3), Some(1));
    assert_eq!(validate_choice("3\n", 3), Some(3));
    assert_eq!(validate_choice(" 2 ", 3), Some(2));
    assert_eq!(validate_choice("", 3), Some(1));
    assert_eq!(validate_choice("0", 3), None);
    assert_eq!(validate_choice("4", 3), None);
    assert_eq!(validate_choice("x", 3), None);
}

#[test]
fn test_parse_runner_config() {
    let sels = parse_runner_config("package.json,jakefile,composer.json,scripts:./sc,weird");

    assert_eq!(sels.len(), 5);
    assert!(matches!(sels[0], RunnerSel::Npm));
    assert!(matches!(sels[1], RunnerSel::Jake));
    assert!(matches!(sels[2], RunnerSel::Composer));
    assert!(matches!(&sels[3], RunnerSel::Scripts(d) if d == "./sc"));
    assert!(matches!(&sels[4], RunnerSel::Unknown(u) if u == "weird"));
}

#[test]
fn test_parse_runner_config_skips_empty_pieces() {
    assert!(parse_runner_config("").is_empty());
    assert!(parse_runner_config(",,").is_empty());

    let sels = parse_runner_config(",jakefile,");
    assert_eq!(sels.len(), 1);
    assert!(matches!(sels[0], RunnerSel::Jake));
}

#[test]
fn test_default_selections() {
    let sels = default_selections();

    assert_eq!(sels.len(), 6);
    assert!(matches!(sels[0], RunnerSel::Npm));
    assert!(matches!(sels[1], RunnerSel::Jake));
    assert!(matches!(sels[2], RunnerSel::Composer));
    assert!(matches!(&sels[3], RunnerSel::Scripts(d) if d == "./scripts"));
    assert!(matches!(&sels[4], RunnerSel::Scripts(d) if d == "./tools"));
    assert!(matches!(&sels[5], RunnerSel::Scripts(d) if d == "./bin"));
}

#[test]
fn test_build_runners() {
    let sels = vec![
        RunnerSel::Npm,
        RunnerSel::Unknown("weird".to_string()),
        RunnerSel::Scripts("./bin".to_string()),
    ];
    let runners = build_runners(&sels);

    assert_eq!(runners.len(), 2);
    assert_eq!(runners[0].name(), "package.json");
    assert_eq!(runners[1].name(), "scripts:./bin");
}

#[test]
fn test_directory_discovery_twice_yields_identical_tasks() {
    let entries = vec![entry("x", true, true), entry("y", true, false)];
    let mut first = ScriptsRunner::new("./scripts".to_string());
    first.load_from_entries(Some(&entries));
    let mut second = ScriptsRunner::new("./scripts".to_string());
    second.load_from_entries(Some(&entries));

    assert_eq!(first.tasks(), second.tasks());
}
