use rt::jake::{source_task_names, JakeRunner};

fn parse_tasks(code: &str) -> Vec<String> {
    source_task_names(code).unwrap()
}

#[test]
fn test_parse_task_with_function() {
    let code = r#"task("ding", () => {});"#;
    let tasks = parse_tasks(code);

    assert_eq!(tasks, vec!["ding".to_string()]);
}

#[test]
fn test_parse_multiple_tasks() {
    let code = r#"
            task("ding", () => {});
            task("dong", () => {});
        "#;
    let tasks = parse_tasks(code);

    assert_eq!(tasks, vec!["ding".to_string(), "dong".to_string()]);
}

#[test]
fn test_parse_task_with_function2() {
    let code = r#"task ( "ding", aFunction);"#;
    let tasks = parse_tasks(code);

    assert_eq!(tasks, vec!["ding".to_string()]);
}

#[test]
fn test_parse_task_with_async_function() {
    let code = r#"task("ding", async ()=>{});"#;
    let tasks = parse_tasks(code);

    assert_eq!(tasks, vec!["ding".to_string()]);
}

#[test]
fn test_does_not_parse_wrong_functions() {
    let code = r#"wrong( "ding", aFunction);"#;
    let tasks = parse_tasks(code);

    assert!(tasks.is_empty());
}

#[test]
fn test_does_not_parse_nested_tasks() {
    let code = r#"
            function aFunction() {
                task("ding", () => {});
            }
            "#;
    let tasks = parse_tasks(code);

    assert!(tasks.is_empty());
}

#[test]
fn test_non_string_first_argument_is_skipped() {
    let tasks = parse_tasks("task(x); task();");

    assert!(tasks.is_empty());
}

#[test]
fn test_escaped_literal_is_decoded() {
    let tasks = parse_tasks(r#"task("di\"ng", () => {});"#);

    assert_eq!(tasks, vec!["di\"ng".to_string()]);
}

#[test]
fn test_method_call_is_not_a_declaration() {
    let tasks = parse_tasks(r#"obj.task("ding");"#);

    assert!(tasks.is_empty());
}

#[test]
fn test_missing_source_is_empty_and_ok() {
    let mut runner = JakeRunner::new();
    let result = runner.load_from_source(None);

    assert!(result.is_ok());
    assert!(runner.tasks().is_empty());
}

#[test]
fn test_invalid_source_error_names_the_file() {
    let mut runner = JakeRunner::new();
    let result = runner.load_from_source(Some("function ((("));

    let err = result.unwrap_err();
    assert!(err.message().contains("jakefile.js"));
}

#[test]
fn test_discovery_twice_yields_identical_tasks() {
    let code = r#"task("a"); task("b");"#;
    let mut first = JakeRunner::new();
    first.load_from_source(Some(code)).unwrap();
    let mut second = JakeRunner::new();
    second.load_from_source(Some(code)).unwrap();

    assert_eq!(first.tasks(), second.tasks());
}
