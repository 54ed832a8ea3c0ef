use rt::zsh_autocomplete::{
    get_completion_items, get_zsh_autocomplete_code, get_zsh_autocompletion, zsh_escape,
    CompletionItems,
};

fn two_runners() -> Vec<(String, Vec<String>)> {
    vec![
        (
            "runner1".to_string(),
            vec!["foo".to_string(), "bar".to_string()],
        ),
        ("runner2".to_string(), vec!["foobar".to_string()]),
    ]
}

#[test]
fn test_get_completion_tasks() {
    let runners = two_runners();

    let result = get_completion_items(&runners, "rt ");
    let CompletionItems::Tasks(tasks) = result else {
        panic!("Expected CompletionItems::Tasks");
    };
    assert_eq!(tasks.len(), 3);

    // lbuffer with two words and space
    let result = get_completion_items(&runners, "rt build ");
    assert!(matches!(result, CompletionItems::Files));

    // lbuffer with three words
    let result = get_completion_items(&runners, "rt build something");
    assert!(matches!(result, CompletionItems::Files));

    // lbuffer with partial word
    let result = get_completion_items(&runners, "rt fo");

    let CompletionItems::Tasks(tasks) = result else {
        panic!("Expected CompletionItems::Tasks");
    };

    // Intentionally return bar too because zsh will do the final filtering
    assert_eq!(
        tasks,
        vec![
            ("runner1".to_string(), "foo".to_string()),
            ("runner1".to_string(), "bar".to_string()),
            ("runner2".to_string(), "foobar".to_string())
        ]
    );
}

#[test]
fn test_combined_with_other_commands() {
    let runners = vec![(
        "runner1".to_string(),
        vec!["foo".to_string(), "bar".to_string()],
    )];

    let result = get_completion_items(&runners, "ls && rt fo");
    let CompletionItems::Tasks(tasks) = result else {
        panic!("Expected CompletionItems::Tasks");
    };
    assert_eq!(tasks.len(), 2);

    let result = get_completion_items(&runners, "ls && ls && rt fo");
    let CompletionItems::Tasks(tasks) = result else {
        panic!("Expected CompletionItems::Tasks");
    };
    assert_eq!(tasks.len(), 2);

    let result = get_completion_items(&runners, "ls&&rt fo");
    let CompletionItems::Tasks(tasks) = result else {
        panic!("Expected CompletionItems::Tasks");
    };
    assert_eq!(tasks.len(), 2);

    let result = get_completion_items(&runners, "ls;rt fo");
    let CompletionItems::Tasks(tasks) = result else {
        panic!("Expected CompletionItems::Tasks");
    };
    assert_eq!(tasks.len(), 2);

    let result = get_completion_items(&runners, "ls; rt fo");
    let CompletionItems::Tasks(tasks) = result else {
        panic!("Expected CompletionItems::Tasks");
    };
    assert_eq!(tasks.len(), 2);

    let result = get_completion_items(&runners, "ls ; rt fo");
    let CompletionItems::Tasks(tasks) = result else {
        panic!("Expected CompletionItems::Tasks");
    };
    assert_eq!(tasks.len(), 2);
}

#[test]
fn test_zsh_escape_escapes_colons() {
    assert_eq!(zsh_escape("a:b"), "a\\:b");
    assert_eq!(zsh_escape("plain"), "plain");
    assert_eq!(zsh_escape("::"), "\\:\\:");
}

#[test]
fn test_files_snippet() {
    let code = get_zsh_autocomplete_code(&CompletionItems::Files);

    assert_eq!(code, "_files .\n");
}

#[test]
fn test_tasks_snippet_rendering() {
    let items = CompletionItems::Tasks(vec![("runner1".to_string(), "foo".to_string())]);
    let code = get_zsh_autocomplete_code(&items);

    assert_eq!(
        code,
        "local -a _rt_tasks\n_rt_tasks=( 'foo:from runner1' )\n_describe 'task' _rt_tasks\n"
    );
}

#[test]
fn test_tasks_snippet_escapes_separator() {
    let items = CompletionItems::Tasks(vec![("scripts:./bin".to_string(), "a:b".to_string())]);
    let code = get_zsh_autocomplete_code(&items);

    assert!(code.contains("'a\\:b:from scripts\\:./bin' "));
}

#[test]
fn test_autocompletion_end_to_end() {
    let runners = two_runners();

    let code = get_zsh_autocompletion(&runners, "rt build tar", "");
    assert_eq!(code, "_files .\n");

    let code = get_zsh_autocompletion(&runners, "rt ", "");
    assert!(code.starts_with("local -a _rt_tasks\n"));
    assert!(code.contains("'foo:from runner1' "));
    assert!(code.contains("'bar:from runner1' "));
    assert!(code.contains("'foobar:from runner2' "));
}
