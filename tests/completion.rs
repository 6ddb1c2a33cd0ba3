use my_cli_tool::completion::{starts_with, Autocompleter};
use my_cli_tool::history::CommandHistory;

fn completer(lines: &[&str]) -> Autocompleter {
    let mut history = CommandHistory::new();
    for line in lines {
        history.add(line.to_string());
    }
    Autocompleter::new(history)
}

#[test]
fn builtin_provider_test_builtin_command_suggestions() {
    let history = CommandHistory::new();
    let autocompleter = Autocompleter::new(history);

    let suggestions = autocompleter.get_suggestions("l", Vec::new());
    assert!(suggestions.contains(&"ls".to_string()));
    assert!(!suggestions.contains(&"cd".to_string()));

    let suggestions = autocompleter.get_suggestions("o", Vec::new());
    assert!(suggestions.contains(&"open".to_string()));

    // Should not suggest anything if there is a space
    let suggestions_with_space = autocompleter.get_suggestions("ls ", Vec::new());
    assert!(!suggestions_with_space.contains(&"ls".to_string()));
}

#[test]
fn autocompletion_test_builtin_command_suggestions() {
    let history = CommandHistory::new();
    let autocompleter = Autocompleter::new(history);

    let suggestions = autocompleter.get_suggestions("l", Vec::new());
    assert!(suggestions.contains(&"ls".to_string()));
    assert!(!suggestions.contains(&"cd".to_string()));

    let suggestions = autocompleter.get_suggestions("o", Vec::new());
    assert!(suggestions.contains(&"open".to_string()));
}

#[test]
fn history_provider_test_history_suggestions() {
    let mut history = CommandHistory::new();
    history.add("cmd1".to_string());
    history.add("cmd2".to_string());
    let autocompleter = Autocompleter::new(history);

    let suggestions = autocompleter.get_suggestions("", Vec::new());
    assert!(suggestions.contains(&"cmd1".to_string()));
    assert!(suggestions.contains(&"cmd2".to_string()));

    let suggestions = autocompleter.get_suggestions("cmd", Vec::new());
    assert!(suggestions.contains(&"cmd1".to_string()));
    assert!(suggestions.contains(&"cmd2".to_string()));

    // Should not suggest the exact match
    let suggestions_exact = autocompleter.get_suggestions("cmd1", Vec::new());
    assert!(!suggestions_exact.contains(&"cmd1".to_string()));
}

#[test]
fn autocompletion_test_history_suggestions() {
    let mut history = CommandHistory::new();
    history.add("cmd1".to_string());
    history.add("cmd2".to_string());
    let autocompleter = Autocompleter::new(history);

    let suggestions = autocompleter.get_suggestions("", Vec::new());
    assert!(suggestions.contains(&"cmd1".to_string()));
    assert!(suggestions.contains(&"cmd2".to_string()));

    let suggestions = autocompleter.get_suggestions("cmd", Vec::new());
    assert!(suggestions.contains(&"cmd1".to_string()));
    assert!(suggestions.contains(&"cmd2".to_string()));
}

#[test]
fn provider_results_in_detail() {
    let c = completer(&["cmd1", "cmd2", "other", "cmd"]);
    assert_eq!(c.get_history_suggestions("cmd"), vec!["cmd2", "cmd1"]);
    assert_eq!(c.get_history_suggestions(""), vec!["cmd", "other", "cmd2", "cmd1"]);
    assert!(c.get_history_suggestions("zzz").is_empty());
    assert_eq!(c.get_builtin_suggestions("op"), vec!["open"]);
    assert_eq!(c.get_builtin_suggestions("c"), vec!["cd", "clear", "cp"]);
    assert!(c.get_builtin_suggestions("ls -l").is_empty());
    assert_eq!(c.get_builtin_suggestions("").len(), 9);
}

#[test]
fn history_suggestions_for_empty_input_are_the_five_newest() {
    let c = completer(&["a1", "a2", "a3", "a4", "a5", "a6", "a7"]);
    assert_eq!(c.get_history_suggestions(""), vec!["a7", "a6", "a5", "a4", "a3"]);
}

#[test]
fn suggestions_are_sorted_and_unique() {
    let c = completer(&["cd src", "cat x"]);
    let paths = vec!["cd target/".to_string(), "cd src".to_string()];
    assert_eq!(
        c.get_suggestions("c", paths),
        vec!["cat x", "cd", "cd src", "cd target/", "clear", "cp"]
    );
}

#[test]
fn prefix_test() {
    assert!(starts_with("open", "op"));
    assert!(starts_with("open", ""));
    assert!(!starts_with("op", "open"));
    assert!(!starts_with("ls", "lx"));
}
