use my_cli_tool::history::CommandHistory;

#[test]
fn test_new_command_history() {
    let history = CommandHistory::new();
    assert!(history.history().is_empty());
    assert!(history.current_index().is_none());
}

#[test]
fn test_add_command() {
    let mut history = CommandHistory::new();
    history.add("cmd1".to_string());
    assert_eq!(*history.history(), vec!["cmd1"]);
    assert!(history.current_index().is_none());

    history.add("cmd2".to_string());
    assert_eq!(*history.history(), vec!["cmd1", "cmd2"]);

    // Test adding duplicate command
    history.add("cmd2".to_string());
    assert_eq!(*history.history(), vec!["cmd1", "cmd2"]);

    // Test adding empty command
    history.add("".to_string());
    assert_eq!(*history.history(), vec!["cmd1", "cmd2"]);
}

#[test]
fn test_navigate_up() {
    let mut history = CommandHistory::new();
    assert!(history.navigate_up().is_none()); // Empty history

    history.add("cmd1".to_string());
    history.add("cmd2".to_string());
    history.add("cmd3".to_string());

    assert_eq!(history.navigate_up(), Some("cmd3"));
    assert_eq!(history.current_index(), Some(2));

    assert_eq!(history.navigate_up(), Some("cmd2"));
    assert_eq!(history.current_index(), Some(1));

    assert_eq!(history.navigate_up(), Some("cmd1"));
    assert_eq!(history.current_index(), Some(0));

    assert_eq!(history.navigate_up(), Some("cmd1")); // At the beginning
    assert_eq!(history.current_index(), Some(0));
}

#[test]
fn test_navigate_down() {
    let mut history = CommandHistory::new();
    history.add("cmd1".to_string());
    history.add("cmd2".to_string());
    history.add("cmd3".to_string());

    // Navigate up first to set current_index
    history.navigate_up(); // cmd3
    history.navigate_up(); // cmd2
    history.navigate_up(); // cmd1

    assert_eq!(history.navigate_down(), Some("cmd2"));
    assert_eq!(history.current_index(), Some(1));

    assert_eq!(history.navigate_down(), Some("cmd3"));
    assert_eq!(history.current_index(), Some(2));

    assert!(history.navigate_down().is_none()); // At the end
    assert!(history.current_index().is_none());

    // Test navigate down from empty history (should return None)
    let mut empty_history = CommandHistory::new();
    assert!(empty_history.navigate_down().is_none());
}

#[test]
fn test_add_after_navigation() {
    let mut history = CommandHistory::new();
    history.add("cmd1".to_string());
    history.add("cmd2".to_string());
    history.navigate_up(); // cmd2
    history.add("cmd3".to_string());
    assert_eq!(*history.history(), vec!["cmd1", "cmd2", "cmd3"]);
    assert!(history.current_index().is_none());
}

#[test]
fn history_clone_keeps_entries_and_cursor() {
    let mut history = CommandHistory::new();
    history.add("a".to_string());
    history.add("b".to_string());
    history.navigate_up();
    let copy = history.clone();
    assert_eq!(*copy.history(), vec!["a", "b"]);
    assert_eq!(copy.current_index(), Some(1));
}
