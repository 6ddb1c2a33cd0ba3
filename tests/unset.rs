use my_cli_tool::builtins::unset_builtin;
use my_cli_tool::table::VarTable;

#[test]
fn test_unset_existing_var() {
    let mut env_vars = VarTable::new();
    env_vars.insert("MY_VAR".to_string(), "test_value".to_string());

    let args = vec!["MY_VAR"];
    let output = unset_builtin(&mut env_vars, &args);
    assert!(output.is_empty());
    assert!(env_vars.get("MY_VAR").is_none());
}

#[test]
fn test_unset_nonexistent_var() {
    let mut env_vars = VarTable::new();
    let args = vec!["NON_EXISTENT_VAR"];
    let output = unset_builtin(&mut env_vars, &args);
    assert_eq!(output, "unset: NON_EXISTENT_VAR: not found\n");
}

#[test]
fn test_unset_multiple_vars() {
    let mut env_vars = VarTable::new();
    env_vars.insert("VAR1".to_string(), "value1".to_string());
    env_vars.insert("VAR2".to_string(), "value2".to_string());

    let args = vec!["VAR1", "VAR2"];
    let output = unset_builtin(&mut env_vars, &args);
    assert!(output.is_empty());
    assert!(env_vars.get("VAR1").is_none());
    assert!(env_vars.get("VAR2").is_none());
}

#[test]
fn test_unset_usage() {
    let mut env_vars = VarTable::new();
    let args: Vec<&str> = vec![];
    let output = unset_builtin(&mut env_vars, &args);
    assert_eq!(output, "unset: usage: unset <variable_name>\n");
}

#[test]
fn unset_stops_at_first_unknown_name() {
    let mut env_vars = VarTable::new();
    env_vars.insert("A".to_string(), "1".to_string());
    env_vars.insert("C".to_string(), "3".to_string());
    let output = unset_builtin(&mut env_vars, &["A", "B", "C"]);
    assert_eq!(output, "unset: B: not found\n");
    assert!(env_vars.get("A").is_none());
    assert_eq!(env_vars.get("C"), Some(&"3".to_string()));
}
