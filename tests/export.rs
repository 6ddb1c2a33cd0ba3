use my_cli_tool::builtins::export_builtin;
use my_cli_tool::table::VarTable;

#[test]
fn test_export_set_new_var() {
    let mut env_vars = VarTable::new();
    let args = vec!["MY_VAR=test_value"];
    let output = export_builtin(&mut env_vars, &args);
    assert!(output.is_empty());
    assert_eq!(env_vars.get("MY_VAR"), Some(&"test_value".to_string()));
}

#[test]
fn test_export_display_all_vars() {
    let mut env_vars = VarTable::new();
    env_vars.insert("VAR1".to_string(), "value1".to_string());
    env_vars.insert("VAR2".to_string(), "value2".to_string());

    let output = export_builtin(&mut env_vars, &[]);
    assert!(output.contains("export VAR1=value1\n"));
    assert!(output.contains("export VAR2=value2\n"));
}

#[test]
fn test_export_display_single_var() {
    let mut env_vars = VarTable::new();
    env_vars.insert("MY_VAR".to_string(), "test_value".to_string());
    let args = vec!["MY_VAR"];
    let output = export_builtin(&mut env_vars, &args);
    assert_eq!(output, "export MY_VAR=test_value\n");
}

#[test]
fn test_export_var_not_found() {
    let mut env_vars = VarTable::new();
    let args = vec!["NON_EXISTENT_VAR"];
    let output = export_builtin(&mut env_vars, &args);
    assert_eq!(output, "export: NON_EXISTENT_VAR: not found\n");
}

#[test]
fn test_export_overwrite_var() {
    let mut env_vars = VarTable::new();
    env_vars.insert("MY_VAR".to_string(), "old_value".to_string());
    let args = vec!["MY_VAR=new_value"];
    let output = export_builtin(&mut env_vars, &args);
    assert!(output.is_empty());
    assert_eq!(env_vars.get("MY_VAR"), Some(&"new_value".to_string()));
}

#[test]
fn export_listing_when_empty() {
    let mut env_vars = VarTable::new();
    assert_eq!(
        export_builtin(&mut env_vars, &[]),
        "No environment variables defined in this session.\n"
    );
}

#[test]
fn export_splits_at_first_equals_sign() {
    let mut env_vars = VarTable::new();
    export_builtin(&mut env_vars, &["K=a=b", "E="]);
    assert_eq!(env_vars.get("K"), Some(&"a=b".to_string()));
    assert_eq!(env_vars.get("E"), Some(&"".to_string()));
    assert_eq!(env_vars.len(), 2);
}
