use my_cli_tool::builtins::{echo_builtin, grep_builtin, grep_logic};
use my_cli_tool::table::VarTable;

#[test]
fn test_echo_builtin_no_args() {
    let env_vars = VarTable::new();
    let output = echo_builtin(&[], &env_vars);
    assert_eq!(output, "");
}

#[test]
fn test_echo_builtin_single_arg() {
    let env_vars = VarTable::new();
    let output = echo_builtin(&["hello"], &env_vars);
    assert_eq!(output, "hello");
}

#[test]
fn test_echo_builtin_multiple_args() {
    let env_vars = VarTable::new();
    let output = echo_builtin(&["hello", "world", "from", "rust"], &env_vars);
    assert_eq!(output, "hello world from rust");
}

#[test]
fn test_echo_builtin_with_special_chars() {
    let env_vars = VarTable::new();
    let output = echo_builtin(&["$PATH", "&&", "||", ">", "output.txt"], &env_vars);
    assert_eq!(output, "$PATH && || > output.txt");
}

#[test]
fn test_echo_builtin_with_newline_escape() {
    let env_vars = VarTable::new();
    let output = echo_builtin(&["hello\\nworld"], &env_vars);
    assert_eq!(output, "hello\nworld");
}

#[test]
fn test_echo_builtin_with_tab_escape() {
    let env_vars = VarTable::new();
    let output = echo_builtin(&["hello\\tworld"], &env_vars);
    assert_eq!(output, "hello\tworld");
}

#[test]
fn test_echo_builtin_env_var_expansion() {
    let mut env_vars = VarTable::new();
    env_vars.insert("MY_VAR".to_string(), "test_value".to_string());
    env_vars.insert("ANOTHER_VAR".to_string(), "another_value".to_string());

    let output = echo_builtin(&["Hello", "%MY_VAR%", "and", "%ANOTHER_VAR%"], &env_vars);
    assert_eq!(output, "Hello test_value and another_value");
}

#[test]
fn test_echo_builtin_nonexistent_env_var() {
    let env_vars = VarTable::new();
    let output = echo_builtin(&["Hello", "%NON_EXISTENT_VAR%"], &env_vars);
    assert_eq!(output, "Hello %NON_EXISTENT_VAR%");
}

#[test]
fn test_echo_builtin_env_var_with_no_value() {
    let mut env_vars = VarTable::new();
    env_vars.insert("EMPTY_VAR".to_string(), String::new());
    let output = echo_builtin(&["Value is: %EMPTY_VAR%"], &env_vars);
    assert_eq!(output, "Value is: ");
}

#[test]
fn echo_reference_rules() {
    let mut env_vars = VarTable::new();
    env_vars.insert("A".to_string(), "x".to_string());
    env_vars.insert("B".to_string(), "y".to_string());
    // Adjacent references, a digit start, a broken name and a lone sign.
    let output = echo_builtin(&["%A%%B%", "%1A%", "%A-B%", "100%"], &env_vars);
    assert_eq!(output, "xy %1A% %A-B% 100%");
    // Matching resumes after the closing sign of a replaced reference.
    assert_eq!(echo_builtin(&["%A%B%"], &env_vars), "xB%");
}

#[test]
fn test_grep_builtin_with_matches() {
    let pattern = "hello";
    let input_str = "hello world\ngoodbye world\nhello again\n";
    let result = grep_builtin(&[pattern], input_str).unwrap();
    assert_eq!(result, "hello world\nhello again\n");
}

#[test]
fn test_grep_builtin_no_matches() {
    let pattern = "rust";
    let input_str = "hello world\ngoodbye world\nhello again";
    let result = grep_builtin(&[pattern], input_str).unwrap();
    assert!(result.is_empty());
}

#[test]
fn test_grep_builtin_no_pattern() {
    let input_str = "hello world";
    let result = grep_builtin(&[], input_str);
    assert!(result.is_err());
    assert_eq!(result.unwrap_err(), "grep: missing pattern");
}

#[test]
fn grep_keeps_last_line_without_newline() {
    assert_eq!(grep_logic("b", "a\nb"), "b");
    assert_eq!(grep_logic("", "a\n\nb"), "a\n\nb");
    assert_eq!(grep_logic("x", ""), "");
}
