use my_cli_tool::builtins::alias_builtin;
use my_cli_tool::table::VarTable;

#[test]
fn test_set_new_alias() {
    let mut aliases = VarTable::new();
    let args = vec!["ll=ls -l"];
    let output = alias_builtin(&mut aliases, &args);
    assert!(output.is_empty());
    assert_eq!(aliases.get("ll"), Some(&"ls -l".to_string()));
}

#[test]
fn test_set_alias_with_quotes() {
    let mut aliases = VarTable::new();
    let args = vec!["greet=\"echo 'Hello World'\""];
    alias_builtin(&mut aliases, &args);
    assert_eq!(aliases.get("greet"), Some(&"echo 'Hello World'".to_string()));
}

#[test]
fn test_print_all_aliases() {
    let mut aliases = VarTable::new();
    aliases.insert("ll".to_string(), "ls -l".to_string());
    aliases.insert("c".to_string(), "clear".to_string());

    let output = alias_builtin(&mut aliases, &[]);
    assert!(output.contains("alias ll='ls -l'\n"));
    assert!(output.contains("alias c='clear'\n"));
}

#[test]
fn test_print_single_alias() {
    let mut aliases = VarTable::new();
    aliases.insert("ll".to_string(), "ls -l".to_string());
    let args = vec!["ll"];
    let output = alias_builtin(&mut aliases, &args);
    assert_eq!(output, "alias ll='ls -l'\n");
}

#[test]
fn test_alias_not_found() {
    let mut aliases = VarTable::new();
    let args = vec!["nonexistent"];
    let output = alias_builtin(&mut aliases, &args);
    assert_eq!(output, "alias: nonexistent: not found\n");
}

#[test]
fn test_unalias() {
    let mut aliases = VarTable::new();
    aliases.insert("ll".to_string(), "ls -l".to_string());

    let args = vec!["unalias", "ll"];
    let output = alias_builtin(&mut aliases, &args);
    assert_eq!(output, "Alias 'll' removed.\n");
    assert!(aliases.get("ll").is_none());
}

#[test]
fn test_unalias_not_found() {
    let mut aliases = VarTable::new();
    let args = vec!["unalias", "nonexistent"];
    let output = alias_builtin(&mut aliases, &args);
    assert_eq!(output, "unalias: nonexistent: not found\n");
}

#[test]
fn test_unalias_usage() {
    let mut aliases = VarTable::new();
    let args = vec!["unalias"];
    let output = alias_builtin(&mut aliases, &args);
    assert_eq!(output, "unalias: usage: unalias <alias_name>\n");
}

#[test]
fn alias_listing_when_empty() {
    let mut aliases = VarTable::new();
    assert_eq!(alias_builtin(&mut aliases, &[]), "No aliases defined.\n");
}

#[test]
fn alias_empty_value_removes() {
    let mut aliases = VarTable::new();
    aliases.insert("ll".to_string(), "ls -l".to_string());
    let output = alias_builtin(&mut aliases, &["ll="]);
    assert_eq!(output, "");
    assert!(aliases.get("ll").is_none());
}

#[test]
fn alias_lone_quote_is_kept() {
    let mut aliases = VarTable::new();
    alias_builtin(&mut aliases, &["q=\""]);
    assert_eq!(aliases.get("q"), Some(&"\"".to_string()));
}

#[test]
fn alias_listing_is_in_order_of_definition() {
    let mut aliases = VarTable::new();
    alias_builtin(&mut aliases, &["b=two", "a=one"]);
    assert_eq!(alias_builtin(&mut aliases, &[]), "alias b='two'\nalias a='one'\n");
}
