use my_cli_tool::decode::decode_output;
use my_cli_tool::executor::{lookup_builtin, Builtin};
use my_cli_tool::operands::{format_long_entry, ls_entries, ls_short_listing, parse_ls_args, EntryTime};
use my_cli_tool::parser::{parse_line, ParseError, Redirection};

fn words(line: &str) -> Vec<Vec<String>> {
    let p = match parse_line(line) {
        Ok(p) => p,
        Err(e) => panic!("{}", e.message()),
    };
    p.commands
        .iter()
        .map(|c| {
            let mut w = vec![c.name.clone()];
            w.extend(c.args.iter().cloned());
            w
        })
        .collect()
}

#[test]
fn parse_splits_stages_and_words() {
    assert_eq!(
        words("  echo 'a b' c |grep   x "),
        vec![vec!["echo", "a b", "c"], vec!["grep", "x"]]
    );
}

#[test]
fn parse_takes_the_last_redirection() {
    let p = parse_line("echo a > b > c.txt ").ok().unwrap();
    match p.redirection {
        Some(Redirection::ToFile(f)) => assert_eq!(f, "c.txt"),
        None => panic!("expected a redirection"),
    }
    assert_eq!(p.commands.len(), 1);
    assert_eq!(p.commands[0].args, vec!["a", ">", "b"]);
}

#[test]
fn parse_ignores_signs_inside_quotes() {
    assert_eq!(words("echo 'a | b > c'"), vec![vec!["echo", "a | b > c"]]);
    assert_eq!(words("echo \"x|y\" | grep y"), vec![vec!["echo", "x|y"], vec!["grep", "y"]]);
}

#[test]
fn parse_errors() {
    assert!(matches!(parse_line("ls >"), Err(ParseError::EmptyRedirectionTarget)));
    assert!(matches!(parse_line("ls | "), Err(ParseError::EmptyPipelineStage)));
    assert!(matches!(parse_line(""), Err(ParseError::EmptyPipelineStage)));
    match parse_line("echo \"open | grep x") {
        Err(ParseError::UnbalancedQuote(t)) => assert_eq!(t, "echo \"open | grep x"),
        _ => panic!("expected a quoting error"),
    }
    assert_eq!(
        ParseError::UnbalancedQuote("a'".to_string()).message(),
        "Invalid quoting: 'a''"
    );
}

#[test]
fn parse_again_gives_the_same_pipeline() {
    let first = words("echo  a   b|grep a > out");
    let again = words("echo a b | grep a > out");
    assert_eq!(first, again);
}

#[test]
fn ls_arguments() {
    let o = parse_ls_args(&["-al", "dir"]).ok().unwrap();
    assert!(o.show_hidden && o.long_format);
    assert_eq!(o.target, "dir");
    let o = parse_ls_args(&[]).ok().unwrap();
    assert!(!o.show_hidden && !o.long_format);
    assert_eq!(o.target, ".");
    let o = parse_ls_args(&["a", "-l", "b"]).ok().unwrap();
    assert_eq!(o.target, "b");
    assert_eq!(parse_ls_args(&["-lz"]).err().unwrap(), "ls: invalid option -- 'z'\n");
}

#[test]
fn builtin_table() {
    assert_eq!(lookup_builtin("ls"), Some(Builtin::Ls));
    assert_eq!(lookup_builtin("unalias"), Some(Builtin::Unalias));
    assert_eq!(lookup_builtin("mv"), Some(Builtin::Mv));
    assert_eq!(lookup_builtin("sort"), None);
    assert_eq!(lookup_builtin("LS"), None);
}

#[test]
fn decoding_program_output() {
    assert_eq!(decode_output("héllo".as_bytes(), false), "héllo");
    assert_eq!(decode_output(&[0x61, 0xff, 0x62], false), "a\u{fffd}b");
    assert_eq!(decode_output(&[0xc7, 0xd1], true), "\u{d55c}");
    assert_eq!(decode_output(&[], true), "");
}

#[test]
fn ls_listing_filters_and_sorts() {
    let names = vec![
        "src".to_string(),
        ".hidden".to_string(),
        "Cargo.toml".to_string(),
        "b".to_string(),
    ];
    let shown = ls_entries(names.clone(), false);
    assert_eq!(shown, vec!["Cargo.toml", "b", "src"]);
    assert_eq!(ls_short_listing(&shown), "Cargo.toml\nb\nsrc\n");
    let all = ls_entries(names, true);
    assert_eq!(all, vec![".hidden", "Cargo.toml", "b", "src"]);
    assert_eq!(ls_short_listing(&Vec::new()), "");
}

#[test]
fn long_listing_line() {
    let time = EntryTime { month: 7, day: 4, hour: 9, minute: 5 };
    assert_eq!(
        format_long_entry(false, 12, &time, "file1.txt"),
        "-rwx------        12 Jul 04 09:05 file1.txt\n"
    );
    let time = EntryTime { month: 12, day: 31, hour: 23, minute: 59 };
    assert_eq!(
        format_long_entry(true, 123456789, &time, "dir"),
        "drwx------  123456789 Dec 31 23:59 dir\n"
    );
    assert_eq!(
        format_long_entry(false, 0, &time, "e"),
        format!("-{:<10} {:>8} Dec 31 23:59 e\n", "rwx------", 0)
    );
}
