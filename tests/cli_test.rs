use zifu::cli::process_answer_default_yes;
use zifu::CLIOptions;

#[test]
fn basic_args_parse_test() {
    let cli_options = CLIOptions::parse_from(vec!["zifu", "before.zip", "after.zip"]).unwrap();
    let global_flags = cli_options.to_behavior_flags();

    assert_eq!(global_flags.ask_user, true);
    assert_eq!(global_flags.verbose, true);

    assert_eq!(cli_options.input, "before.zip");
    assert_eq!(cli_options.output.as_deref(), Some("after.zip"));
}

#[test]
fn extended_args_parse_test1() {
    let cli_options =
        CLIOptions::parse_from(vec!["zifu", "before.zip", "after.zip", "-q", "-u", "-l"]).unwrap();
    let global_flags = cli_options.to_behavior_flags();

    assert_eq!(global_flags.ask_user, false);
    assert_eq!(global_flags.verbose, false);

    assert_eq!(cli_options.input, "before.zip");
    assert_eq!(cli_options.output.as_deref(), Some("after.zip"));
    assert_eq!(cli_options.encoding.as_deref(), None);
    assert_eq!(cli_options.utf8, true);
    assert_eq!(cli_options.check, false);
    assert_eq!(cli_options.list, true);
    assert_eq!(cli_options.force, false);
    assert_eq!(cli_options.in_place, false);
}

#[test]
fn extended_args_parse_test2() {
    let cli_options = CLIOptions::parse_from(vec![
        "zifu",
        "before.zip",
        "after.zip",
        "-s",
        "-e",
        "sjis",
        "-c",
    ])
    .unwrap();
    let global_flags = cli_options.to_behavior_flags();

    assert_eq!(global_flags.ask_user, false);
    assert_eq!(global_flags.verbose, false);

    assert_eq!(cli_options.input, "before.zip");
    assert_eq!(cli_options.output.as_deref(), Some("after.zip"));
    assert_eq!(cli_options.encoding.as_deref(), Some("sjis"));
    assert_eq!(cli_options.utf8, false);
    assert_eq!(cli_options.check, true);
    assert_eq!(cli_options.list, false);
    assert_eq!(cli_options.force, false);
    assert_eq!(cli_options.in_place, false);
}

#[test]
fn extended_args_parse_test3() {
    let cli_options = CLIOptions::parse_from(vec![
        "zifu",
        "before.zip",
        "after.zip",
        "-y",
        "--encoding",
        "cp437",
    ])
    .unwrap();
    let global_flags = cli_options.to_behavior_flags();

    assert_eq!(global_flags.ask_user, false);
    assert_eq!(global_flags.verbose, true);

    assert_eq!(cli_options.input, "before.zip");
    assert_eq!(cli_options.output.as_deref(), Some("after.zip"));
    assert_eq!(cli_options.encoding.as_deref(), Some("cp437"));
    assert_eq!(cli_options.utf8, false);
    assert_eq!(cli_options.check, false);
    assert_eq!(cli_options.list, false);
    assert_eq!(cli_options.force, false);
    assert_eq!(cli_options.in_place, false);
}

#[test]
fn extended_args_parse_test4() {
    let cli_options = CLIOptions::parse_from(vec![
        "zifu",
        "before.zip",
        "after.zip",
        "--yes",
        "-e",
        "gbk",
        "-f",
    ])
    .unwrap();
    let global_flags = cli_options.to_behavior_flags();

    assert_eq!(global_flags.ask_user, false);
    assert_eq!(global_flags.verbose, true);

    assert_eq!(cli_options.input, "before.zip");
    assert_eq!(cli_options.output.as_deref(), Some("after.zip"));
    assert_eq!(cli_options.encoding.as_deref(), Some("gbk"));
    assert_eq!(cli_options.utf8, false);
    assert_eq!(cli_options.check, false);
    assert_eq!(cli_options.list, false);
    assert_eq!(cli_options.force, true);
    assert_eq!(cli_options.in_place, false);
}

#[test]
fn extended_args_parse_test5() {
    let cli_options = CLIOptions::parse_from(vec!["zifu", "before.zip", "-i"]).unwrap();
    assert_eq!(cli_options.input, "before.zip");
    assert_eq!(cli_options.output.as_deref(), None);
    assert_eq!(cli_options.encoding.as_deref(), None);
    assert_eq!(cli_options.utf8, false);
    assert_eq!(cli_options.check, false);
    assert_eq!(cli_options.list, false);
    assert_eq!(cli_options.force, false);
    assert_eq!(cli_options.in_place, true);
}

#[test]
fn grouped_short_flags_and_attached_values() {
    let o = CLIOptions::parse_from(vec!["zifu", "a.zip", "-qul", "-esjis"]).unwrap();
    assert!(o.quiet && o.utf8 && o.list);
    assert_eq!(o.encoding.as_deref(), Some("sjis"));
    let o = CLIOptions::parse_from(vec!["zifu", "a.zip", "-fe=gbk"]).unwrap();
    assert!(o.force);
    assert_eq!(o.encoding.as_deref(), Some("gbk"));
    let o = CLIOptions::parse_from(vec!["zifu", "--encoding=cp850", "a.zip", "--in-place"]).unwrap();
    assert_eq!(o.encoding.as_deref(), Some("cp850"));
    assert!(o.in_place);
    assert_eq!(o.input, "a.zip");
}

#[test]
fn rejected_command_lines() {
    assert!(CLIOptions::parse_from(vec!["zifu"]).is_err());
    assert!(CLIOptions::parse_from(vec!["zifu", "a.zip", "-e"]).is_err());
    assert!(CLIOptions::parse_from(vec!["zifu", "a.zip", "-x"]).is_err());
    assert!(CLIOptions::parse_from(vec!["zifu", "a.zip", "--unknown"]).is_err());
    assert!(CLIOptions::parse_from(vec!["zifu", "a.zip", "b.zip", "c.zip"]).is_err());
    assert!(CLIOptions::parse_from(vec!["zifu", "a.zip", "-e", "-q"]).is_err());
}

#[test]
fn silent_mode_never_asks() {
    let o = CLIOptions::parse_from(vec!["zifu", "a.zip", "-s"]).unwrap();
    let f = o.to_behavior_flags();
    assert!(!f.verbose && !f.ask_user);
}

#[test]
fn answers_default_to_yes() {
    assert!(process_answer_default_yes(""));
    assert!(process_answer_default_yes("y\n"));
    assert!(process_answer_default_yes("whatever"));
    assert!(!process_answer_default_yes("n"));
    assert!(!process_answer_default_yes("No\n"));
}
