use netrc::cli::{parse_cli_args, CliRequest};

fn args(list: &[&str]) -> Vec<String> {
    list.iter().map(|s| s.to_string()).collect()
}

fn lookup(list: &[&str]) -> (String, Option<String>, u8) {
    match parse_cli_args(&args(list)) {
        Ok(CliRequest::Lookup(c)) => (c.hostname, c.username, c.verbosity),
        r => panic!("unexpected: {:?}", r),
    }
}

fn bad(list: &[&str]) -> String {
    match parse_cli_args(&args(list)) {
        Err(msg) => msg,
        r => panic!("unexpected: {:?}", r),
    }
}

#[test]
fn hostname_only() {
    assert_eq!(lookup(&["prog", "example.com"]), ("example.com".to_string(), None, 0));
}

#[test]
fn user_and_verbosity() {
    assert_eq!(
        lookup(&["prog", "-v", "-u", "bob", "--verbose", "h"]),
        ("h".to_string(), Some("bob".to_string()), 2)
    );
    assert_eq!(lookup(&["prog", "-v", "-v", "-v", "-v", "h"]).2, 3);
    assert_eq!(lookup(&["prog", "--user", "-v", "h"]).1, Some("-v".to_string()));
}

#[test]
fn end_of_options() {
    assert_eq!(lookup(&["prog", "--", "-weird"]).0, "-weird");
}

#[test]
fn help_and_version() {
    assert!(matches!(parse_cli_args(&args(&["prog", "-v", "--help", "h"])), Ok(CliRequest::Help)));
    assert!(matches!(parse_cli_args(&args(&["prog", "-V"])), Ok(CliRequest::Version)));
}

#[test]
fn argument_errors() {
    assert_eq!(bad(&["prog"]), "required HOSTNAME parameter not provided; bailing out");
    assert_eq!(bad(&["prog", "-v"]), "required HOSTNAME value not provided; bailing out");
    assert_eq!(bad(&["prog", "-u"]), "missing argument for option -u");
    assert_eq!(bad(&["prog", "-u", "a", "-u", "b", "h"]), "At most one -u (--user=USER) opt may be provided");
    assert_eq!(bad(&["prog", "-x", "h"]), "unrecognized option '-x'; bailing out");
    assert_eq!(
        bad(&["prog", "a", "b"]),
        "Only one HOSTNAME may be provided; have \"a\", but also got \"b\""
    );
    assert_eq!(bad(&["prog", "-u", "bob"]), "required HOSTNAME value not provided; bailing out");
}
