use netrc::{fmt_netrc_machine, Error, Netrc};

#[test]
fn parse_simple() {
    let input = "machine example.com
                             login test
                             password p@ssw0rd
                             port 42";
    let netrc = Netrc::parse(input).unwrap();
    assert_eq!(netrc.hosts.len(), 1);
    assert!(netrc.macros.is_empty());
    let (ref name, ref mach) = netrc.hosts[0];
    assert_eq!(name, "example.com");
    assert_eq!(mach.login, "test");
    assert_eq!(mach.password.as_ref().unwrap(), "p@ssw0rd");
    assert_eq!(mach.port, Some(42));
    assert_eq!(mach.account, None);
}

#[test]
fn parse_macdef() {
    let input = "machine host1.com login login1
                     macdef uploadtest
                            cd /pub/tests
                            bin
                            put filename.tar.gz
                            quit

                     machine host2.com login login2";
    let netrc = Netrc::parse(input).unwrap();
    assert_eq!(netrc.hosts.len(), 2);
    for host in netrc.hosts.iter().enumerate() {
        let (i, &(ref name, ref mach)) = host;
        let i = i + 1;
        assert_eq!(name, &format!("host{}.com", i));
        assert_eq!(mach.login, format!("login{}", i));
    }
    assert_eq!(netrc.macros.len(), 1);
    let (ref name, ref cmds) = netrc.macros[0];
    assert_eq!(name, "uploadtest");
    assert_eq!(cmds.trim(), "cd /pub/tests
                            bin
                            put filename.tar.gz
                            quit");
}

#[test]
fn parse_default() {
    let input = "machine example.com login test
                     default login def";
    let netrc = Netrc::parse(input).unwrap();
    assert_eq!(netrc.hosts.len(), 1);
    let (ref name, ref mach) = netrc.hosts[0];
    assert_eq!(name, "example.com");
    assert_eq!(mach.login, "test");
    let def_mach = netrc.default.unwrap();
    assert_eq!(def_mach.login, "def");
}

#[test]
fn parse_error_unknown_entry() {
    let input = "machine foobar.com
                             foo";
    match Netrc::parse(input).unwrap_err() {
        Error::Parse(msg, lnum) => {
            assert_eq!(msg, "Unknown entry `foo'");
            assert_eq!(lnum, 2);
        }
        e => panic!("Wrong Error type: {:?}", e),
    }
}

#[test]
fn parse_error_unexpected_eof() {
    let input = "machine foobar.com
                             password quux
                             login";
    match Netrc::parse(input).unwrap_err() {
        Error::Parse(msg, lnum) => {
            assert_eq!(msg, "Unexpected end of file");
            assert_eq!(lnum, 3);
        }
        e => panic!("Wrong Error type: {:?}", e),
    }
}

#[test]
fn parse_error_no_machine() {
    let input = "password quux login foo";
    match Netrc::parse(input).unwrap_err() {
        Error::Parse(msg, lnum) => {
            assert_eq!(msg, "No machine defined for password");
            assert_eq!(lnum, 1);
        }
        e => panic!("Wrong Error type: {:?}", e),
    }
}

#[test]
fn parse_error_port() {
    let input = "machine foo.com login bar port quux";
    match Netrc::parse(input).unwrap_err() {
        Error::Parse(msg, lnum) => {
            assert_eq!(msg, "Unable to parse port number `quux'");
            assert_eq!(lnum, 1);
        }
        e => panic!("Wrong Error type: {:?}", e),
    }
}

fn parse_err(input: &str) -> (String, usize) {
    match Netrc::parse(input) {
        Err(Error::Parse(msg, lnum)) => (msg, lnum),
        Err(e) => panic!("Wrong Error type: {:?}", e),
        Ok(n) => panic!("parsed: {:?}", n),
    }
}

#[test]
fn round_trip_single_record() {
    let netrc = Netrc::parse("machine example.com\nlogin test\npassword p@ssw0rd\nport 42").unwrap();
    assert_eq!(netrc.hosts.len(), 1);
    assert_eq!(netrc.hosts[0].0, "example.com");
    assert_eq!(netrc.hosts[0].1.login, "test");
    assert_eq!(netrc.hosts[0].1.password.as_deref(), Some("p@ssw0rd"));
    assert_eq!(netrc.hosts[0].1.port, Some(42));
    assert_eq!(netrc.hosts[0].1.account, None);
    assert!(netrc.default.is_none());
}

#[test]
fn machines_kept_in_order_with_duplicates() {
    let netrc = Netrc::parse(
        "machine a.org login x\nmachine b.org login y account acct\nmachine a.org login z\n",
    )
    .unwrap();
    let names: Vec<&str> = netrc.hosts.iter().map(|h| h.0.as_str()).collect();
    assert_eq!(names, vec!["a.org", "b.org", "a.org"]);
    assert_eq!(netrc.hosts[1].1.account.as_deref(), Some("acct"));
    assert_eq!(netrc.hosts[2].1.login, "z");
    assert!(netrc.macros.is_empty());
    assert!(netrc.default.is_none());
}

#[test]
fn empty_and_blank_inputs() {
    for input in ["", "   ", "\n\n\t \n"] {
        let netrc = Netrc::parse(input).unwrap();
        assert!(netrc.hosts.is_empty());
        assert!(netrc.macros.is_empty());
        assert!(netrc.default.is_none());
    }
}

#[test]
fn macro_body_is_verbatim_and_parsing_resumes() {
    let netrc = Netrc::parse("macdef m\nline one\n  line two\n\nmachine h login u\n").unwrap();
    assert_eq!(netrc.macros.len(), 1);
    assert_eq!(netrc.macros[0].0, "m");
    assert_eq!(netrc.macros[0].1, "\nline one\n  line two\n");
    assert_eq!(netrc.hosts.len(), 1);
    assert_eq!(netrc.hosts[0].0, "h");
    assert_eq!(netrc.hosts[0].1.login, "u");
}

#[test]
fn macro_runs_to_end_of_text() {
    let netrc = Netrc::parse("macdef m rest of line\nabc\ndef").unwrap();
    assert_eq!(netrc.macros[0].1, " rest of line\nabc\ndef");
}

#[test]
fn macro_ends_record_context() {
    let (msg, lnum) = parse_err("machine h\nmacdef m\nx y\n\nlogin u\n");
    assert_eq!(msg, "No machine defined for login");
    assert_eq!(lnum, 5);
}

#[test]
fn default_is_independent_and_last_wins() {
    let netrc =
        Netrc::parse("machine example.com login test\ndefault login def\ndefault account a").unwrap();
    assert_eq!(netrc.hosts[0].1.login, "test");
    let d = netrc.default.unwrap();
    assert_eq!(d.login, "");
    assert_eq!(d.account.as_deref(), Some("a"));
}

#[test]
fn repeated_login_overwrites() {
    let netrc = Netrc::parse("machine h login a login b").unwrap();
    assert_eq!(netrc.hosts[0].1.login, "b");
}

#[test]
fn field_before_record_each_keyword() {
    for kw in ["login", "password", "account", "port"] {
        let (msg, lnum) = parse_err(&format!("\n\n  {} value", kw));
        assert_eq!(msg, format!("No machine defined for {}", kw));
        assert_eq!(lnum, 3);
    }
}

#[test]
fn unknown_entry_reports_its_line() {
    let (msg, lnum) = parse_err("machine h login u\n# a comment\n");
    assert_eq!(msg, "Unknown entry `#'");
    assert_eq!(lnum, 2);
}

#[test]
fn value_missing_at_end_of_text() {
    let (msg, lnum) = parse_err("machine h\nport\n\n");
    assert_eq!(msg, "Unexpected end of file");
    assert_eq!(lnum, 3);
    let (msg, lnum) = parse_err("machine");
    assert_eq!(msg, "Unexpected end of file");
    assert_eq!(lnum, 1);
    let (msg, lnum) = parse_err("macdef\n");
    assert_eq!(msg, "Unexpected end of file");
    assert_eq!(lnum, 1);
}

#[test]
fn port_numbers() {
    let netrc = Netrc::parse("machine h port 65535").unwrap();
    assert_eq!(netrc.hosts[0].1.port, Some(65535));
    let netrc = Netrc::parse("machine h port +007").unwrap();
    assert_eq!(netrc.hosts[0].1.port, Some(7));
    let netrc = Netrc::parse("machine h port 0").unwrap();
    assert_eq!(netrc.hosts[0].1.port, Some(0));
    let (msg, lnum) = parse_err("machine h\nport\n65536");
    assert_eq!(msg, "Unable to parse port number `65536'");
    assert_eq!(lnum, 3);
    let (msg, _) = parse_err("machine h port -1");
    assert_eq!(msg, "Unable to parse port number `-1'");
    let (msg, _) = parse_err("machine h port +");
    assert_eq!(msg, "Unable to parse port number `+'");
}

#[test]
fn unicode_whitespace_separates_words() {
    let netrc = Netrc::parse("machine\u{3000}h\u{A0}login\u{2009}ü").unwrap();
    assert_eq!(netrc.hosts[0].0, "h");
    assert_eq!(netrc.hosts[0].1.login, "ü");
}

#[test]
fn machine_summary_masks_password() {
    let netrc = Netrc::parse("machine h login u password secret port 8080").unwrap();
    assert_eq!(
        fmt_netrc_machine(&netrc.hosts[0].1),
        "Machine { login: u, password: ******, account: [None], port: 8080 }"
    );
    let netrc = Netrc::parse("machine h account acc port 7").unwrap();
    assert_eq!(
        fmt_netrc_machine(&netrc.hosts[0].1),
        "Machine { login: , password: [None], account: acc, port: 7 }"
    );
    let netrc = Netrc::parse("machine h port 0 machine g").unwrap();
    assert_eq!(
        fmt_netrc_machine(&netrc.hosts[0].1),
        "Machine { login: , password: [None], account: [None], port: 0 }"
    );
    assert_eq!(
        fmt_netrc_machine(&netrc.hosts[1].1),
        "Machine { login: , password: [None], account: [None], port: [None] }"
    );
}
