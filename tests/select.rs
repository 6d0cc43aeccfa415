use netrc::{select_login, Netrc, NoMatch};

fn two_records() -> Netrc {
    Netrc::parse("machine host.com login first\nmachine host.com login second\n").unwrap()
}

#[test]
fn first_full_match_wins() {
    let netrc = two_records();
    assert_eq!(select_login(&netrc, "host.com", Some("second")).unwrap(), "second");
    assert_eq!(select_login(&netrc, "host.com", Some("first")).unwrap(), "first");
}

#[test]
fn host_only_takes_first_record() {
    let netrc = two_records();
    assert_eq!(select_login(&netrc, "host.com", None).unwrap(), "first");
}

#[test]
fn no_host_without_user() {
    let netrc = two_records();
    match select_login(&netrc, "other.com", None) {
        Err(NoMatch::Host { hostname }) => assert_eq!(hostname, "other.com"),
        r => panic!("unexpected: {:?}", r),
    }
}

#[test]
fn no_user_match() {
    let netrc = two_records();
    match select_login(&netrc, "host.com", Some("third")) {
        Err(NoMatch::HostUser { hostname, username }) => {
            assert_eq!(hostname, "host.com");
            assert_eq!(username, "third");
        }
        r => panic!("unexpected: {:?}", r),
    }
}

#[test]
fn default_record_is_never_selected() {
    let netrc = Netrc::parse("default login d").unwrap();
    assert!(matches!(select_login(&netrc, "any", None), Err(NoMatch::Host { .. })));
}

#[test]
fn host_names_are_case_sensitive() {
    let netrc = Netrc::parse("machine Host.com login a").unwrap();
    assert!(select_login(&netrc, "host.com", None).is_err());
}
