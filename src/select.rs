//! The selector: the login of the first host record that matches a host
//! name and, when one is given, a user name.
use vstd::prelude::*;
use crate::netrc::{MachineModel, Netrc, NetrcModel};

verus! {

/// Why no record was selected.
#[derive(Debug)]
pub enum NoMatch {
    /// No record has the host name; no user name was asked for.
    Host { hostname: String },
    /// No record has both the host name and the user name as its login.
    HostUser { hostname: String, username: String },
}

/// Host record `h` has the name `hostname` and, where `username` is given,
/// that login.
pub open spec fn host_matches(
    h: (Seq<char>, MachineModel),
    hostname: Seq<char>,
    username: Option<Seq<char>>,
) -> bool {
    h.0 == hostname && match username {
        None => true,
        Some(u) => h.1.login == u,
    }
}

/// The login of the first record of `hosts` that matches.
pub open spec fn select(
    hosts: Seq<(Seq<char>, MachineModel)>,
    hostname: Seq<char>,
    username: Option<Seq<char>>,
) -> Option<Seq<char>>
    decreases hosts.len(),
{
    if hosts.len() == 0 {
        None
    } else if host_matches(hosts[0], hostname, username) {
        Some(hosts[0].1.login)
    } else {
        select(hosts.drop_first(), hostname, username)
    }
}

pub open spec fn opt_str(o: Option<&str>) -> Option<Seq<char>> {
    match o {
        Some(s) => Some(s@),
        None => None,
    }
}

/// The outcome that `select_login` owes: a login, or the no-match that
/// tells whether a user name was asked for.
pub open spec fn selection(
    n: NetrcModel,
    hostname: Seq<char>,
    username: Option<Seq<char>>,
) -> Result<Seq<char>, (Seq<char>, Option<Seq<char>>)> {
    match select(n.hosts, hostname, username) {
        Some(l) => Ok(l),
        None => Err((hostname, username)),
    }
}

pub open spec fn selection_view(r: Result<String, NoMatch>) -> Result<
    Seq<char>,
    (Seq<char>, Option<Seq<char>>),
> {
    match r {
        Ok(l) => Ok(l@),
        Err(NoMatch::Host { hostname }) => Err((hostname@, None)),
        Err(NoMatch::HostUser { hostname, username }) => Err((hostname@, Some(username@))),
    }
}

/// The login of the first host record, in file order, named `hostname`
/// whose login is `username` when that is given. The default record is
/// never selected.
pub fn select_login(netrc: &Netrc, hostname: &str, username: Option<&str>) -> (r: Result<
    String,
    NoMatch,
>)
    ensures
        selection_view(r) == selection(netrc@, hostname@, opt_str(username)),
{
    let ghost hosts = netrc@.hosts;
    let want_host = String::from_str(hostname);
    let want_user: Option<String> = match username {
        Some(u) => Some(String::from_str(u)),
        None => None,
    };
    let ghost user = opt_str(username);
    let mut i: usize = 0;
    assert(hosts.skip(0) =~= hosts);
    while i < netrc.hosts.len()
        invariant
            i <= netrc.hosts.len(),
            hosts == netrc@.hosts,
            want_host@ == hostname@,
            user == opt_str(username),
            want_user is Some <==> user is Some,
            want_user is Some ==> want_user->0@ == user->0,
            select(hosts, hostname@, user) == select(hosts.skip(i as int), hostname@, user),
        decreases netrc.hosts.len() - i,
    {
        let ghost rest = hosts.skip(i as int);
        assert(rest[0] == hosts[i as int]);
        assert(rest.drop_first() =~= hosts.skip(i + 1));
        let host = &netrc.hosts[i];
        if host.0 == want_host {
            match &want_user {
                None => {
                    return Ok(host.1.login.clone());
                },
                Some(u) => {
                    if host.1.login == *u {
                        return Ok(host.1.login.clone());
                    }
                },
            }
        }
        i = i + 1;
    }
    assert(hosts.skip(i as int).len() == 0);
    match username {
        Some(u) => Err(NoMatch::HostUser { hostname: want_host, username: String::from_str(u) }),
        None => Err(NoMatch::Host { hostname: want_host }),
    }
}

} // verus!
