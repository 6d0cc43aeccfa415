//! The command line of the lookup program: what it asks for, decided from
//! the arguments alone.
use vstd::prelude::*;
use crate::text::to_chars;

verus! {

/// A lookup that the command line asks for.
#[derive(Debug)]
pub struct Config {
    pub hostname: String,
    pub username: Option<String>,
    /// How many times `-v` was given, at most 3: info, debug, then tracing.
    pub verbosity: u8,
}

/// What the command line asks for.
#[derive(Debug)]
pub enum CliRequest {
    Help,
    Version,
    Lookup(Config),
}

/// The mathematical value of a `CliRequest`.
pub enum RequestModel {
    Help,
    Version,
    Lookup(Seq<char>, Option<Seq<char>>, nat),
}

pub open spec fn request_view(r: CliRequest) -> RequestModel {
    match r {
        CliRequest::Help => RequestModel::Help,
        CliRequest::Version => RequestModel::Version,
        CliRequest::Lookup(c) => RequestModel::Lookup(
            c.hostname@,
            match c.username {
                Some(u) => Some(u@),
                None => None,
            },
            c.verbosity as nat,
        ),
    }
}

pub open spec fn missing_hostname_message() -> Seq<char> {
    "required HOSTNAME value not provided; bailing out"@
}

/// The request whose host name is due at argument `h`.
pub open spec fn hostname_at(
    args: Seq<Seq<char>>,
    h: int,
    user: Option<Seq<char>>,
    v: nat,
) -> Result<RequestModel, Seq<char>> {
    if h >= args.len() {
        Err(missing_hostname_message())
    } else if h + 1 < args.len() {
        Err(
            "Only one HOSTNAME may be provided; have \""@ + args[h] + "\", but also got \""@
                + args[h + 1] + "\""@,
        )
    } else {
        Ok(RequestModel::Lookup(args[h], user, v))
    }
}

/// The options from argument `i` on, with the user name and verbosity
/// that the earlier ones gave.
pub open spec fn scan_args(
    args: Seq<Seq<char>>,
    i: int,
    user: Option<Seq<char>>,
    v: nat,
) -> Result<RequestModel, Seq<char>>
    decreases args.len() - i,
{
    if i < 0 || i >= args.len() {
        Err(missing_hostname_message())
    } else {
        let a = args[i];
        if a == "-h"@ || a == "--help"@ {
            Ok(RequestModel::Help)
        } else if a == "-V"@ || a == "--version"@ {
            Ok(RequestModel::Version)
        } else if a == "-u"@ || a == "--user"@ {
            if user is Some {
                Err("At most one -u (--user=USER) opt may be provided"@)
            } else if i + 1 >= args.len() {
                Err("missing argument for option "@ + a)
            } else {
                scan_args(args, i + 2, Some(args[i + 1]), v)
            }
        } else if a == "-v"@ || a == "--verbose"@ {
            scan_args(args, i + 1, user, if v < 3 { v + 1 } else { v })
        } else if a == "--"@ {
            hostname_at(args, i + 1, user, v)
        } else if a.len() > 0 && a[0] == '-' {
            Err("unrecognized option '"@ + a + "'; bailing out"@)
        } else {
            hostname_at(args, i, user, v)
        }
    }
}

/// The request of a whole command line, whose first argument names the
/// program; or the message of what is wrong with it.
pub open spec fn cli_request(args: Seq<Seq<char>>) -> Result<RequestModel, Seq<char>> {
    if args.len() < 2 {
        Err("required HOSTNAME parameter not provided; bailing out"@)
    } else {
        scan_args(args, 1, None, 0)
    }
}

pub open spec fn args_view(args: Seq<String>) -> Seq<Seq<char>> {
    args.map_values(|a: String| a@)
}

fn is_text(a: &String, lit: &str) -> (r: bool)
    ensures
        r == (a@ == lit@),
{
    *a == String::from_str(lit)
}

fn hostname_request(args: &Vec<String>, h: usize, username: Option<String>, verbosity: u8) -> (r:
    Result<CliRequest, String>)
    requires
        h <= args.len(),
    ensures
        match r {
            Ok(q) => hostname_at(args_view(args@), h as int, opt_view(username), verbosity as nat)
                == Ok::<RequestModel, Seq<char>>(request_view(q)),
            Err(m) => hostname_at(args_view(args@), h as int, opt_view(username), verbosity as nat)
                == Err::<RequestModel, Seq<char>>(m@),
        },
{
    if h >= args.len() {
        return Err(String::from_str("required HOSTNAME value not provided; bailing out"));
    }
    if h + 1 < args.len() {
        let mut msg = String::from_str("Only one HOSTNAME may be provided; have \"");
        msg.append(args[h].as_str());
        msg.append("\", but also got \"");
        msg.append(args[h + 1].as_str());
        msg.append("\"");
        return Err(msg);
    }
    Ok(CliRequest::Lookup(Config { hostname: args[h].clone(), username, verbosity }))
}

pub open spec fn opt_view(o: Option<String>) -> Option<Seq<char>> {
    match o {
        Some(s) => Some(s@),
        None => None,
    }
}

/// Decides what the command line `args` asks for, as `cli_request` states
/// it. Help and version requests are answered by the caller.
pub fn parse_cli_args(args: &Vec<String>) -> (r: Result<CliRequest, String>)
    ensures
        match r {
            Ok(q) => cli_request(args_view(args@)) == Ok::<RequestModel, Seq<char>>(request_view(q)),
            Err(m) => cli_request(args_view(args@)) == Err::<RequestModel, Seq<char>>(m@),
        },
{
    let ghost av = args_view(args@);
    if args.len() < 2 {
        return Err(String::from_str("required HOSTNAME parameter not provided; bailing out"));
    }
    let mut username: Option<String> = None;
    let mut verbosity: u8 = 0;
    let mut idx: usize = 1;
    while idx < args.len()
        invariant
            av == args_view(args@),
            1 <= idx <= args.len() + 1,
            verbosity <= 3,
            cli_request(av) == scan_args(av, idx as int, opt_view(username), verbosity as nat),
        decreases args.len() + 1 - idx,
    {
        let one_opt = &args[idx];
        assert(av[idx as int] == one_opt@);
        if is_text(one_opt, "-h") || is_text(one_opt, "--help") {
            return Ok(CliRequest::Help);
        } else if is_text(one_opt, "-V") || is_text(one_opt, "--version") {
            return Ok(CliRequest::Version);
        } else if is_text(one_opt, "-u") || is_text(one_opt, "--user") {
            if username.is_some() {
                return Err(String::from_str("At most one -u (--user=USER) opt may be provided"));
            }
            if idx + 1 >= args.len() {
                let mut msg = String::from_str("missing argument for option ");
                msg.append(one_opt.as_str());
                return Err(msg);
            }
            username = Some(args[idx + 1].clone());
            idx = idx + 2;
        } else if is_text(one_opt, "-v") || is_text(one_opt, "--verbose") {
            if verbosity < 3 {
                verbosity = verbosity + 1;
            }
            idx = idx + 1;
        } else if is_text(one_opt, "--") {
            return hostname_request(args, idx + 1, username, verbosity);
        } else {
            let cs = to_chars(one_opt.as_str());
            if cs.len() > 0 && cs[0] == '-' {
                let mut msg = String::from_str("unrecognized option '");
                msg.append(one_opt.as_str());
                msg.append("'; bailing out");
                return Err(msg);
            }
            return hostname_request(args, idx, username, verbosity);
        }
    }
    Err(String::from_str("required HOSTNAME value not provided; bailing out"))
}

} // verus!
