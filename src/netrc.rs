//! The record builder: netrc records, macros and the parse of a whole text.
use vstd::prelude::*;
use crate::error::{parse_error_view, Error};
use crate::lexer::{lemma_next_word, lemma_raw_block, next_word, raw_block, Lexer};
use crate::text::{line_of, parse_port, port_of, to_chars};

verus! {

/// The fields of one record.
#[derive(Debug)]
pub struct Machine {
    pub login: String,
    pub password: Option<String>,
    pub account: Option<String>,
    pub port: Option<u16>,
}

/// A macro: its name and its body.
pub type Macro = (String, String);

/// A record for a named host.
pub type Host = (String, Machine);

/// All that a netrc text defines.
#[derive(Debug)]
pub struct Netrc {
    /// Host records, in the order of the text; names may repeat.
    pub hosts: Vec<Host>,
    /// The record of the last `default` entry, if any.
    pub default: Option<Machine>,
    /// Macros, in the order of the text.
    pub macros: Vec<Macro>,
}

/// The mathematical value of a `Machine`.
pub struct MachineModel {
    pub login: Seq<char>,
    pub password: Option<Seq<char>>,
    pub account: Option<Seq<char>>,
    pub port: Option<u16>,
}

/// The mathematical value of a `Netrc`.
pub struct NetrcModel {
    pub hosts: Seq<(Seq<char>, MachineModel)>,
    pub default: Option<MachineModel>,
    pub macros: Seq<(Seq<char>, Seq<char>)>,
}

pub open spec fn opt_text(o: Option<String>) -> Option<Seq<char>> {
    match o {
        Some(s) => Some(s@),
        None => None,
    }
}

pub open spec fn machine_view(m: Machine) -> MachineModel {
    MachineModel {
        login: m.login@,
        password: opt_text(m.password),
        account: opt_text(m.account),
        port: m.port,
    }
}

pub open spec fn host_view(h: Host) -> (Seq<char>, MachineModel) {
    (h.0@, machine_view(h.1))
}

pub open spec fn macro_view(m: Macro) -> (Seq<char>, Seq<char>) {
    (m.0@, m.1@)
}

impl View for Machine {
    type V = MachineModel;

    open spec fn view(&self) -> MachineModel {
        machine_view(*self)
    }
}

impl View for Netrc {
    type V = NetrcModel;

    open spec fn view(&self) -> NetrcModel {
        NetrcModel {
            hosts: self.hosts@.map_values(|h: Host| host_view(h)),
            default: match self.default {
                Some(m) => Some(machine_view(m)),
                None => None,
            },
            macros: self.macros@.map_values(|m: Macro| macro_view(m)),
        }
    }
}

/// The record that field keywords change while a text is read.
pub enum Current {
    Nothing,
    Default,
    Host(int),
}

/// The record that field keywords change, as the parser holds it.
#[derive(Clone, Copy)]
pub enum MachineRef {
    Nothing,
    Default,
    Host(usize),
}

impl View for MachineRef {
    type V = Current;

    open spec fn view(&self) -> Current {
        match *self {
            MachineRef::Nothing => Current::Nothing,
            MachineRef::Default => Current::Default,
            MachineRef::Host(i) => Current::Host(i as int),
        }
    }
}

/// `cur` names a record that `n` holds.
pub open spec fn current_ok(n: NetrcModel, cur: Current) -> bool {
    match cur {
        Current::Nothing => true,
        Current::Default => n.default is Some,
        Current::Host(i) => 0 <= i < n.hosts.len(),
    }
}

pub open spec fn empty_machine() -> MachineModel {
    MachineModel { login: Seq::empty(), password: None, account: None, port: None }
}

pub open spec fn empty_netrc() -> NetrcModel {
    NetrcModel { hosts: Seq::empty(), default: None, macros: Seq::empty() }
}

pub open spec fn is_field_keyword(w: Seq<char>) -> bool {
    w == "login"@ || w == "password"@ || w == "account"@ || w == "port"@
}

/// `m` with the field that keyword `kw` names set from `v`.
pub open spec fn set_field(m: MachineModel, kw: Seq<char>, v: Seq<char>) -> MachineModel {
    if kw == "login"@ {
        MachineModel { login: v, ..m }
    } else if kw == "password"@ {
        MachineModel { password: Some(v), ..m }
    } else if kw == "account"@ {
        MachineModel { account: Some(v), ..m }
    } else {
        MachineModel { port: port_of(v), ..m }
    }
}

/// `n` with the field `kw` of the record `cur` set from `v`.
pub open spec fn update_current(n: NetrcModel, cur: Current, kw: Seq<char>, v: Seq<char>) -> NetrcModel {
    match cur {
        Current::Nothing => n,
        Current::Default => NetrcModel {
            default: match n.default {
                Some(m) => Some(set_field(m, kw, v)),
                None => None,
            },
            ..n
        },
        Current::Host(i) => NetrcModel {
            hosts: n.hosts.update(i, (n.hosts[i].0, set_field(n.hosts[i].1, kw, v))),
            ..n
        },
    }
}

pub open spec fn no_machine_message(kw: Seq<char>) -> Seq<char> {
    "No machine defined for "@ + kw
}

pub open spec fn unknown_entry_message(w: Seq<char>) -> Seq<char> {
    "Unknown entry `"@ + w + "'"@
}

pub open spec fn bad_port_message(v: Seq<char>) -> Seq<char> {
    "Unable to parse port number `"@ + v + "'"@
}

/// The error for a value missing at the end of `t`.
pub open spec fn eof_error(t: Seq<char>) -> (Seq<char>, int) {
    (crate::lexer::eof_message(), line_of(t, t.len() as int))
}

/// One entry of `t`, whose keyword is the word `t[s..e]`, read with `n`
/// built so far and `cur` the current record: where reading goes on, what
/// is built then and the new current record; or a message and a line.
pub open spec fn entry(t: Seq<char>, s: int, e: int, n: NetrcModel, cur: Current) -> Result<
    (int, NetrcModel, Current),
    (Seq<char>, int),
> {
    let w = t.subrange(s, e);
    if w == "machine"@ {
        match next_word(t, e) {
            None => Err(eof_error(t)),
            Some((s2, e2)) => Ok(
                (
                    e2,
                    NetrcModel { hosts: n.hosts.push((t.subrange(s2, e2), empty_machine())), ..n },
                    Current::Host(n.hosts.len() as int),
                ),
            ),
        }
    } else if w == "default"@ {
        Ok((e, NetrcModel { default: Some(empty_machine()), ..n }, Current::Default))
    } else if is_field_keyword(w) {
        if cur is Nothing {
            Err((no_machine_message(w), line_of(t, s)))
        } else {
            match next_word(t, e) {
                None => Err(eof_error(t)),
                Some((s2, e2)) => {
                    let v = t.subrange(s2, e2);
                    if w == "port"@ && port_of(v) is None {
                        Err((bad_port_message(v), line_of(t, s2)))
                    } else {
                        Ok((e2, update_current(n, cur, w, v), cur))
                    }
                },
            }
        }
    } else if w == "macdef"@ {
        match next_word(t, e) {
            None => Err(eof_error(t)),
            Some((s2, e2)) => Ok(
                (
                    raw_block(t, e2).1,
                    NetrcModel {
                        macros: n.macros.push(
                            (t.subrange(s2, e2), t.subrange(e2, raw_block(t, e2).0)),
                        ),
                        ..n
                    },
                    Current::Nothing,
                ),
            ),
        }
    } else {
        Err((unknown_entry_message(w), line_of(t, s)))
    }
}

/// The parse of `t` from position `p` on, with `n` built so far and `cur`
/// the current record.
pub open spec fn parse_from(t: Seq<char>, p: int, n: NetrcModel, cur: Current) -> Result<
    NetrcModel,
    (Seq<char>, int),
>
    decreases t.len() - p,
{
    match next_word(t, p) {
        None => Ok(n),
        Some((s, e)) => match entry(t, s, e, n, cur) {
            Err(x) => Err(x),
            Ok((q, n2, c2)) => if p < q <= t.len() {
                parse_from(t, q, n2, c2)
            } else {
                Ok(n2)
            },
        },
    }
}

/// The parse of a whole netrc text: what it defines, or the message and
/// line number of the first fault in it.
pub open spec fn parse_text(t: Seq<char>) -> Result<NetrcModel, (Seq<char>, int)> {
    parse_from(t, 0, empty_netrc(), Current::Nothing)
}

pub proof fn lemma_entry_advances(t: Seq<char>, s: int, e: int, n: NetrcModel, cur: Current)
    requires
        0 <= s < e <= t.len(),
        current_ok(n, cur),
    ensures
        entry(t, s, e, n, cur) matches Ok((q, n2, c2)) ==> e <= q <= t.len() && current_ok(n2, c2),
{
    lemma_next_word(t, e);
    if let Some((s2, e2)) = next_word(t, e) {
        lemma_raw_block(t, e2);
    }
}

impl Default for Machine {
    fn default() -> (r: Machine)
        ensures
            r@ == empty_machine(),
    {
        Machine { login: String::new(), password: None, account: None, port: None }
    }
}

impl Default for Netrc {
    fn default() -> (r: Netrc)
        ensures
            r@ == empty_netrc(),
    {
        let r = Netrc { hosts: Vec::new(), default: None, macros: Vec::new() };
        assert(r@.hosts =~= Seq::<(Seq<char>, MachineModel)>::empty());
        assert(r@.macros =~= Seq::<(Seq<char>, Seq<char>)>::empty());
        r
    }
}

impl Netrc {
    /// Parses a netrc text into its host records, default record and
    /// macros, or reports the first fault in it with its line number.
    pub fn parse(input: &str) -> (r: Result<Netrc, Error>)
        ensures
            match r {
                Ok(n) => parse_text(input@) == Ok::<NetrcModel, (Seq<char>, int)>(n@),
                Err(e) => parse_error_view(&e) matches Some(x) && parse_text(input@) == Err::<
                    NetrcModel,
                    (Seq<char>, int),
                >(x),
            },
    {
        let mut netrc = Netrc::default();
        let mut lexer = Lexer::new(input);
        let mut current_machine = MachineRef::Nothing;
        loop
            invariant
                lexer.wf(),
                lexer.chars@ == input@,
                current_ok(netrc@, current_machine@),
                parse_text(input@) == parse_from(
                    input@,
                    lexer.pos as int,
                    netrc@,
                    current_machine@,
                ),
            decreases lexer.chars.len() - lexer.pos,
        {
            let ghost t = input@;
            let ghost p = lexer.pos as int;
            proof {
                lemma_next_word(t, p);
            }
            match lexer.next_word() {
                None => {
                    return Ok(netrc);
                },
                Some(w) => {
                    let ghost n0 = netrc@;
                    proof {
                        lemma_entry_advances(t, lexer.start as int, lexer.pos as int, n0, current_machine@);
                    }
                    match netrc.parse_entry(&mut lexer, &w, current_machine) {
                        Ok(c) => {
                            current_machine = c;
                        },
                        Err(e) => {
                            return Err(e);
                        },
                    }
                },
            }
        }
    }

    /// Reads the entry whose keyword `item` the lexer has just read.
    fn parse_entry(&mut self, lexer: &mut Lexer, item: &String, current_machine: MachineRef) -> (r:
        Result<MachineRef, Error>)
        requires
            old(lexer).wf(),
            item@ == old(lexer).chars@.subrange(old(lexer).start as int, old(lexer).pos as int),
            current_ok(old(self)@, current_machine@),
        ensures
            final(lexer).wf(),
            final(lexer).chars == old(lexer).chars,
            match entry(
                old(lexer).chars@,
                old(lexer).start as int,
                old(lexer).pos as int,
                old(self)@,
                current_machine@,
            ) {
                Ok((q, n2, c2)) => r matches Ok(c) && c@ == c2 && final(self)@ == n2 && final(lexer).pos == q,
                Err(x) => r matches Err(e) && parse_error_view(&e) == Some(x),
            },
    {
        let ghost t = lexer.chars@;
        let ghost n = self@;
        if lexer.word_is("machine") {
            match lexer.next_word_or_err() {
                Err(e) => Err(e),
                Ok(host_name) => {
                    self.hosts.push((host_name, Machine::default()));
                    assert(self@.hosts =~= n.hosts.push(host_view(self.hosts@.last())));
                    Ok(MachineRef::Host(self.hosts.len() - 1))
                },
            }
        } else if lexer.word_is("default") {
            self.default = Some(Machine::default());
            Ok(MachineRef::Default)
        } else if lexer.word_is("login") || lexer.word_is("password") || lexer.word_is("account")
            || lexer.word_is("port") {
            proof {
                reveal_strlit("login");
                reveal_strlit("password");
                reveal_strlit("account");
                reveal_strlit("port");
                assert("login"@.len() == 5);
                assert("password"@.len() == 8);
                assert("account"@.len() == 7);
                assert("port"@.len() == 4);
            }
            let is_login = lexer.word_is("login");
            let is_password = lexer.word_is("password");
            let is_account = lexer.word_is("account");
            let line = lexer.line();
            match self.find_machine(&current_machine) {
                None => {
                    let mut msg = String::from_str("No machine defined for ");
                    msg.append(item.as_str());
                    Err(Error::Parse(msg, line))
                },
                Some(m) => {
                    match lexer.next_word_or_err() {
                        Err(e) => Err(e),
                        Ok(v) => {
                            let ghost vv = v@;
                            if is_login {
                                m.login = v;
                            } else if is_password {
                                m.password = Some(v);
                            } else if is_account {
                                m.account = Some(v);
                            } else {
                                match parse_port(&to_chars(v.as_str())) {
                                    Some(port) => {
                                        m.port = Some(port);
                                    },
                                    None => {
                                        let mut msg = String::from_str(
                                            "Unable to parse port number `",
                                        );
                                        msg.append(v.as_str());
                                        msg.append("'");
                                        return Err(Error::Parse(msg, lexer.line()));
                                    },
                                }
                            }
                            proof {
                                let goal = update_current(n, current_machine@, item@, vv);
                                assert(self@.hosts =~= goal.hosts);
                                assert(self@.macros =~= goal.macros);
                            }
                            Ok(current_machine)
                        },
                    }
                },
            }
        } else if lexer.word_is("macdef") {
            match lexer.next_word_or_err() {
                Err(e) => Err(e),
                Ok(name) => {
                    let cmds = lexer.next_raw_block();
                    self.macros.push((name, cmds));
                    assert(self@.macros =~= n.macros.push(macro_view(self.macros@.last())));
                    Ok(MachineRef::Nothing)
                },
            }
        } else {
            let mut msg = String::from_str("Unknown entry `");
            msg.append(item.as_str());
            msg.append("'");
            Err(Error::Parse(msg, lexer.line()))
        }
    }

    /// The record that `reference` names, to be changed in place.
    fn find_machine(&mut self, reference: &MachineRef) -> (r: Option<&mut Machine>)
        requires
            current_ok(old(self)@, reference@),
        ensures
            match *reference {
                MachineRef::Nothing => r is None && *final(self) == *old(self),
                MachineRef::Default => r is Some && *r.unwrap() == old(self).default.unwrap()
                    && final(self).default == Some(*final(r.unwrap()))
                    && final(self).hosts == old(self).hosts && final(self).macros == old(self).macros,
                MachineRef::Host(i) => r is Some && *r.unwrap() == old(self).hosts@[i as int].1
                    && final(self).hosts@ == old(self).hosts@.update(
                    i as int,
                    (old(self).hosts@[i as int].0, *final(r.unwrap())),
                ) && final(self).default == old(self).default && final(self).macros == old(self).macros,
            },
    {
        match *reference {
            MachineRef::Nothing => None,
            MachineRef::Default => self.default.as_mut(),
            MachineRef::Host(n) => Some(&mut self.hosts[n].1),
        }
    }
}

pub open spec fn digit_char(d: int) -> char {
    if d == 0 {
        '0'
    } else if d == 1 {
        '1'
    } else if d == 2 {
        '2'
    } else if d == 3 {
        '3'
    } else if d == 4 {
        '4'
    } else if d == 5 {
        '5'
    } else if d == 6 {
        '6'
    } else if d == 7 {
        '7'
    } else if d == 8 {
        '8'
    } else {
        '9'
    }
}

/// The decimal digits of `n`, without leading zeros.
pub open spec fn decimal(n: nat) -> Seq<char>
    decreases n,
{
    if n < 10 {
        seq![digit_char(n as int)]
    } else {
        decimal(n / 10).push(digit_char((n % 10) as int))
    }
}

fn push_decimal(s: &mut String, n: u16)
    ensures
        final(s)@ == old(s)@ + decimal(n as nat),
    decreases n,
{
    if n >= 10 {
        push_decimal(s, n / 10);
    }
    let d = n % 10;
    let c = if d == 0 {
        '0'
    } else if d == 1 {
        '1'
    } else if d == 2 {
        '2'
    } else if d == 3 {
        '3'
    } else if d == 4 {
        '4'
    } else if d == 5 {
        '5'
    } else if d == 6 {
        '6'
    } else if d == 7 {
        '7'
    } else if d == 8 {
        '8'
    } else {
        '9'
    };
    crate::text::push_char(s, c);
    assert(s@ =~= old(s)@ + decimal(n as nat));
}

pub open spec fn shown_or_none(o: Option<Seq<char>>) -> Seq<char> {
    match o {
        Some(v) => v,
        None => "[None]"@,
    }
}

/// A one-line description of a record for diagnostics: the password is
/// masked, absent fields read `[None]`.
pub open spec fn machine_summary(m: MachineModel) -> Seq<char> {
    "Machine { login: "@ + m.login + ", password: "@ + (if m.password is Some {
        "******"@
    } else {
        "[None]"@
    }) + ", account: "@ + shown_or_none(m.account) + ", port: "@ + match m.port {
        Some(p) => decimal(p as nat),
        None => "[None]"@,
    } + " }"@
}

/// Describes `machine` as `machine_summary` states it.
pub fn fmt_netrc_machine(machine: &Machine) -> (r: String)
    ensures
        r@ == machine_summary(machine@),
{
    let mut rtn = String::from_str("Machine { login: ");
    rtn.append(machine.login.as_str());
    rtn.append(", password: ");
    if machine.password.is_some() {
        rtn.append("******");
    } else {
        rtn.append("[None]");
    }
    rtn.append(", account: ");
    match &machine.account {
        Some(vv) => rtn.append(vv.as_str()),
        None => rtn.append("[None]"),
    }
    rtn.append(", port: ");
    match machine.port {
        Some(vv) => push_decimal(&mut rtn, vv),
        None => rtn.append("[None]"),
    }
    rtn.append(" }");
    rtn
}

} // verus!
