//! Properties of the parser and the selector, stated over their models.
use vstd::prelude::*;
use crate::lexer::{
    eof_message, lemma_next_word, line_end, next_word, raw_block, raw_lines, skip_ws, word_end,
};
use crate::netrc::{
    current_ok, empty_netrc, entry, is_field_keyword, lemma_entry_advances, no_machine_message,
    parse_from, parse_text, unknown_entry_message, Current, MachineModel, NetrcModel,
};
use crate::select::{host_matches, select, selection};
use crate::text::{is_ws, line_of};

verus! {

proof fn lemma_keywords_differ()
    ensures
        "login"@ != "machine"@,
        "password"@ != "machine"@,
        "account"@ != "machine"@,
        "port"@ != "machine"@,
        "login"@ != "default"@,
        "password"@ != "default"@,
        "account"@ != "default"@,
        "port"@ != "default"@,
{
    reveal_strlit("login");
    reveal_strlit("password");
    reveal_strlit("account");
    reveal_strlit("port");
    reveal_strlit("machine");
    reveal_strlit("default");
    assert("login"@.len() != "machine"@.len());
    assert("password"@.len() != "machine"@.len());
    assert("account"@[0] != "machine"@[0]);
    assert("port"@.len() != "machine"@.len());
    assert("login"@.len() != "default"@.len());
    assert("password"@.len() != "default"@.len());
    assert("account"@[0] != "default"@[0]);
    assert("port"@.len() != "default"@.len());
}

/// A field keyword read while no record is current (before any `machine`
/// or `default` entry, or right after a macro) ends the parse with
/// "No machine defined for <keyword>" at the keyword's line.
pub proof fn lemma_field_without_record(t: Seq<char>, p: int, n: NetrcModel, s: int, e: int)
    requires
        next_word(t, p) == Some((s, e)),
        is_field_keyword(t.subrange(s, e)),
    ensures
        parse_from(t, p, n, Current::Nothing) == Err::<NetrcModel, (Seq<char>, int)>(
            (no_machine_message(t.subrange(s, e)), line_of(t, s)),
        ),
{
    lemma_keywords_differ();
}

/// A word that is none of the keywords, where a keyword is due, ends the
/// parse with "Unknown entry `<word>'" at the word's line.
pub proof fn lemma_unknown_entry(t: Seq<char>, p: int, n: NetrcModel, cur: Current, s: int, e: int)
    requires
        next_word(t, p) == Some((s, e)),
        !is_field_keyword(t.subrange(s, e)),
        t.subrange(s, e) != "machine"@,
        t.subrange(s, e) != "default"@,
        t.subrange(s, e) != "macdef"@,
    ensures
        parse_from(t, p, n, cur) == Err::<NetrcModel, (Seq<char>, int)>(
            (unknown_entry_message(t.subrange(s, e)), line_of(t, s)),
        ),
{
}

/// A field keyword of a current record, with no word after it, ends the
/// parse with "Unexpected end of file" at the last line.
pub proof fn lemma_field_at_end(t: Seq<char>, p: int, n: NetrcModel, cur: Current, s: int, e: int)
    requires
        current_ok(n, cur),
        !(cur is Nothing),
        next_word(t, p) == Some((s, e)),
        is_field_keyword(t.subrange(s, e)),
        next_word(t, e) is None,
    ensures
        parse_from(t, p, n, cur) == Err::<NetrcModel, (Seq<char>, int)>(
            (eof_message(), line_of(t, t.len() as int)),
        ),
{
    lemma_keywords_differ();
}

proof fn lemma_select_none(hosts: Seq<(Seq<char>, MachineModel)>, hostname: Seq<char>, username: Option<Seq<char>>)
    requires
        forall|i: int| 0 <= i < hosts.len() ==> !host_matches(#[trigger] hosts[i], hostname, username),
    ensures
        select(hosts, hostname, username) is None,
    decreases hosts.len(),
{
    if hosts.len() > 0 {
        assert(!host_matches(hosts[0], hostname, username));
        assert forall|i: int| 0 <= i < hosts.drop_first().len() implies !host_matches(
            #[trigger] hosts.drop_first()[i],
            hostname,
            username,
        ) by {
            assert(hosts.drop_first()[i] == hosts[i + 1]);
        }
        lemma_select_none(hosts.drop_first(), hostname, username);
    }
}

/// With two records of one host name and different logins, asking for the
/// second login selects the second record: the first full match wins, not
/// the first match of the host name.
pub proof fn lemma_first_full_match_wins(n: NetrcModel, hostname: Seq<char>)
    requires
        n.hosts.len() == 2,
        n.hosts[0].0 == hostname,
        n.hosts[1].0 == hostname,
        n.hosts[0].1.login != n.hosts[1].1.login,
    ensures
        selection(n, hostname, Some(n.hosts[1].1.login)) == Ok::<
            Seq<char>,
            (Seq<char>, Option<Seq<char>>),
        >(n.hosts[1].1.login),
{
    let u = Some(n.hosts[1].1.login);
    let rest = n.hosts.drop_first();
    assert(rest[0] == n.hosts[1]);
    assert(select(rest, hostname, u) == Some(n.hosts[1].1.login));
}

/// With no record of the host name and no user name asked for, the outcome
/// is the no-match that carries the host name alone.
pub proof fn lemma_no_host(n: NetrcModel, hostname: Seq<char>)
    requires
        forall|i: int| 0 <= i < n.hosts.len() ==> (#[trigger] n.hosts[i]).0 != hostname,
    ensures
        selection(n, hostname, None) == Err::<Seq<char>, (Seq<char>, Option<Seq<char>>)>(
            (hostname, None),
        ),
{
    assert forall|i: int| 0 <= i < n.hosts.len() implies !host_matches(
        #[trigger] n.hosts[i],
        hostname,
        None,
    ) by {}
    lemma_select_none(n.hosts, hostname, None);
}

/// With records of the host name but none whose login is the user name
/// asked for, the outcome is the no-match that carries both names.
pub proof fn lemma_no_user(n: NetrcModel, hostname: Seq<char>, username: Seq<char>)
    requires
        exists|i: int| 0 <= i < n.hosts.len() && (#[trigger] n.hosts[i]).0 == hostname,
        forall|i: int|
            0 <= i < n.hosts.len() && (#[trigger] n.hosts[i]).0 == hostname ==> n.hosts[i].1.login
                != username,
    ensures
        selection(n, hostname, Some(username)) == Err::<
            Seq<char>,
            (Seq<char>, Option<Seq<char>>),
        >((hostname, Some(username))),
{
    assert forall|i: int| 0 <= i < n.hosts.len() implies !host_matches(
        #[trigger] n.hosts[i],
        hostname,
        Some(username),
    ) by {}
    lemma_select_none(n.hosts, hostname, Some(username));
}

/// The words of `t` from position `p` on.
pub open spec fn words_from(t: Seq<char>, p: int) -> Seq<Seq<char>>
    decreases t.len() - p,
{
    match next_word(t, p) {
        None => Seq::empty(),
        Some((s, e)) => if p < e <= t.len() {
            seq![t.subrange(s, e)] + words_from(t, e)
        } else {
            Seq::empty()
        },
    }
}

/// The host names that a sequence of keyword and value pairs defines: the
/// value of each pair whose keyword is `machine`.
pub open spec fn machine_names(ws: Seq<Seq<char>>) -> Seq<Seq<char>>
    decreases ws.len(),
{
    if ws.len() < 2 {
        Seq::empty()
    } else if ws[0] == "machine"@ {
        seq![ws[1]] + machine_names(ws.skip(2))
    } else {
        machine_names(ws.skip(2))
    }
}

pub open spec fn host_names(n: NetrcModel) -> Seq<Seq<char>> {
    n.hosts.map_values(|h: (Seq<char>, MachineModel)| h.0)
}

proof fn lemma_names_from(t: Seq<char>, p: int, acc: NetrcModel, cur: Current, n: NetrcModel)
    requires
        0 <= p <= t.len(),
        current_ok(acc, cur),
        parse_from(t, p, acc, cur) == Ok::<NetrcModel, (Seq<char>, int)>(n),
        forall|i: int|
            0 <= i < words_from(t, p).len() ==> #[trigger] words_from(t, p)[i] != "default"@
                && words_from(t, p)[i] != "macdef"@,
    ensures
        n.macros == acc.macros,
        acc.default is None ==> n.default is None,
        host_names(n) == host_names(acc) + machine_names(words_from(t, p)),
    decreases t.len() - p,
{
    lemma_next_word(t, p);
    match next_word(t, p) {
        None => {
            assert(host_names(acc) + machine_names(words_from(t, p)) =~= host_names(acc));
        },
        Some((s, e)) => {
            let w = t.subrange(s, e);
            let ws = words_from(t, p);
            assert(ws[0] == w);
            lemma_entry_advances(t, s, e, acc, cur);
            lemma_next_word(t, e);
            if let Ok((q, n2, c2)) = entry(t, s, e, acc, cur) {
                let (s2, e2) = next_word(t, e)->0;
                let v = t.subrange(s2, e2);
                assert(w != "default"@ && w != "macdef"@);
                assert(next_word(t, e) is Some);
                assert(words_from(t, e) == seq![v] + words_from(t, e2));
                assert(ws == seq![w] + words_from(t, e));
                assert(ws =~= seq![w, v] + words_from(t, e2));
                assert(ws.skip(2) =~= words_from(t, e2));
                assert forall|i: int|
                    0 <= i < words_from(t, q).len() implies #[trigger] words_from(t, q)[i]
                    != "default"@ && words_from(t, q)[i] != "macdef"@ by {
                    assert(words_from(t, q)[i] == ws[i + 2]);
                }
                lemma_names_from(t, q, n2, c2, n);
                if w == "machine"@ {
                    assert(host_names(n2) =~= host_names(acc).push(v));
                    assert(machine_names(ws) =~= seq![v] + machine_names(words_from(t, e2)));
                    assert(host_names(n) =~= host_names(acc) + machine_names(ws));
                } else {
                    assert(host_names(n2) =~= host_names(acc));
                    assert(machine_names(ws) =~= machine_names(words_from(t, e2)));
                }
            }
        },
    }
}

/// A text that parses and holds no `default` or `macdef` word defines no
/// macro and no default record, and one host record for each `machine`
/// entry, named as the entries name them, in the order of the text.
pub proof fn lemma_machines_in_order(t: Seq<char>, n: NetrcModel)
    requires
        parse_text(t) == Ok::<NetrcModel, (Seq<char>, int)>(n),
        forall|i: int|
            0 <= i < words_from(t, 0).len() ==> #[trigger] words_from(t, 0)[i] != "default"@
                && words_from(t, 0)[i] != "macdef"@,
    ensures
        n.macros.len() == 0,
        n.default is None,
        host_names(n) == machine_names(words_from(t, 0)),
{
    lemma_names_from(t, 0, empty_netrc(), Current::Nothing, n);
    assert(host_names(empty_netrc()) =~= Seq::<Seq<char>>::empty());
    assert(host_names(n) =~= machine_names(words_from(t, 0)));
}

proof fn lemma_skip_ws_at(t: Seq<char>, p: int, q: int)
    requires
        0 <= p <= q <= t.len(),
        forall|i: int| p <= i < q ==> is_ws(#[trigger] t[i]),
        q == t.len() || !is_ws(t[q]),
    ensures
        skip_ws(t, p) == q,
    decreases q - p,
{
    if p < q {
        lemma_skip_ws_at(t, p + 1, q);
    }
}

proof fn lemma_word_end_at(t: Seq<char>, p: int, q: int)
    requires
        0 <= p <= q <= t.len(),
        forall|i: int| p <= i < q ==> !is_ws(#[trigger] t[i]),
        q == t.len() || is_ws(t[q]),
    ensures
        word_end(t, p) == q,
    decreases q - p,
{
    if p < q {
        lemma_word_end_at(t, p + 1, q);
    }
}

proof fn lemma_line_end_at(t: Seq<char>, p: int, q: int)
    requires
        0 <= p < q <= t.len(),
        forall|i: int| p <= i < q - 1 ==> #[trigger] t[i] != '\n',
        t[q - 1] == '\n',
    ensures
        line_end(t, p) == q,
    decreases q - p,
{
    if p < q - 1 {
        lemma_line_end_at(t, p + 1, q);
    }
}

/// Each line holds at least two characters and ends with its only newline.
pub open spec fn full_lines(lines: Seq<Seq<char>>) -> bool {
    forall|j: int|
        0 <= j < lines.len() ==> {
            let l = #[trigger] lines[j];
            &&& l.len() >= 2
            &&& l.last() == '\n'
            &&& forall|k: int| 0 <= k < l.len() - 1 ==> l[k] != '\n'
        }
}

proof fn lemma_raw_lines_over(t: Seq<char>, s: int, lines: Seq<Seq<char>>, b: int)
    requires
        0 <= s <= b < t.len(),
        t.subrange(s, b) == lines.flatten(),
        t[b] == '\n',
        full_lines(lines),
    ensures
        raw_lines(t, s) == (b, b + 1),
    decreases lines.len(),
{
    if lines.len() == 0 {
        lemma_line_end_at(t, b, b + 1);
        assert(lines.flatten().len() == 0);
        assert(t.subrange(s, b).len() == b - s);
    } else {
        let l = lines[0];
        let m = s + l.len();
        assert(lines.flatten() == l + lines.drop_first().flatten());
        assert forall|i: int| s <= i < m - 1 implies #[trigger] t[i] != '\n' by {
            assert(t.subrange(s, b)[i - s] == l[i - s]);
        }
        assert(t.subrange(s, b)[l.len() - 1] == l.last());
        lemma_line_end_at(t, s, m);
        assert(t.subrange(m, b) =~= lines.drop_first().flatten()) by {
            assert(t.subrange(m, b) =~= t.subrange(s, b).subrange(l.len() as int, b - s));
        }
        assert forall|j: int| 0 <= j < lines.drop_first().len() implies {
            let l2 = #[trigger] lines.drop_first()[j];
            &&& l2.len() >= 2
            &&& l2.last() == '\n'
            &&& forall|k: int| 0 <= k < l2.len() - 1 ==> l2[k] != '\n'
        } by {
            assert(lines.drop_first()[j] == lines[j + 1]);
        }
        lemma_raw_lines_over(t, m, lines.drop_first(), b);
    }
}

/// The text of a macro definition: `macdef NAME`, then the body lines,
/// then a blank line, then `rest`.
pub open spec fn macro_text(name: Seq<char>, lines: Seq<Seq<char>>, rest: Seq<char>) -> Seq<char> {
    "macdef"@ + seq![' '] + name + seq!['\n'] + lines.flatten() + seq!['\n'] + rest
}

/// A `macdef NAME` line followed by lines of at least two characters and
/// a blank line defines exactly one macro named NAME, whose body is the
/// rest of its first line (its newline) and those lines verbatim; parsing
/// then goes on after the blank line as at the start of a text.
pub proof fn lemma_macro_capture(name: Seq<char>, lines: Seq<Seq<char>>, rest: Seq<char>)
    requires
        name.len() > 0,
        forall|i: int| 0 <= i < name.len() ==> !is_ws(#[trigger] name[i]),
        full_lines(lines),
    ensures
        parse_text(macro_text(name, lines, rest)) == parse_from(
            macro_text(name, lines, rest),
            macro_text(name, lines, rest).len() - rest.len(),
            NetrcModel {
                hosts: Seq::empty(),
                default: None,
                macros: seq![(name, seq!['\n'] + lines.flatten())],
            },
            Current::Nothing,
        ),
{
    reveal_strlit("macdef");
    reveal_strlit("machine");
    reveal_strlit("default");
    reveal_strlit("login");
    reveal_strlit("password");
    reveal_strlit("account");
    reveal_strlit("port");
    let kw = "macdef"@;
    let body = lines.flatten();
    let t = macro_text(name, lines, rest);
    let a: int = 7 + name.len() as int;
    let b: int = a + 1;
    let bl: int = b + body.len() as int;
    assert(kw.len() == 6);
    assert(t.len() == bl + 1 + rest.len());
    assert(t.subrange(0, 6) =~= kw);
    assert forall|i: int| 0 <= i < 6 implies !is_ws(#[trigger] t[i]) by {
        assert(t[i] == kw[i]);
    }
    assert(t[6] == ' ');
    assert forall|i: int| 7 <= i < a implies !is_ws(#[trigger] t[i]) by {
        assert(t[i] == name[i - 7]);
    }
    assert(t[a] == '\n');
    assert(t[bl] == '\n');
    assert(t.subrange(7, a) =~= name);
    assert(t.subrange(b, bl) =~= body);
    assert(t.subrange(a, bl) =~= seq!['\n'] + body);
    lemma_skip_ws_at(t, 0, 0);
    lemma_word_end_at(t, 0, 6);
    lemma_skip_ws_at(t, 6, 7);
    lemma_word_end_at(t, 7, a);
    lemma_line_end_at(t, a, b);
    lemma_raw_lines_over(t, b, lines, bl);
    assert(next_word(t, 0) == Some((0int, 6int)));
    assert(next_word(t, 6) == Some((7int, a)));
    assert(raw_block(t, a) == (bl, bl + 1));
    let n2 = NetrcModel {
        hosts: Seq::empty(),
        default: None,
        macros: seq![(name, seq!['\n'] + body)],
    };
    assert(empty_netrc().macros.push((t.subrange(7, a), t.subrange(a, bl))) =~= n2.macros);
    assert(entry(t, 0, 6, empty_netrc(), Current::Nothing) == Ok::<
        (int, NetrcModel, Current),
        (Seq<char>, int),
    >((bl + 1, n2, Current::Nothing)));
}

} // verus!
