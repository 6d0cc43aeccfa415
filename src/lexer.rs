//! The tokenizer: whitespace-separated words over the characters of a text,
//! and raw blocks of lines for macro bodies.
use vstd::prelude::*;
use crate::error::Error;
use crate::text::{is_ws, is_whitespace, line_number, line_of, push_char, string_of, to_chars};

verus! {

/// First position at or after `p` that does not hold whitespace.
pub open spec fn skip_ws(t: Seq<char>, p: int) -> int
    decreases t.len() - p,
{
    if 0 <= p < t.len() && is_ws(t[p]) {
        skip_ws(t, p + 1)
    } else {
        p
    }
}

/// First position at or after `p` that holds whitespace, or the end.
pub open spec fn word_end(t: Seq<char>, p: int) -> int
    decreases t.len() - p,
{
    if 0 <= p < t.len() && !is_ws(t[p]) {
        word_end(t, p + 1)
    } else {
        p
    }
}

/// Start and end of the next word at or after `p`, if there is one.
pub open spec fn next_word(t: Seq<char>, p: int) -> Option<(int, int)> {
    let s = skip_ws(t, p);
    if s < t.len() {
        Some((s, word_end(t, s)))
    } else {
        None
    }
}

/// End of the line that holds `p`: just past its newline, or the end of
/// the text.
pub open spec fn line_end(t: Seq<char>, p: int) -> int
    decreases t.len() - p,
{
    if 0 <= p < t.len() {
        if t[p] == '\n' {
            p + 1
        } else {
            line_end(t, p + 1)
        }
    } else {
        p
    }
}

pub proof fn lemma_line_end(t: Seq<char>, p: int)
    requires
        0 <= p <= t.len(),
    ensures
        p <= line_end(t, p) <= t.len(),
        p < t.len() ==> p < line_end(t, p),
    decreases t.len() - p,
{
    if p < t.len() && t[p] != '\n' {
        lemma_line_end(t, p + 1);
    }
}

#[via_fn]
proof fn raw_lines_decreases(t: Seq<char>, s: int) {
    if 0 <= s <= t.len() {
        lemma_line_end(t, s);
    }
}

/// Lines read from `s` on until one of at most one character: the end of
/// the text that they hold before that line, and the position after it.
pub open spec fn raw_lines(t: Seq<char>, s: int) -> (int, int)
    decreases t.len() - s
    via raw_lines_decreases
{
    let e = line_end(t, s);
    if 0 <= s <= t.len() && e - s > 1 {
        raw_lines(t, e)
    } else {
        (s, e)
    }
}

pub proof fn lemma_raw_lines(t: Seq<char>, s: int)
    requires
        0 <= s <= t.len(),
    ensures
        s <= raw_lines(t, s).0 <= raw_lines(t, s).1 <= t.len(),
    decreases t.len() - s,
{
    lemma_line_end(t, s);
    if line_end(t, s) - s > 1 {
        lemma_raw_lines(t, line_end(t, s));
    }
}

/// A raw block that starts at `p`: the rest of the line of `p` and the lines
/// after it, up to a line of at most one character. Its text ends at `.0`;
/// reading goes on at `.1`, after the terminating line.
pub open spec fn raw_block(t: Seq<char>, p: int) -> (int, int) {
    raw_lines(t, line_end(t, p))
}

pub proof fn lemma_raw_block(t: Seq<char>, p: int)
    requires
        0 <= p <= t.len(),
    ensures
        p <= raw_block(t, p).0 <= raw_block(t, p).1 <= t.len(),
{
    lemma_line_end(t, p);
    lemma_raw_lines(t, line_end(t, p));
}

pub proof fn lemma_next_word(t: Seq<char>, p: int)
    requires
        0 <= p <= t.len(),
    ensures
        p <= skip_ws(t, p) <= t.len(),
        next_word(t, p) matches Some((s, e)) ==> p <= s < e <= t.len(),
    decreases t.len() - p,
{
    if p < t.len() && is_ws(t[p]) {
        lemma_next_word(t, p + 1);
    }
    let s = skip_ws(t, p);
    if s < t.len() {
        lemma_word_end(t, s);
    }
}

proof fn lemma_word_end(t: Seq<char>, p: int)
    requires
        0 <= p <= t.len(),
    ensures
        p <= word_end(t, p) <= t.len(),
        p < t.len() && !is_ws(t[p]) ==> p < word_end(t, p),
    decreases t.len() - p,
{
    if p < t.len() && !is_ws(t[p]) {
        lemma_word_end(t, p + 1);
    }
}

/// The message of a value that is missing at the end of the text.
pub open spec fn eof_message() -> Seq<char> {
    "Unexpected end of file"@
}

/// Reads words and raw blocks from a text, front to back.
pub struct Lexer {
    pub chars: Vec<char>,
    /// Where reading goes on.
    pub pos: usize,
    /// Where the last word read starts; the end of the text once none is left.
    pub start: usize,
}

impl Lexer {
    pub open spec fn wf(&self) -> bool {
        self.start <= self.pos <= self.chars.len()
    }

    pub fn new(s: &str) -> (l: Lexer)
        ensures
            l.chars@ == s@,
            l.pos == 0,
            l.start == 0,
            l.wf(),
    {
        Lexer { chars: to_chars(s), pos: 0, start: 0 }
    }

    /// The next word, or `None` at the end of the text.
    pub fn next_word(&mut self) -> (r: Option<String>)
        requires
            old(self).wf(),
        ensures
            final(self).wf(),
            final(self).chars == old(self).chars,
            match next_word(old(self).chars@, old(self).pos as int) {
                None => r is None && final(self).pos == final(self).chars.len()
                    && final(self).start == final(self).chars.len(),
                Some((s, e)) => r matches Some(w) && w@ == old(self).chars@.subrange(s, e)
                    && final(self).start == s && final(self).pos == e,
            },
    {
        let ghost t = self.chars@;
        proof {
            lemma_next_word(t, self.pos as int);
        }
        let mut i: usize = self.pos;
        while i < self.chars.len() && is_whitespace(self.chars[i])
            invariant
                self.wf(),
                t == self.chars@,
                self.pos <= i <= self.chars.len(),
                skip_ws(t, self.pos as int) == skip_ws(t, i as int),
            decreases self.chars.len() - i,
        {
            i = i + 1;
        }
        if i == self.chars.len() {
            self.pos = i;
            self.start = i;
            return None;
        }
        let s = i;
        let mut w = String::new();
        while i < self.chars.len() && !is_whitespace(self.chars[i])
            invariant
                t == self.chars@,
                s <= i <= self.chars.len(),
                w@ == t.subrange(s as int, i as int),
                word_end(t, s as int) == word_end(t, i as int),
            decreases self.chars.len() - i,
        {
            push_char(&mut w, self.chars[i]);
            i = i + 1;
            assert(w@ =~= t.subrange(s as int, i as int));
        }
        self.start = s;
        self.pos = i;
        Some(w)
    }

    /// The 1-based line number of the last word read, or the number of
    /// lines once the text is used up.
    pub fn line(&self) -> (r: usize)
        requires
            self.wf(),
        ensures
            r == line_of(self.chars@, self.start as int),
    {
        line_number(&self.chars, self.start)
    }

    /// The next word; at the end of the text, an error.
    pub fn next_word_or_err(&mut self) -> (r: Result<String, Error>)
        requires
            old(self).wf(),
        ensures
            final(self).wf(),
            final(self).chars == old(self).chars,
            match next_word(old(self).chars@, old(self).pos as int) {
                None => r matches Err(Error::Parse(m, l)) && m@ == eof_message() && l
                    == line_of(old(self).chars@, old(self).chars@.len() as int),
                Some((s, e)) => r matches Ok(w) && w@ == old(self).chars@.subrange(s, e)
                    && final(self).start == s && final(self).pos == e,
            },
    {
        match self.next_word() {
            Some(w) => Ok(w),
            None => Err(Error::Parse(String::from_str("Unexpected end of file"), self.line())),
        }
    }

    /// Whether the last word read is `kw`.
    pub fn word_is(&self, kw: &str) -> (r: bool)
        requires
            self.wf(),
        ensures
            r == (self.chars@.subrange(self.start as int, self.pos as int) == kw@),
    {
        let k = to_chars(kw);
        if k.len() != self.pos - self.start {
            proof {
                assert(self.chars@.subrange(self.start as int, self.pos as int).len() != kw@.len());
            }
            return false;
        }
        let mut i: usize = 0;
        while i < k.len()
            invariant
                self.wf(),
                k@ == kw@,
                k.len() == self.pos - self.start,
                i <= k.len(),
                forall|j: int| 0 <= j < i ==> k@[j] == self.chars@[self.start + j],
            decreases k.len() - i,
        {
            if k[i] != self.chars[self.start + i] {
                assert(self.chars@.subrange(self.start as int, self.pos as int)[i as int] != kw@[i as int]);
                return false;
            }
            i = i + 1;
        }
        assert(self.chars@.subrange(self.start as int, self.pos as int) =~= kw@);
        true
    }

    /// Position just past the line that holds `p`.
    fn find_line_end(&self, p: usize) -> (r: usize)
        requires
            p <= self.chars.len(),
        ensures
            r == line_end(self.chars@, p as int),
            p <= r <= self.chars.len(),
    {
        proof {
            lemma_line_end(self.chars@, p as int);
        }
        let mut i: usize = p;
        while i < self.chars.len() && self.chars[i] != '\n'
            invariant
                p <= i <= self.chars.len(),
                line_end(self.chars@, p as int) == line_end(self.chars@, i as int),
            decreases self.chars.len() - i,
        {
            i = i + 1;
        }
        if i < self.chars.len() {
            i + 1
        } else {
            i
        }
    }

    /// The raw block that starts where reading stands, as `raw_block`
    /// states it; reading goes on after its terminating line.
    pub fn next_raw_block(&mut self) -> (r: String)
        requires
            old(self).wf(),
        ensures
            final(self).wf(),
            final(self).chars == old(self).chars,
            final(self).start == old(self).start,
            r@ == old(self).chars@.subrange(
                old(self).pos as int,
                raw_block(old(self).chars@, old(self).pos as int).0,
            ),
            final(self).pos == raw_block(old(self).chars@, old(self).pos as int).1,
    {
        let ghost t = self.chars@;
        let b = self.find_line_end(self.pos);
        let mut s: usize = b;
        let mut e: usize = self.find_line_end(s);
        proof {
            lemma_line_end(t, s as int);
        }
        while e - s > 1
            invariant
                self.wf(),
                t == self.chars@,
                self.pos <= b <= s <= e <= self.chars.len(),
                e == line_end(t, s as int),
                raw_lines(t, s as int) == raw_lines(t, b as int),
            decreases self.chars.len() - s,
        {
            s = e;
            e = self.find_line_end(s);
        }
        let r = string_of(&self.chars, self.pos, s);
        self.pos = e;
        r
    }
}

} // verus!
