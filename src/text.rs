//! Character-level helpers: whitespace classification, conversion of text
//! into a character vector, line numbering and port numbers.
use vstd::prelude::*;

verus! {

/// Characters with the Unicode `White_Space` property.
pub open spec fn is_ws(c: char) -> bool {
    ||| ('\u{9}' <= c && c <= '\u{D}')
    ||| c == ' '
    ||| c == '\u{85}'
    ||| c == '\u{A0}'
    ||| c == '\u{1680}'
    ||| ('\u{2000}' <= c && c <= '\u{200A}')
    ||| c == '\u{2028}'
    ||| c == '\u{2029}'
    ||| c == '\u{202F}'
    ||| c == '\u{205F}'
    ||| c == '\u{3000}'
}

/// Whitespace test, as `char::is_whitespace` classifies characters.
pub fn is_whitespace(c: char) -> (r: bool)
    ensures
        r == is_ws(c),
{
    ('\u{9}' <= c && c <= '\u{D}') || c == ' ' || c == '\u{85}' || c == '\u{A0}' || c
        == '\u{1680}' || ('\u{2000}' <= c && c <= '\u{200A}') || c == '\u{2028}' || c
        == '\u{2029}' || c == '\u{202F}' || c == '\u{205F}' || c == '\u{3000}'
}

/// The characters of `s`, in order.
pub fn to_chars(s: &str) -> (r: Vec<char>)
    ensures
        r@ == s@,
{
    let mut v: Vec<char> = Vec::new();
    for c in it: s.chars()
        invariant
            v@ == it.seq().take(it.index() as int),
    {
        v.push(c);
    }
    v
}

/// Relies on `String::push`: appends `c` to the end of `s`.
#[verifier::external_body]
pub(crate) fn push_char(s: &mut String, c: char)
    ensures
        final(s)@ == old(s)@.push(c),
{
    s.push(c)
}

/// The text made of the characters `t[a..b]`.
pub fn string_of(t: &Vec<char>, a: usize, b: usize) -> (r: String)
    requires
        a <= b <= t.len(),
    ensures
        r@ == t@.subrange(a as int, b as int),
{
    let mut r = String::new();
    let mut i: usize = a;
    while i < b
        invariant
            a <= i <= b <= t.len(),
            r@ == t@.subrange(a as int, i as int),
        decreases b - i,
    {
        push_char(&mut r, t[i]);
        i = i + 1;
        assert(r@ =~= t@.subrange(a as int, i as int));
    }
    r
}

/// Number of newline characters among `t[0..q]`.
pub open spec fn nl_count(t: Seq<char>, q: int) -> int
    decreases q,
{
    if q <= 0 {
        0
    } else {
        nl_count(t, q - 1) + if t[q - 1] == '\n' {
            1int
        } else {
            0int
        }
    }
}

/// The 1-based number of the line that holds position `q` of `t`; at the
/// end of the text, the number of lines that the text has.
pub open spec fn line_of(t: Seq<char>, q: int) -> int {
    nl_count(t, q) + if q < t.len() || (q > 0 && t[q - 1] != '\n') {
        1int
    } else {
        0int
    }
}

proof fn lemma_nl_count_bounds(t: Seq<char>, q: int)
    requires
        0 <= q,
    ensures
        0 <= nl_count(t, q) <= q,
    decreases q,
{
    if q > 0 {
        lemma_nl_count_bounds(t, q - 1);
    }
}

/// Line number of position `q`, as `line_of` states it.
pub fn line_number(t: &Vec<char>, q: usize) -> (r: usize)
    requires
        q <= t.len(),
    ensures
        r == line_of(t@, q as int),
{
    let mut n: usize = 0;
    let mut i: usize = 0;
    while i < q
        invariant
            i <= q <= t.len(),
            n == nl_count(t@, i as int),
        decreases q - i,
    {
        proof {
            lemma_nl_count_bounds(t@, i as int);
        }
        if t[i] == '\n' {
            n = n + 1;
        }
        i = i + 1;
    }
    proof {
        lemma_nl_count_bounds(t@, q as int);
        if q > 0 {
            lemma_nl_count_bounds(t@, q - 1);
        }
    }
    if q < t.len() || (q > 0 && t[q - 1] != '\n') {
        n + 1
    } else {
        n
    }
}

/// Decimal value of a sequence of ASCII digits.
pub open spec fn digits_value(d: Seq<char>) -> int
    decreases d.len(),
{
    if d.len() == 0 {
        0
    } else {
        digits_value(d.drop_last()) * 10 + (d.last() as int - '0' as int)
    }
}

pub open spec fn all_digits(d: Seq<char>) -> bool {
    forall|i: int| 0 <= i < d.len() ==> '0' <= #[trigger] d[i] <= '9'
}

/// The digits of a port number: the text without one leading `+`.
pub open spec fn unsigned_digits(v: Seq<char>) -> Seq<char> {
    if v.len() > 0 && v[0] == '+' {
        v.drop_first()
    } else {
        v
    }
}

/// The value of `v` read as an unsigned 16-bit decimal integer, as
/// `u16::from_str` reads it: an optional `+`, then at least one ASCII digit,
/// with a value of at most 65535.
pub open spec fn port_of(v: Seq<char>) -> Option<u16> {
    let d = unsigned_digits(v);
    if d.len() > 0 && all_digits(d) && digits_value(d) <= 65535 {
        Some(digits_value(d) as u16)
    } else {
        None
    }
}

proof fn lemma_digits_value_grows(d: Seq<char>, i: int, j: int)
    requires
        0 <= i <= j <= d.len(),
        all_digits(d),
    ensures
        0 <= digits_value(d.take(i)) <= digits_value(d.take(j)),
    decreases j,
{
    if j > 0 {
        assert(d.take(j).drop_last() =~= d.take(j - 1));
        assert('0' <= d[j - 1] <= '9');
        if i == j {
            lemma_digits_value_grows(d, j - 1, j - 1);
        } else {
            lemma_digits_value_grows(d, i, j - 1);
        }
    } else {
        assert(d.take(0).len() == 0);
    }
}

/// Reads `v` as a port number, as `port_of` states it.
pub fn parse_port(v: &Vec<char>) -> (r: Option<u16>)
    ensures
        r == port_of(v@),
{
    let ghost d = unsigned_digits(v@);
    let off: usize = if v.len() > 0 && v[0] == '+' {
        1
    } else {
        0
    };
    assert(d =~= v@.subrange(off as int, v@.len() as int));
    if off >= v.len() {
        return None;
    }
    let mut value: u32 = 0;
    let mut i: usize = off;
    while i < v.len()
        invariant
            off <= i <= v.len(),
            off < v.len(),
            d == unsigned_digits(v@),
            d =~= v@.subrange(off as int, v@.len() as int),
            forall|k: int| 0 <= k < i - off ==> '0' <= #[trigger] d[k] <= '9',
            value == digits_value(d.take(i - off)),
            value <= 65535,
        decreases v.len() - i,
    {
        let c = v[i];
        if c < '0' || c > '9' {
            assert(d[i - off] == c);
            assert(!('0' <= d[i - off] <= '9'));
            assert(!all_digits(d));
            return None;
        }
        let k = (c as u32) - ('0' as u32);
        assert(d.take(i - off + 1).drop_last() =~= d.take(i - off));
        let next = value * 10 + k;
        if next > 65535 {
            proof {
                if all_digits(d) {
                    lemma_digits_value_grows(d, i - off + 1, d.len() as int);
                    assert(d.take(d.len() as int) =~= d);
                }
            }
            return None;
        }
        value = next;
        i = i + 1;
    }
    assert(d.take(d.len() as int) =~= d);
    Some(value as u16)
}

} // verus!
