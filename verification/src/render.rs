//! Texts that generated code is made of: numbers in decimal and in
//! hexadecimal, the path of a register as an expression, a text as a block
//! of comment lines.
use crate::ir::{PathChunk, PathChunkView};
use crate::ordered::views;
use crate::text::{chars_of, push_char, replace_all, replaced};
use vstd::prelude::*;
use vstd::string::StringExecFns;

verus! {

/// The character of the digit `d` in a base up to 16, in lower case.
pub open spec fn digit_char(d: int) -> char {
    if d < 10 {
        (('0' as u8) + d) as char
    } else {
        (('a' as u8) + d - 10) as char
    }
}

/// The digits of `n`, the most significant first: in hexadecimal where
/// `hex` holds, in decimal otherwise.
pub open spec fn digits(n: nat, hex: bool) -> Seq<char>
    decreases n,
{
    if hex {
        if n < 16 {
            seq![digit_char(n as int)]
        } else {
            digits(n / 16, hex).push(digit_char((n % 16) as int))
        }
    } else {
        if n < 10 {
            seq![digit_char(n as int)]
        } else {
            digits(n / 10, hex).push(digit_char((n % 10) as int))
        }
    }
}

/// `n` in decimal.
pub open spec fn decimal(n: nat) -> Seq<char> {
    digits(n, false)
}

/// `n` in hexadecimal, in lower case, after `0x`.
pub open spec fn hexadecimal(n: nat) -> Seq<char> {
    seq!['0', 'x'] + digits(n, true)
}

fn to_digit_char(d: u8) -> (c: char)
    requires
        d < 16,
    ensures
        c == digit_char(d as int),
{
    if d < 10 {
        (48u8 + d) as char
    } else {
        (97u8 + d - 10) as char
    }
}

fn append_digits(out: &mut String, n: u64, hex: bool)
    ensures
        final(out)@ == old(out)@ + digits(n as nat, hex),
    decreases n,
{
    let ghost before = out@;
    if hex {
        if n >= 16 {
            append_digits(out, n / 16, hex);
        }
        push_char(out, to_digit_char((n % 16) as u8));
    } else {
        if n >= 10 {
            append_digits(out, n / 10, hex);
        }
        push_char(out, to_digit_char((n % 10) as u8));
    }
    proof {
        assert(out@ =~= before + digits(n as nat, hex));
    }
}

/// `n` in decimal.
pub fn to_decimal(n: u64) -> (r: String)
    ensures
        r@ == decimal(n as nat),
{
    let mut out = String::new();
    append_digits(&mut out, n, false);
    proof {
        assert(Seq::<char>::empty() + decimal(n as nat) =~= decimal(n as nat));
    }
    out
}

/// `n` in hexadecimal, in lower case, after `0x`.
pub fn to_hex(n: u64) -> (r: String)
    ensures
        r@ == hexadecimal(n as nat),
{
    proof {
        reveal_strlit("0x");
        assert("0x"@ =~= seq!['0', 'x']);
    }
    let mut out = String::from_str("0x");
    append_digits(&mut out, n, true);
    out
}

/// The number that the decimal digits `s` stand for; nothing where `s` is
/// empty or holds anything but digits.
pub open spec fn digits_value(s: Seq<char>) -> Option<nat>
    decreases s.len(),
{
    if s.len() == 0 {
        None
    } else if !('0' <= s.last() <= '9') {
        None
    } else if s.len() == 1 {
        Some((s.last() as u8 - '0' as u8) as nat)
    } else {
        match digits_value(s.drop_last()) {
            Some(v) => Some(v * 10 + (s.last() as u8 - '0' as u8) as nat),
            None => None,
        }
    }
}

/// The number that the text `s` stands for: decimal digits, after a `+`
/// where there is one. Nothing where the text is no such number or the
/// number does not fit in 64 bits.
pub open spec fn parsed_number(s: Seq<char>) -> Option<u64> {
    let body = if s.len() > 0 && s[0] == '+' {
        s.drop_first()
    } else {
        s
    };
    match digits_value(body) {
        Some(v) => if v <= u64::MAX {
            Some(v as u64)
        } else {
            None
        },
        None => None,
    }
}

/// The value of a longer text of digits is no smaller than that of a
/// shorter one that it starts with.
proof fn lemma_digits_value_grows(s: Seq<char>, n: int)
    requires
        1 <= n <= s.len(),
        digits_value(s) is Some,
    ensures
        digits_value(s.take(n)) is Some,
        digits_value(s.take(n))->0 <= digits_value(s)->0,
    decreases s.len() - n,
{
    if n < s.len() {
        assert(s.drop_last().take(n) =~= s.take(n));
        if s.len() > 1 {
            lemma_digits_value_grows(s.drop_last(), n);
        }
    } else {
        assert(s.take(n) =~= s);
    }
}

/// No longer text of digits has a value where a shorter one that it starts
/// with has none.
proof fn lemma_digits_value_none(s: Seq<char>, n: int)
    requires
        1 <= n <= s.len(),
        digits_value(s.take(n)) is None,
    ensures
        digits_value(s) is None,
    decreases s.len() - n,
{
    if n < s.len() {
        assert(s.drop_last().take(n) =~= s.take(n));
        lemma_digits_value_none(s.drop_last(), n);
    } else {
        assert(s.take(n) =~= s);
    }
}

/// Reads a number written in decimal, with or without a `+` before it.
pub fn parse_number(s: &str) -> (r: Option<u64>)
    ensures
        r == parsed_number(s@),
{
    let chars = chars_of(s);
    let start: usize = if chars.len() > 0 && chars[0] == '+' {
        1
    } else {
        0
    };
    let ghost body = chars@.subrange(start as int, chars@.len() as int);
    proof {
        if start == 1 {
            assert(body =~= s@.drop_first());
        } else {
            assert(body =~= s@);
        }
    }
    if start >= chars.len() {
        return None;
    }
    let mut value: u64 = 0;
    let mut i: usize = start;
    while i < chars.len()
        invariant
            start <= i <= chars.len(),
            start < chars.len(),
            body == chars@.subrange(start as int, chars@.len() as int),
            body == if s@.len() > 0 && s@[0] == '+' {
                s@.drop_first()
            } else {
                s@
            },
            i == start ==> value == 0,
            i > start ==> digits_value(body.take(i - start)) == Some(value as nat),
        decreases chars.len() - i,
    {
        let c = chars[i];
        proof {
            let k = i - start;
            assert(body.take(k + 1).drop_last() =~= body.take(k));
            assert(body.take(k + 1).last() == c);
        }
        if !(c >= '0' && c <= '9') {
            proof {
                lemma_digits_value_none(body, i - start + 1);
            }
            return None;
        }
        let d: u64 = (c as u8 - 48u8) as u64;
        let next = match value.checked_mul(10) {
            None => None,
            Some(tenfold) => tenfold.checked_add(d),
        };
        match next {
            None => {
                proof {
                    let k = i - start + 1;
                    assert(digits_value(body.take(k)) is Some);
                    assert(digits_value(body.take(k))->0 > u64::MAX);
                    if digits_value(body) is Some {
                        lemma_digits_value_grows(body, k);
                    }
                }
                return None;
            },
            Some(v) => {
                value = v;
            },
        }
        i += 1;
    }
    proof {
        assert(body.take(body.len() as int) =~= body);
    }
    Some(value)
}

/// A number written in decimal, in hexadecimal. Nothing where the text is
/// no number that fits in 64 bits.
pub fn num_str_to_hex(number_str: &str) -> (r: Option<String>)
    ensures
        match r {
            Some(hex) => parsed_number(number_str@) matches Some(n) && hex@ == hexadecimal(n as nat),
            None => parsed_number(number_str@) is None,
        },
{
    match parse_number(number_str) {
        Some(n) => Some(to_hex(n)),
        None => None,
    }
}

/// One segment of a path as it is written in an expression: the first
/// segment by its name, every other as a call; the index in brackets where
/// it has one; and a dot after it unless it is the last.
pub open spec fn rendered_chunk(chunk: PathChunkView, first: bool, last: bool) -> Seq<char> {
    chunk.path + (if first {
        Seq::<char>::empty()
    } else {
        seq!['(', ')']
    }) + (match chunk.index {
        Some(index) => seq!['['] + decimal(index as nat) + seq![']'],
        None => Seq::<char>::empty(),
    }) + (if last {
        Seq::<char>::empty()
    } else {
        seq!['.']
    })
}

/// The first `n` segments of `path` as they are written in an expression.
pub open spec fn rendered_prefix(path: Seq<PathChunkView>, n: int) -> Seq<char>
    decreases n,
{
    if n <= 0 {
        Seq::empty()
    } else {
        rendered_prefix(path, n - 1) + rendered_chunk(path[n - 1], n == 1, n == path.len())
    }
}

/// The path of a register as the expression that reaches it.
pub open spec fn rendered_path(path: Seq<PathChunkView>) -> Seq<char> {
    rendered_prefix(path, path.len() as int)
}

/// Writes the path of a register as the expression that reaches it, such
/// as `UART[0].ctrl().en()`.
pub fn render_path(path: &Vec<PathChunk>) -> (r: String)
    ensures
        r@ == rendered_path(views(path@)),
{
    let mut out = String::new();
    let mut i: usize = 0;
    while i < path.len()
        invariant
            i <= path.len(),
            out@ == rendered_prefix(views(path@), i as int),
        decreases path.len() - i,
    {
        let ghost before = out@;
        let chunk = &path[i];
        proof {
            reveal_strlit("()");
            reveal_strlit("[");
            reveal_strlit("]");
            reveal_strlit(".");
            assert("()"@ =~= seq!['(', ')']);
            assert("["@ =~= seq!['[']);
            assert("]"@ =~= seq![']']);
            assert("."@ =~= seq!['.']);
        }
        out.append(chunk.path.as_str());
        if i != 0 {
            out.append("()");
        }
        match chunk.index {
            Some(index) => {
                out.append("[");
                let number = to_decimal(index as u64);
                out.append(number.as_str());
                out.append("]");
            },
            None => {},
        }
        if i != path.len() - 1 {
            out.append(".");
        }
        proof {
            let c = views(path@)[i as int];
            assert(c == chunk@);
            assert(out@ =~= before + rendered_chunk(c, i == 0, i == path.len() - 1));
        }
        i += 1;
    }
    out
}

/// The lines of `s` from position `i` on, after the lines `done` and the
/// characters `current` of the line being read. A line ends at a line feed
/// or at a carriage return followed by a line feed.
pub open spec fn lines_from(s: Seq<char>, i: int, done: Seq<Seq<char>>, current: Seq<char>) -> Seq<
    Seq<char>,
>
    decreases s.len() - i,
{
    if i < 0 || i >= s.len() {
        done.push(current)
    } else if s[i] == '\n' {
        lines_from(s, i + 1, done.push(current), Seq::empty())
    } else if s[i] == '\r' && i + 1 < s.len() && s[i + 1] == '\n' {
        lines_from(s, i + 2, done.push(current), Seq::empty())
    } else {
        lines_from(s, i + 1, done, current.push(s[i]))
    }
}

/// The lines of `s`: one more than it has line ends.
pub open spec fn lines_of(s: Seq<char>) -> Seq<Seq<char>> {
    lines_from(s, 0, Seq::empty(), Seq::empty())
}

/// The lines of `s`, each after `prefix`.
pub open spec fn prepended_lines(s: Seq<char>, prefix: Seq<char>) -> Seq<Seq<char>> {
    lines_of(s).map_values(|line: Seq<char>| prefix + line)
}

/// Splits `value` into its lines and puts `prefix` before each: the lines
/// of a comment.
pub fn prepend_lines(value: &str, prefix: &str) -> (r: Vec<String>)
    ensures
        crate::text::texts(r@) == prepended_lines(value@, prefix@),
{
    let chars = chars_of(value);
    let mut out: Vec<String> = Vec::new();
    let mut current = String::from_str(prefix);
    let ghost done: Seq<Seq<char>> = Seq::empty();
    let ghost line: Seq<char> = Seq::empty();
    let mut i: usize = 0;
    proof {
        assert(crate::text::texts(out@) =~= done.map_values(|l: Seq<char>| prefix@ + l));
        assert(current@ =~= prefix@ + line);
    }
    while i < chars.len()
        invariant
            i <= chars.len(),
            chars@ == value@,
            lines_from(chars@, i as int, done, line) == lines_of(value@),
            crate::text::texts(out@) == done.map_values(|l: Seq<char>| prefix@ + l),
            current@ == prefix@ + line,
        decreases chars.len() - i,
    {
        let ghost out_before = out@;
        let c = chars[i];
        let ends_pair = c == '\r' && i + 1 < chars.len() && chars[i + 1] == '\n';
        if c == '\n' || ends_pair {
            out.push(current);
            proof {
                assert(crate::text::texts(out@) =~= crate::text::texts(out_before).push(
                    prefix@ + line,
                ));
                assert(done.push(line).map_values(|l: Seq<char>| prefix@ + l) =~= done.map_values(
                    |l: Seq<char>| prefix@ + l,
                ).push(prefix@ + line));
            }
            current = String::from_str(prefix);
            proof {
                done = done.push(line);
                line = Seq::empty();
                assert(current@ =~= prefix@ + line);
            }
            if c == '\n' {
                i += 1;
            } else {
                i += 2;
            }
        } else {
            push_char(&mut current, c);
            proof {
                assert(current@ =~= prefix@ + line.push(c));
                line = line.push(c);
            }
            i += 1;
        }
    }
    let ghost out_before = out@;
    out.push(current);
    proof {
        assert(crate::text::texts(out@) =~= crate::text::texts(out_before).push(prefix@ + line));
        assert(done.push(line).map_values(|l: Seq<char>| prefix@ + l) =~= done.map_values(
            |l: Seq<char>| prefix@ + l,
        ).push(prefix@ + line));
    }
    out
}

/// What `str::escape_debug` makes of the text `s`.
pub uninterp spec fn debug_escaped(s: Seq<char>) -> Seq<char>;

/// `str::escape_debug`, collected into a string: the text with the
/// characters that a string literal cannot hold as they are written as
/// escapes. The result depends on the text alone; nothing more is claimed of
/// it.
#[verifier::external_body]
fn escape_debug(s: &str) -> (r: String)
    ensures
        r@ == debug_escaped(s@),
{
    s.escape_debug().collect()
}

/// A description as it can stand in a documentation attribute: with a
/// backslash before each square bracket, and then escaped as a string
/// literal is.
pub open spec fn doc_text(s: Seq<char>) -> Seq<char> {
    debug_escaped(
        replaced(replaced(s, seq!['['], seq!['\\', '[']), seq![']'], seq!['\\', ']']),
    )
}

/// Makes a description fit to stand in a documentation attribute.
pub fn svd_description_to_doc(doc_string: &str) -> (r: String)
    ensures
        r@ == doc_text(doc_string@),
{
    proof {
        reveal_strlit("[");
        reveal_strlit("]");
        reveal_strlit("\\[");
        reveal_strlit("\\]");
        assert("["@ =~= seq!['[']);
        assert("]"@ =~= seq![']']);
        assert("\\["@ =~= seq!['\\', '[']);
        assert("\\]"@ =~= seq!['\\', ']']);
    }
    let opened = replace_all(doc_string, "[", "\\[");
    let closed = replace_all(opened.as_str(), "]", "\\]");
    escape_debug(closed.as_str())
}

} // verus!
