//! The wire encoding of a [`Diagnostic`]: a fixed two-field JSON object,
//! `{"errorMessage":...,"errorType":...}`, with both fields as JSON strings.
//! Encoding and decoding are exact inverses; see [`lemma_diag_round_trip`].
//!
//! A quote, a backslash, a newline, a carriage return and a tab are written
//! with a two-character backslash escape, every other control character as
//! `\u00` and two lowercase hex digits; every other character stands for
//! itself.

use vstd::prelude::*;
use crate::chars::{chars_vec, starts_with_at, string_from_chars};
use crate::types::Diagnostic;

verus! {

/// The lowercase hex digit with value `n`.
pub open spec fn hex_char(n: int) -> char {
    if n == 0 {
        '0'
    } else if n == 1 {
        '1'
    } else if n == 2 {
        '2'
    } else if n == 3 {
        '3'
    } else if n == 4 {
        '4'
    } else if n == 5 {
        '5'
    } else if n == 6 {
        '6'
    } else if n == 7 {
        '7'
    } else if n == 8 {
        '8'
    } else if n == 9 {
        '9'
    } else if n == 10 {
        'a'
    } else if n == 11 {
        'b'
    } else if n == 12 {
        'c'
    } else if n == 13 {
        'd'
    } else if n == 14 {
        'e'
    } else {
        'f'
    }
}

/// The value of the lowercase hex digit `c`.
pub open spec fn hex_val(c: char) -> Option<int> {
    if c == '0' {
        Some(0)
    } else if c == '1' {
        Some(1)
    } else if c == '2' {
        Some(2)
    } else if c == '3' {
        Some(3)
    } else if c == '4' {
        Some(4)
    } else if c == '5' {
        Some(5)
    } else if c == '6' {
        Some(6)
    } else if c == '7' {
        Some(7)
    } else if c == '8' {
        Some(8)
    } else if c == '9' {
        Some(9)
    } else if c == 'a' {
        Some(10)
    } else if c == 'b' {
        Some(11)
    } else if c == 'c' {
        Some(12)
    } else if c == 'd' {
        Some(13)
    } else if c == 'e' {
        Some(14)
    } else if c == 'f' {
        Some(15)
    } else {
        None
    }
}

/// The encoding of one character inside a JSON string.
pub open spec fn escape_char(c: char) -> Seq<char> {
    if c == '"' {
        seq!['\\', '"']
    } else if c == '\\' {
        seq!['\\', '\\']
    } else if c == '\n' {
        seq!['\\', 'n']
    } else if c == '\r' {
        seq!['\\', 'r']
    } else if c == '\t' {
        seq!['\\', 't']
    } else if (c as u32) < 32 {
        seq!['\\', 'u', '0', '0', hex_char(((c as u32) / 16) as int), hex_char(
            ((c as u32) % 16) as int,
        )]
    } else {
        seq![c]
    }
}

/// The encoding of `s` as the body of a JSON string.
pub open spec fn escape_seq(s: Seq<char>) -> Seq<char>
    decreases s.len(),
{
    if s.len() == 0 {
        Seq::empty()
    } else {
        escape_char(s[0]) + escape_seq(s.drop_first())
    }
}

/// The character written as the escape `\e`, if `\e` is an escape this
/// codec reads.
pub open spec fn unescape_char(e: char) -> Option<char> {
    if e == '"' {
        Some('"')
    } else if e == '\\' {
        Some('\\')
    } else if e == 'n' {
        Some('\n')
    } else if e == 'r' {
        Some('\r')
    } else if e == 't' {
        Some('\t')
    } else {
        None
    }
}

/// Reads a JSON string body from the front of `s`, up to and including the
/// closing quote: the decoded content, and what follows the quote.
pub open spec fn scan_string(s: Seq<char>) -> Option<(Seq<char>, Seq<char>)>
    decreases s.len(),
{
    if s.len() == 0 {
        None
    } else if s[0] == '"' {
        Some((Seq::empty(), s.drop_first()))
    } else if s[0] == '\\' {
        if s.len() >= 2 {
            match unescape_char(s[1]) {
                Some(c) => match scan_string(s.skip(2)) {
                    Some(p) => Some((seq![c] + p.0, p.1)),
                    None => None,
                },
                None => if s[1] == 'u' && s.len() >= 6 && s[2] == '0' && s[3] == '0' {
                    match (hex_val(s[4]), hex_val(s[5])) {
                        (Some(h), Some(l)) => if 16 * h + l < 32 {
                            match scan_string(s.skip(6)) {
                                Some(p) => Some(
                                    (seq![(((16 * h + l) as u8) as char)] + p.0, p.1),
                                ),
                                None => None,
                            }
                        } else {
                            None
                        },
                        _ => None,
                    }
                } else {
                    None
                },
            }
        } else {
            None
        }
    } else {
        match scan_string(s.drop_first()) {
            Some(p) => Some((seq![s[0]] + p.0, p.1)),
            None => None,
        }
    }
}

/// The JSON text reporting a diagnostic with message `msg` and type tag `ty`.
pub open spec fn spec_diag_json(msg: Seq<char>, ty: Seq<char>) -> Seq<char> {
    "{\"errorMessage\":\""@ + escape_seq(msg) + "\",\"errorType\":\""@ + escape_seq(ty)
        + "\"}"@
}

/// The `(message, type)` pair read from the JSON text `s`, if `s` is
/// exactly a diagnostic object as this codec writes one.
pub open spec fn spec_parse_diag(s: Seq<char>) -> Option<(Seq<char>, Seq<char>)> {
    let p1 = "{\"errorMessage\":\""@;
    let p2 = ",\"errorType\":\""@;
    if p1.len() <= s.len() && s.take(p1.len() as int) == p1 {
        match scan_string(s.skip(p1.len() as int)) {
            Some(m) => if p2.len() <= m.1.len() && m.1.take(p2.len() as int) == p2 {
                match scan_string(m.1.skip(p2.len() as int)) {
                    Some(t) => if t.1 == "}"@ {
                        Some((m.0, t.0))
                    } else {
                        None
                    },
                    None => None,
                }
            } else {
                None
            },
            None => None,
        }
    } else {
        None
    }
}

proof fn lemma_escape_push(s: Seq<char>, c: char)
    ensures
        escape_seq(s.push(c)) == escape_seq(s) + escape_char(c),
    decreases s.len(),
{
    let t = s.push(c);
    if s.len() == 0 {
        assert(t[0] == c);
        assert(t.drop_first() =~= Seq::<char>::empty());
        assert(escape_seq(t.drop_first()) == Seq::<char>::empty());
        assert(escape_seq(t) == escape_char(c) + escape_seq(t.drop_first()));
        assert(escape_seq(t) =~= escape_seq(s) + escape_char(c));
    } else {
        assert(t[0] == s[0]);
        assert(t.drop_first() =~= s.drop_first().push(c));
        lemma_escape_push(s.drop_first(), c);
        assert(escape_seq(t.drop_first()) == escape_seq(s.drop_first()) + escape_char(c));
        assert(escape_seq(t) == escape_char(s[0]) + escape_seq(t.drop_first()));
        assert(escape_seq(s) == escape_char(s[0]) + escape_seq(s.drop_first()));
        assert(escape_seq(t) =~= escape_seq(s) + escape_char(c));
    }
}

fn hex_char_of(n: u8) -> (c: char)
    requires
        n < 16,
    ensures
        c == hex_char(n as int),
{
    if n == 0 {
        '0'
    } else if n == 1 {
        '1'
    } else if n == 2 {
        '2'
    } else if n == 3 {
        '3'
    } else if n == 4 {
        '4'
    } else if n == 5 {
        '5'
    } else if n == 6 {
        '6'
    } else if n == 7 {
        '7'
    } else if n == 8 {
        '8'
    } else if n == 9 {
        '9'
    } else if n == 10 {
        'a'
    } else if n == 11 {
        'b'
    } else if n == 12 {
        'c'
    } else if n == 13 {
        'd'
    } else if n == 14 {
        'e'
    } else {
        'f'
    }
}

fn hex_val_of(c: char) -> (r: Option<u8>)
    ensures
        match r {
            Some(v) => v < 16 && hex_val(c) == Some(v as int),
            None => hex_val(c) is None,
        },
{
    if c == '0' {
        Some(0)
    } else if c == '1' {
        Some(1)
    } else if c == '2' {
        Some(2)
    } else if c == '3' {
        Some(3)
    } else if c == '4' {
        Some(4)
    } else if c == '5' {
        Some(5)
    } else if c == '6' {
        Some(6)
    } else if c == '7' {
        Some(7)
    } else if c == '8' {
        Some(8)
    } else if c == '9' {
        Some(9)
    } else if c == 'a' {
        Some(10)
    } else if c == 'b' {
        Some(11)
    } else if c == 'c' {
        Some(12)
    } else if c == 'd' {
        Some(13)
    } else if c == 'e' {
        Some(14)
    } else if c == 'f' {
        Some(15)
    } else {
        None
    }
}

fn push_escaped(out: &mut Vec<char>, c: char)
    ensures
        final(out)@ == old(out)@ + escape_char(c),
{
    if c == '"' {
        out.push('\\');
        out.push('"');
    } else if c == '\\' {
        out.push('\\');
        out.push('\\');
    } else if c == '\n' {
        out.push('\\');
        out.push('n');
    } else if c == '\r' {
        out.push('\\');
        out.push('r');
    } else if c == '\t' {
        out.push('\\');
        out.push('t');
    } else if (c as u32) < 32 {
        let u = c as u32;
        out.push('\\');
        out.push('u');
        out.push('0');
        out.push('0');
        out.push(hex_char_of((u / 16) as u8));
        out.push(hex_char_of((u % 16) as u8));
    } else {
        out.push(c);
    }
    proof {
        assert(out@ =~= old(out)@ + escape_char(c));
    }
}

fn push_escape_all(out: &mut Vec<char>, s: &Vec<char>)
    ensures
        final(out)@ == old(out)@ + escape_seq(s@),
{
    let mut i: usize = 0;
    proof {
        assert(s@.take(0) =~= Seq::<char>::empty());
        assert(out@ =~= out@ + escape_seq(s@.take(0)));
    }
    while i < s.len()
        invariant
            i <= s@.len(),
            out@ == old(out)@ + escape_seq(s@.take(i as int)),
        decreases s@.len() - i,
    {
        push_escaped(out, s[i]);
        proof {
            assert(s@.take(i + 1) =~= s@.take(i as int).push(s@[i as int]));
            lemma_escape_push(s@.take(i as int), s@[i as int]);
        }
        i += 1;
    }
    proof {
        assert(s@.take(i as int) =~= s@);
    }
}

fn push_all(out: &mut Vec<char>, s: &Vec<char>)
    ensures
        final(out)@ == old(out)@ + s@,
{
    let mut i: usize = 0;
    while i < s.len()
        invariant
            i <= s@.len(),
            out@ == old(out)@ + s@.take(i as int),
        decreases s@.len() - i,
    {
        out.push(s[i]);
        proof {
            assert(out@ =~= old(out)@ + s@.take(i + 1));
        }
        i += 1;
    }
    proof {
        assert(s@.take(i as int) =~= s@);
    }
}

/// Writes the JSON text reporting `d`.
pub fn render_diagnostic(d: &Diagnostic) -> (r: String)
    ensures
        r@ == spec_diag_json(d.error_message@, d.error_type@),
{
    let mut out: Vec<char> = Vec::new();
    let p1 = chars_vec("{\"errorMessage\":\"");
    let mid = chars_vec("\",\"errorType\":\"");
    let tail = chars_vec("\"}");
    let msg = chars_vec(d.error_message.as_str());
    let ty = chars_vec(d.error_type.as_str());
    push_all(&mut out, &p1);
    push_escape_all(&mut out, &msg);
    push_all(&mut out, &mid);
    push_escape_all(&mut out, &ty);
    push_all(&mut out, &tail);
    proof {
        assert(out@ =~= spec_diag_json(d.error_message@, d.error_type@));
    }
    string_from_chars(out)
}

fn unescape_exec(e: char) -> (r: Option<char>)
    ensures
        r == unescape_char(e),
{
    if e == '"' {
        Some('"')
    } else if e == '\\' {
        Some('\\')
    } else if e == 'n' {
        Some('\n')
    } else if e == 'r' {
        Some('\r')
    } else if e == 't' {
        Some('\t')
    } else {
        None
    }
}

fn scan_exec(s: &Vec<char>, start: usize) -> (r: Option<(Vec<char>, usize)>)
    requires
        start <= s@.len(),
    ensures
        match r {
            Some(p) => p.1 <= s@.len() && scan_string(s@.skip(start as int)) == Some(
                (p.0@, s@.skip(p.1 as int)),
            ),
            None => scan_string(s@.skip(start as int)) is None,
        },
{
    let n = s.len();
    let mut i: usize = start;
    let mut out: Vec<char> = Vec::new();
    while i < n
        invariant
            start <= i <= n,
            n == s@.len(),
            match scan_string(s@.skip(i as int)) {
                Some(p) => scan_string(s@.skip(start as int)) == Some((out@ + p.0, p.1)),
                None => scan_string(s@.skip(start as int)) is None,
            },
        decreases n - i,
    {
        let c = s[i];
        proof {
            assert(s@.skip(i as int)[0] == s@[i as int]);
        }
        if c == '"' {
            proof {
                assert(s@.skip(i as int).drop_first() =~= s@.skip(i + 1));
                assert(out@ + Seq::<char>::empty() =~= out@);
            }
            return Some((out, i + 1));
        } else if c == '\\' {
            if i + 1 == n {
                proof {
                    assert(s@.skip(i as int).len() == 1);
                }
                return None;
            }
            proof {
                assert(s@.skip(i as int)[1] == s@[i + 1]);
                assert(s@.skip(i as int).skip(2) =~= s@.skip(i + 2));
            }
            match unescape_exec(s[i + 1]) {
                Some(u) => {
                    let ghost prev = out@;
                    out.push(u);
                    proof {
                        assert(out@ =~= prev + seq![u]);
                        if let Some(p) = scan_string(s@.skip(i + 2)) {
                            assert(prev + (seq![u] + p.0) =~= out@ + p.0);
                        }
                    }
                    i += 2;
                },
                None => {
                    if s[i + 1] != 'u' {
                        return None;
                    }
                    if n - i < 6 {
                        proof {
                            assert(s@.skip(i as int).len() < 6);
                        }
                        return None;
                    }
                    proof {
                        assert(s@.skip(i as int)[2] == s@[i + 2]);
                        assert(s@.skip(i as int)[3] == s@[i + 3]);
                        assert(s@.skip(i as int)[4] == s@[i + 4]);
                        assert(s@.skip(i as int)[5] == s@[i + 5]);
                        assert(s@.skip(i as int).skip(6) =~= s@.skip(i + 6));
                    }
                    if s[i + 2] != '0' || s[i + 3] != '0' {
                        return None;
                    }
                    let hi = match hex_val_of(s[i + 4]) {
                        Some(h) => h,
                        None => {
                            return None;
                        },
                    };
                    let lo = match hex_val_of(s[i + 5]) {
                        Some(l) => l,
                        None => {
                            return None;
                        },
                    };
                    let v: u8 = 16 * hi + lo;
                    if v >= 32 {
                        return None;
                    }
                    let decoded = v as char;
                    let ghost prev = out@;
                    out.push(decoded);
                    proof {
                        assert(out@ =~= prev + seq![decoded]);
                        if let Some(p) = scan_string(s@.skip(i + 6)) {
                            assert(prev + (seq![decoded] + p.0) =~= out@ + p.0);
                        }
                    }
                    i += 6;
                },
            }
        } else {
            proof {
                assert(s@.skip(i as int).drop_first() =~= s@.skip(i + 1));
            }
            let ghost prev = out@;
            out.push(c);
            proof {
                assert(out@ =~= prev + seq![c]);
                if let Some(p) = scan_string(s@.skip(i + 1)) {
                    assert(prev + (seq![c] + p.0) =~= out@ + p.0);
                }
            }
            i += 1;
        }
    }
    proof {
        assert(s@.skip(i as int).len() == 0);
    }
    None
}

/// Reads a diagnostic back from the JSON text `s`, accepting exactly the
/// texts this codec writes.
pub fn parse_diagnostic(s: &str) -> (r: Option<Diagnostic>)
    ensures
        match r {
            Some(d) => spec_parse_diag(s@) == Some((d.error_message@, d.error_type@)),
            None => spec_parse_diag(s@) is None,
        },
{
    let v = chars_vec(s);
    let n = v.len();
    let p1 = chars_vec("{\"errorMessage\":\"");
    let p2 = chars_vec(",\"errorType\":\"");
    if !starts_with_at(&v, 0, &p1) {
        proof {
            if p1@.len() <= s@.len() {
                assert(s@.take(p1@.len() as int) =~= s@.subrange(0, p1@.len() as int));
            }
        }
        return None;
    }
    proof {
        assert(s@.take(p1@.len() as int) =~= s@.subrange(0, p1@.len() as int));
    }
    let (msg, after_msg) = match scan_exec(&v, p1.len()) {
        Some(p) => p,
        None => {
            return None;
        },
    };
    let ghost rest1 = s@.skip(after_msg as int);
    if !starts_with_at(&v, after_msg, &p2) {
        proof {
            if after_msg + p2@.len() <= s@.len() {
                assert(rest1.take(p2@.len() as int) =~= s@.subrange(
                    after_msg as int,
                    after_msg + p2@.len(),
                ));
            } else {
                assert(rest1.len() < p2@.len());
            }
        }
        return None;
    }
    proof {
        assert(rest1.take(p2@.len() as int) =~= s@.subrange(
            after_msg as int,
            after_msg + p2@.len(),
        ));
    }
    let second_start = after_msg + p2.len();
    proof {
        assert(rest1.skip(p2@.len() as int) =~= s@.skip(second_start as int));
    }
    let (ty, after_ty) = match scan_exec(&v, second_start) {
        Some(p) => p,
        None => {
            return None;
        },
    };
    let ghost rest2 = s@.skip(after_ty as int);
    proof {
        reveal_strlit("}");
    }
    if n - after_ty == 1 && v[after_ty] == '}' {
        proof {
            assert(rest2 =~= "}"@);
        }
        Some(
            Diagnostic {
                error_message: string_from_chars(msg),
                error_type: string_from_chars(ty),
            },
        )
    } else {
        proof {
            if rest2 == "}"@ {
                assert(rest2.len() == 1);
                assert(s@.skip(after_ty as int)[0] == s@[after_ty as int]);
                assert(false);
            }
        }
        None
    }
}

proof fn lemma_hex_round_trip(n: int)
    requires
        0 <= n < 16,
    ensures
        hex_val(hex_char(n)) == Some(n),
{
}

proof fn lemma_control_char_cast(c: char)
    requires
        (c as u32) < 32,
    ensures
        16 * (((c as u32) / 16) as int) + (((c as u32) % 16) as int) == c as u32,
        (((16 * (((c as u32) / 16) as int) + (((c as u32) % 16) as int)) as u8) as char) == c,
{
    let u = c as u32;
    assert(16 * ((u / 16) as int) + ((u % 16) as int) == u as int);
    assert(((u as int) as u8) as char == c);
}

#[verifier::rlimit(30)]
proof fn lemma_scan_escaped(m: Seq<char>, rest: Seq<char>)
    ensures
        scan_string(escape_seq(m) + seq!['"'] + rest) == Some((m, rest)),
    decreases m.len(),
{
    let s = escape_seq(m) + seq!['"'] + rest;
    if m.len() == 0 {
        assert(s =~= seq!['"'] + rest);
        assert(s[0] == '"');
        assert(s.drop_first() =~= rest);
        assert(scan_string(s) == Some((Seq::<char>::empty(), rest)));
        assert(Seq::<char>::empty() =~= m);
    } else {
        let c = m[0];
        let m2 = m.drop_first();
        lemma_scan_escaped(m2, rest);
        let s2 = escape_seq(m2) + seq!['"'] + rest;
        assert(escape_seq(m) == escape_char(c) + escape_seq(m2));
        if c == '"' || c == '\\' || c == '\n' || c == '\r' || c == '\t' {
            assert(escape_char(c).len() == 2);
            assert(s =~= escape_char(c) + s2);
            assert(s[0] == '\\');
            assert(s[1] == escape_char(c)[1]);
            assert(unescape_char(escape_char(c)[1]) == Some(c));
            assert(s.skip(2) =~= s2);
            assert(seq![c] + m2 =~= m);
        } else if (c as u32) < 32 {
            let hi = ((c as u32) / 16) as int;
            let lo = ((c as u32) % 16) as int;
            assert(escape_char(c) =~= seq!['\\', 'u', '0', '0', hex_char(hi), hex_char(lo)]);
            assert(s =~= escape_char(c) + s2);
            assert(s[0] == '\\' && s[1] == 'u' && s[2] == '0' && s[3] == '0');
            assert(s[4] == hex_char(hi) && s[5] == hex_char(lo));
            assert(unescape_char('u') is None);
            lemma_hex_round_trip(hi);
            lemma_hex_round_trip(lo);
            lemma_control_char_cast(c);
            assert(s.skip(6) =~= s2);
            assert(seq![c] + m2 =~= m);
        } else {
            assert(escape_char(c) =~= seq![c]);
            assert(s =~= seq![c] + s2);
            assert(s[0] == c);
            assert(s.drop_first() =~= s2);
            assert(seq![c] + m2 =~= m);
        }
    }
}

/// Encoding a diagnostic and decoding the text reproduces the same
/// message and type tag, whatever characters they hold.
pub proof fn lemma_diag_round_trip(msg: Seq<char>, ty: Seq<char>)
    ensures
        spec_parse_diag(spec_diag_json(msg, ty)) == Some((msg, ty)),
{
    let p1 = "{\"errorMessage\":\""@;
    let mid = "\",\"errorType\":\""@;
    let tail = "\"}"@;
    let p2 = ",\"errorType\":\""@;
    reveal_strlit("{\"errorMessage\":\"");
    reveal_strlit("\",\"errorType\":\"");
    reveal_strlit(",\"errorType\":\"");
    reveal_strlit("\"}");
    reveal_strlit("}");
    let s = spec_diag_json(msg, ty);
    assert(mid =~= seq!['"'] + p2);
    assert(tail =~= seq!['"'] + "}"@);
    let rest1 = p2 + escape_seq(ty) + seq!['"'] + "}"@;
    assert(s.take(p1.len() as int) =~= p1);
    assert(s.skip(p1.len() as int) =~= escape_seq(msg) + seq!['"'] + rest1);
    lemma_scan_escaped(msg, rest1);
    assert(rest1.take(p2.len() as int) =~= p2);
    assert(rest1.skip(p2.len() as int) =~= escape_seq(ty) + seq!['"'] + "}"@);
    lemma_scan_escaped(ty, "}"@);
}

} // verus!
