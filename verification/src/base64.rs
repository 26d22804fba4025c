//! Base64 text, as a body may hold it, and the bytes it stands for.

use crate::primitives::{lemma_run_end, run_end};
use crate::reader::Reader;
use vstd::prelude::*;

verus! {

/// The value of a base64 digit: `A`-`Z`, `a`-`z`, `0`-`9`, `+` and `/` stand for 0 to 63.
pub open spec fn digit_value(ch: char) -> Option<u8> {
    if 'A' <= ch && ch <= 'Z' {
        Some((ch as int - 'A' as int) as u8)
    } else if 'a' <= ch && ch <= 'z' {
        Some((ch as int - 'a' as int + 26) as u8)
    } else if '0' <= ch && ch <= '9' {
        Some((ch as int - '0' as int + 52) as u8)
    } else if ch == '+' {
        Some(62u8)
    } else if ch == '/' {
        Some(63u8)
    } else {
        None
    }
}

/// The blanks that may stand between base64 digits.
pub open spec fn is_base64_blank(ch: char) -> bool {
    ch == ' ' || ch == '\n' || ch == '\t'
}

/// A digit or a blank.
pub open spec fn is_base64_char(ch: char) -> bool {
    digit_value(ch) is Some || is_base64_blank(ch)
}

/// The end of the digits and blanks that start at `c`.
pub open spec fn text_end(s: Seq<char>, c: int) -> int {
    run_end(s, c, |ch: char| is_base64_char(ch))
}

/// The end of the base64 text that starts at `c`: its digits and blanks, then the
/// `=` that pad it.
pub open spec fn base64_end(s: Seq<char>, c: int) -> int {
    run_end(s, text_end(s, c), |ch: char| ch == '=')
}

/// The values of the digits in `s[c..e]`, in order, blanks left out.
pub open spec fn sextets(s: Seq<char>, c: int, e: int) -> Seq<u8>
    decreases e - c,
{
    if e <= c {
        Seq::empty()
    } else {
        let init = sextets(s, c, e - 1);
        match digit_value(s[e - 1]) {
            Some(v) => init.push(v),
            None => init,
        }
    }
}

/// The first byte of a group: the six bits of `a`, then the high two bits of `b`.
pub open spec fn first_byte(a: u8, b: u8) -> u8 {
    ((a % 64) * 4 + b / 16) as u8
}

/// The second byte of a group: the low four bits of `b`, then the high four bits of `c`.
pub open spec fn second_byte(b: u8, c: u8) -> u8 {
    ((b % 16) * 16 + c / 4) as u8
}

/// The third byte of a group: the low two bits of `c`, then the six bits of `d`.
pub open spec fn third_byte(c: u8, d: u8) -> u8 {
    ((c % 4) * 64 + d) as u8
}

/// The bytes that the digit values `d` stand for: three for each four, then one for
/// two left over, or two for three left over. One value left over stands for nothing.
pub open spec fn decode(d: Seq<u8>) -> Seq<u8>
    decreases d.len(),
{
    if d.len() >= 4 {
        seq![first_byte(d[0], d[1]), second_byte(d[1], d[2]), third_byte(d[2], d[3])]
            + decode(d.subrange(4, d.len() as int))
    } else if d.len() == 3 {
        seq![first_byte(d[0], d[1]), second_byte(d[1], d[2])]
    } else if d.len() == 2 {
        seq![first_byte(d[0], d[1])]
    } else {
        Seq::empty()
    }
}

/// Decoding whole groups, then the rest, is decoding it all.
pub proof fn lemma_decode_append(a: Seq<u8>, b: Seq<u8>)
    requires
        a.len() % 4 == 0,
    ensures
        decode(a + b) == decode(a) + decode(b),
    decreases a.len(),
{
    if a.len() == 0 {
        assert(a + b =~= b);
        assert(decode(a) =~= Seq::<u8>::empty());
        assert(decode(a) + decode(b) =~= decode(b));
    } else {
        let t = a.subrange(4, a.len() as int);
        lemma_decode_append(t, b);
        assert((a + b).subrange(4, (a + b).len() as int) =~= t + b);
        assert((a + b)[0] == a[0] && (a + b)[1] == a[1] && (a + b)[2] == a[2] && (a + b)[3] == a[3]);
        let g = seq![first_byte(a[0], a[1]), second_byte(a[1], a[2]), third_byte(a[2], a[3])];
        assert(decode(a + b) == g + decode(t + b));
        assert(decode(a) == g + decode(t));
        assert(g + (decode(t) + decode(b)) =~= (g + decode(t)) + decode(b));
    }
}

pub proof fn lemma_digit_value_bound(ch: char)
    ensures
        digit_value(ch) matches Some(v) ==> v < 64,
{
}

/// The value of `ch` as a base64 digit.
fn value(ch: char) -> (r: Option<u8>)
    ensures
        r == digit_value(ch),
{
    if 'A' <= ch && ch <= 'Z' {
        Some(((ch as u32) - ('A' as u32)) as u8)
    } else if 'a' <= ch && ch <= 'z' {
        Some(((ch as u32) - ('a' as u32) + 26) as u8)
    } else if '0' <= ch && ch <= '9' {
        Some(((ch as u32) - ('0' as u32) + 52) as u8)
    } else if ch == '+' {
        Some(62)
    } else if ch == '/' {
        Some(63)
    } else {
        None
    }
}

/// Reads base64 text: digits and blanks, then the `=` that pad them, and gives back
/// the bytes the digits stand for. It cannot fail: it stops before the first character
/// that does not belong.
pub fn parse(reader: &mut Reader) -> (r: Vec<u8>)
    requires
        old(reader).wf(),
    ensures
        final(reader).wf(),
        final(reader).text() == old(reader).text(),
        final(reader).at() == base64_end(old(reader).text(), old(reader).at()),
        r@ == decode(sextets(old(reader).text(), old(reader).at(), text_end(old(reader).text(), old(reader).at()))),
{
    let ghost s = reader.text();
    let ghost c = reader.at();
    let mut bytes: Vec<u8> = Vec::new();
    let mut buf: Vec<u8> = Vec::new();
    let ghost mut done: Seq<u8> = Seq::empty();
    proof {
        lemma_run_end(s, c, |ch: char| is_base64_char(ch));
        assert(decode(done) =~= Seq::<u8>::empty());
        assert(sextets(s, c, c) =~= done + buf@);
    }
    loop
        invariant
            reader.wf(),
            reader.text() == s,
            c <= reader.at() <= text_end(s, c),
            text_end(s, c) <= s.len(),
            forall|k: int| c <= k < text_end(s, c) ==> is_base64_char(#[trigger] s[k]),
            text_end(s, c) < s.len() ==> !is_base64_char(s[text_end(s, c)]),
            sextets(s, c, reader.at()) == done + buf@,
            done.len() % 4 == 0,
            buf.len() < 4,
            bytes@ == decode(done),
            forall|k: int| 0 <= k < buf.len() ==> buf@[k] < 64,
        ensures
            reader.wf(),
            reader.text() == s,
            reader.at() == text_end(s, c),
            sextets(s, c, reader.at()) == done + buf@,
            done.len() % 4 == 0,
            buf.len() < 4,
            bytes@ == decode(done),
            forall|k: int| 0 <= k < buf.len() ==> buf@[k] < 64,
        decreases s.len() - reader.at(),
    {
        let belongs = match reader.peek() {
            Some(ch) => value(ch).is_some() || ch == ' ' || ch == '\n' || ch == '\t',
            None => false,
        };
        if !belongs {
            proof {
                if reader.at() < text_end(s, c) {
                    assert(is_base64_char(s[reader.at()]));
                }
            }
            break;
        }
        let ghost i = reader.at();
        let ch = reader.read().unwrap();
        proof {
            lemma_digit_value_bound(ch);
        }
        match value(ch) {
            Some(v) => {
                buf.push(v);
                if buf.len() == 4 {
                    let b0 = buf[0];
                    let b1 = buf[1];
                    let b2 = buf[2];
                    let b3 = buf[3];
                    proof {
                        lemma_decode_append(done, buf@);
                        assert(buf@.subrange(4, 4) =~= Seq::<u8>::empty());
                        assert(decode(buf@.subrange(4, 4)) =~= Seq::<u8>::empty());
                        assert(decode(buf@) =~= seq![first_byte(b0, b1), second_byte(b1, b2), third_byte(b2, b3)]);
                    }
                    bytes.push((b0 % 64) * 4 + b1 / 16);
                    bytes.push((b1 % 16) * 16 + b2 / 4);
                    bytes.push((b2 % 4) * 64 + b3);
                    proof {
                        done = done + buf@;
                        assert(bytes@ =~= decode(done));
                    }
                    buf = Vec::new();
                    proof {
                        assert(done + buf@ =~= done);
                    }
                }
            },
            None => {},
        }
    }
    let ghost e = reader.at();
    proof {
        lemma_run_end(s, e, |ch: char| ch == '=');
    }
    while reader.peek() == Some('=')
        invariant
            reader.wf(),
            reader.text() == s,
            e <= reader.at() <= base64_end(s, c),
            base64_end(s, c) <= s.len(),
            forall|k: int| e <= k < base64_end(s, c) ==> #[trigger] s[k] == '=',
            base64_end(s, c) < s.len() ==> s[base64_end(s, c)] != '=',
        decreases s.len() - reader.at(),
    {
        reader.read();
    }
    proof {
        if reader.at() < base64_end(s, c) {
            assert(s[reader.at()] == '=');
        }
        lemma_decode_append(done, buf@);
    }
    let n = buf.len();
    if n == 2 {
        let b0 = buf[0];
        let b1 = buf[1];
        bytes.push((b0 % 64) * 4 + b1 / 16);
        proof {
            assert(bytes@ =~= decode(done) + decode(buf@));
        }
    } else if n == 3 {
        let b0 = buf[0];
        let b1 = buf[1];
        let b2 = buf[2];
        bytes.push((b0 % 64) * 4 + b1 / 16);
        bytes.push((b1 % 16) * 16 + b2 / 4);
        proof {
            assert(bytes@ =~= decode(done) + decode(buf@));
        }
    } else {
        proof {
            assert(decode(buf@) =~= Seq::<u8>::empty());
            assert(bytes@ =~= decode(done) + decode(buf@));
        }
    }
    bytes
}

} // verus!
