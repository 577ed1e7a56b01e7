//! Base64 of a byte sequence, in the standard alphabet with `=` padding:
//! the fixed encoding under which the compiled source is displayed. The
//! decoder inverts the encoder exactly, which `lemma_base64_round_trip`
//! states for every byte sequence.

use vstd::prelude::*;
use vstd::string::StrSliceExecFns;
use vstd::string::StringSliceAdditionalSpecFns;
use crate::text::{str_chars, string_from_chars};

verus! {

/// The alphabet character of one six-bit value.
pub open spec fn sextet_char(v: u8) -> char {
    if v < 26 {
        ((v + 65) as u8) as char
    } else if v < 52 {
        ((v + 71) as u8) as char
    } else if v < 62 {
        ((v - 4) as u8) as char
    } else if v == 62 {
        '+'
    } else {
        '/'
    }
}

/// The six-bit value of one alphabet character, if it is one.
pub open spec fn sextet_val(c: char) -> Option<u8> {
    let u = c as u32;
    if 65 <= u && u <= 90 {
        Some((u - 65) as u8)
    } else if 97 <= u && u <= 122 {
        Some((u - 71) as u8)
    } else if 48 <= u && u <= 57 {
        Some((u + 4) as u8)
    } else if u == 43 {
        Some(62u8)
    } else if u == 47 {
        Some(63u8)
    } else {
        None
    }
}

/// The base64 text of a byte sequence, three bytes to four characters,
/// with `=` padding closing a short final group.
pub open spec fn b64_encode(b: Seq<u8>) -> Seq<char>
    decreases b.len(),
{
    if b.len() == 0 {
        Seq::empty()
    } else if b.len() == 1 {
        let b0 = b[0];
        seq![
            sextet_char((b0 / 4) as u8),
            sextet_char(((b0 % 4) * 16) as u8),
            '=',
            '=',
        ]
    } else if b.len() == 2 {
        let b0 = b[0];
        let b1 = b[1];
        seq![
            sextet_char((b0 / 4) as u8),
            sextet_char(((b0 % 4) * 16 + b1 / 16) as u8),
            sextet_char(((b1 % 16) * 4) as u8),
            '=',
        ]
    } else {
        let b0 = b[0];
        let b1 = b[1];
        let b2 = b[2];
        seq![
            sextet_char((b0 / 4) as u8),
            sextet_char(((b0 % 4) * 16 + b1 / 16) as u8),
            sextet_char(((b1 % 16) * 4 + b2 / 64) as u8),
            sextet_char((b2 % 64) as u8),
        ] + b64_encode(b.skip(3))
    }
}

/// The bytes encoded by a base64 text, or `None` where the text is not
/// base64 in this form.
pub open spec fn b64_decode(t: Seq<char>) -> Option<Seq<u8>>
    decreases t.len(),
{
    if t.len() == 0 {
        Some(Seq::empty())
    } else if t.len() < 4 {
        None
    } else if sextet_val(t[0]) is None || sextet_val(t[1]) is None {
        None
    } else {
        let s0 = sextet_val(t[0])->0;
        let s1 = sextet_val(t[1])->0;
        if t[2] == '=' && t[3] == '=' && t.len() == 4 {
            Some(seq![(s0 * 4 + s1 / 16) as u8])
        } else if t[3] == '=' && t.len() == 4 && sextet_val(t[2]) is Some {
            let s2 = sextet_val(t[2])->0;
            Some(seq![(s0 * 4 + s1 / 16) as u8, ((s1 % 16) * 16 + s2 / 4) as u8])
        } else if sextet_val(t[2]) is Some && sextet_val(t[3]) is Some {
            let s2 = sextet_val(t[2])->0;
            let s3 = sextet_val(t[3])->0;
            match b64_decode(t.skip(4)) {
                None => None,
                Some(rest) => Some(
                    seq![
                        (s0 * 4 + s1 / 16) as u8,
                        ((s1 % 16) * 16 + s2 / 4) as u8,
                        ((s2 % 4) * 64 + s3) as u8,
                    ] + rest,
                ),
            }
        } else {
            None
        }
    }
}

/// An alphabet character decodes back to its six-bit value, and is never
/// the padding character.
proof fn lemma_sextet_round(v: u8)
    requires
        v < 64,
    ensures
        sextet_val(sextet_char(v)) == Some(v),
        sextet_char(v) != '=',
{
}

/// Decoding inverts encoding: every byte sequence comes back from its
/// base64 text exactly.
pub proof fn lemma_base64_round_trip(b: Seq<u8>)
    ensures
        b64_decode(b64_encode(b)) == Some(b),
    decreases b.len(),
{
    if b.len() == 0 {
        assert(b64_decode(b64_encode(b)) =~= Some(b));
    } else if b.len() == 1 {
        let b0 = b[0];
        lemma_sextet_round((b0 / 4) as u8);
        lemma_sextet_round(((b0 % 4) * 16) as u8);
        assert(b64_decode(b64_encode(b))->0 =~= b);
    } else if b.len() == 2 {
        let b0 = b[0];
        let b1 = b[1];
        lemma_sextet_round((b0 / 4) as u8);
        lemma_sextet_round(((b0 % 4) * 16 + b1 / 16) as u8);
        lemma_sextet_round(((b1 % 16) * 4) as u8);
        assert(((b0 % 4) * 16 + b1 / 16) % 16 == b1 / 16);
        assert(b64_decode(b64_encode(b))->0 =~= b);
    } else {
        let b0 = b[0];
        let b1 = b[1];
        let b2 = b[2];
        lemma_sextet_round((b0 / 4) as u8);
        lemma_sextet_round(((b0 % 4) * 16 + b1 / 16) as u8);
        lemma_sextet_round(((b1 % 16) * 4 + b2 / 64) as u8);
        lemma_sextet_round((b2 % 64) as u8);
        lemma_base64_round_trip(b.skip(3));
        let t = b64_encode(b);
        assert(t.skip(4) =~= b64_encode(b.skip(3)));
        assert(((b0 % 4) * 16 + b1 / 16) % 16 == b1 / 16);
        assert(((b1 % 16) * 4 + b2 / 64) % 4 == b2 / 64);
        assert(((b1 % 16) * 4 + b2 / 64) / 4 == b1 % 16);
        assert(b64_decode(t)->0 =~= b);
    }
}

/// The alphabet character of one six-bit value.
fn sextet_char_exec(v: u8) -> (c: char)
    requires
        v < 64,
    ensures
        c == sextet_char(v),
{
    if v < 26 {
        (v + 65) as char
    } else if v < 52 {
        (v + 71) as char
    } else if v < 62 {
        (v - 4) as char
    } else if v == 62 {
        '+'
    } else {
        '/'
    }
}

/// The six-bit value of one alphabet character, if it is one.
fn sextet_val_exec(c: char) -> (r: Option<u8>)
    ensures
        r == sextet_val(c),
{
    let u = c as u32;
    if 65 <= u && u <= 90 {
        Some((u - 65) as u8)
    } else if 97 <= u && u <= 122 {
        Some((u - 71) as u8)
    } else if 48 <= u && u <= 57 {
        Some((u + 4) as u8)
    } else if u == 43 {
        Some(62u8)
    } else if u == 47 {
        Some(63u8)
    } else {
        None
    }
}

/// The base64 text of the raw bytes of a text: the fixed encoding under
/// which a compiled source is displayed.
pub fn encode_base64(data: &str) -> (r: String)
    ensures
        r@ == b64_encode(data.spec_bytes()),
{
    let bytes = data.as_bytes_vec();
    let n = bytes.len();
    let mut out: Vec<char> = Vec::new();
    let mut i: usize = 0;
    proof {
        assert(bytes@.skip(0) =~= bytes@);
        assert(out@ + b64_encode(bytes@) =~= b64_encode(bytes@));
    }
    while n - i >= 3
        invariant
            0 <= i <= n,
            i % 3 == 0,
            n == bytes@.len(),
            b64_encode(bytes@) == out@ + b64_encode(bytes@.skip(i as int)),
        decreases n - i,
    {
        let b0 = bytes[i];
        let b1 = bytes[i + 1];
        let b2 = bytes[i + 2];
        let ghost rest = bytes@.skip(i as int);
        out.push(sextet_char_exec(b0 / 4));
        out.push(sextet_char_exec((b0 % 4) * 16 + b1 / 16));
        out.push(sextet_char_exec((b1 % 16) * 4 + b2 / 64));
        out.push(sextet_char_exec(b2 % 64));
        proof {
            assert(rest[0] == b0 && rest[1] == b1 && rest[2] == b2);
            assert(rest.skip(3) =~= bytes@.skip(i + 3));
            assert(b64_encode(rest).subrange(0, 4) =~= seq![
                sextet_char((b0 / 4) as u8),
                sextet_char(((b0 % 4) * 16 + b1 / 16) as u8),
                sextet_char(((b1 % 16) * 4 + b2 / 64) as u8),
                sextet_char((b2 % 64) as u8),
            ]);
            assert(b64_encode(bytes@) =~= out@ + b64_encode(bytes@.skip(i + 3)));
        }
        i = i + 3;
    }
    let ghost rest = bytes@.skip(i as int);
    if n - i == 1 {
        let b0 = bytes[i];
        out.push(sextet_char_exec(b0 / 4));
        out.push(sextet_char_exec((b0 % 4) * 16));
        out.push('=');
        out.push('=');
        proof {
            assert(rest[0] == b0 && rest.len() == 1);
            assert(b64_encode(bytes@) =~= out@);
        }
    } else if n - i == 2 {
        let b0 = bytes[i];
        let b1 = bytes[i + 1];
        out.push(sextet_char_exec(b0 / 4));
        out.push(sextet_char_exec((b0 % 4) * 16 + b1 / 16));
        out.push(sextet_char_exec((b1 % 16) * 4));
        out.push('=');
        proof {
            assert(rest[0] == b0 && rest[1] == b1 && rest.len() == 2);
            assert(b64_encode(bytes@) =~= out@);
        }
    } else {
        proof {
            assert(rest.len() == 0);
            assert(b64_encode(bytes@) =~= out@);
        }
    }
    string_from_chars(out.as_slice())
}

/// The bytes a base64 text encodes, or `None` where it is not base64 in
/// this form.
pub fn decode_base64(text: &str) -> (r: Option<Vec<u8>>)
    ensures
        match r {
            Some(v) => b64_decode(text@) == Some(v@),
            None => b64_decode(text@) is None,
        },
{
    let chars = str_chars(text);
    let n = chars.len();
    let mut out: Vec<u8> = Vec::new();
    let mut i: usize = 0;
    proof {
        assert(text@.skip(0) =~= text@);
        if b64_decode(text@) is Some {
            assert(out@ + b64_decode(text@)->0 =~= b64_decode(text@)->0);
        }
    }
    loop
        invariant
            0 <= i <= n,
            n == chars@.len(),
            chars@ == text@,
            b64_decode(text@) == (match b64_decode(text@.skip(i as int)) {
                None => None::<Seq<u8>>,
                Some(rest) => Some(out@ + rest),
            }),
        decreases n - i,
    {
        let ghost rem = text@.skip(i as int);
        if i == n {
            proof {
                assert(rem.len() == 0);
                assert(b64_decode(text@) == Some(out@ + Seq::<u8>::empty()));
                assert(out@ + Seq::<u8>::empty() =~= out@);
            }
            return Some(out);
        }
        if n - i < 4 {
            return None;
        }
        let c0 = chars[i];
        let c1 = chars[i + 1];
        let c2 = chars[i + 2];
        let c3 = chars[i + 3];
        proof {
            assert(rem[0] == c0 && rem[1] == c1 && rem[2] == c2 && rem[3] == c3);
        }
        let v0 = sextet_val_exec(c0);
        let v1 = sextet_val_exec(c1);
        if v0.is_none() || v1.is_none() {
            return None;
        }
        let s0 = v0.unwrap();
        let s1 = v1.unwrap();
        if c2 == '=' && c3 == '=' && i + 4 == n {
            out.push(s0 * 4 + s1 / 16);
            proof {
                assert(rem.len() == 4);
                assert(b64_decode(text@)->0 =~= out@);
            }
            return Some(out);
        }
        if c3 == '=' && i + 4 == n {
            match sextet_val_exec(c2) {
                None => {
                    return None;
                },
                Some(s2) => {
                    out.push(s0 * 4 + s1 / 16);
                    out.push((s1 % 16) * 16 + s2 / 4);
                    proof {
                        assert(rem.len() == 4);
                        assert(b64_decode(text@)->0 =~= out@);
                    }
                    return Some(out);
                },
            }
        }
        let v2 = sextet_val_exec(c2);
        let v3 = sextet_val_exec(c3);
        if v2.is_none() || v3.is_none() {
            return None;
        }
        let s2 = v2.unwrap();
        let s3 = v3.unwrap();
        let ghost old_out = out@;
        out.push(s0 * 4 + s1 / 16);
        out.push((s1 % 16) * 16 + s2 / 4);
        out.push((s2 % 4) * 64 + s3);
        proof {
            assert(rem.skip(4) =~= text@.skip(i + 4));
            assert(!(rem[2] == '=' && rem[3] == '=' && rem.len() == 4));
            assert(!(rem[3] == '=' && rem.len() == 4));
            assert(out@ =~= old_out + seq![
                (s0 * 4 + s1 / 16) as u8,
                ((s1 % 16) * 16 + s2 / 4) as u8,
                ((s2 % 4) * 64 + s3) as u8,
            ]);
            if b64_decode(text@.skip(i + 4)) is Some {
                let rest2 = b64_decode(text@.skip(i + 4))->0;
                assert(old_out + (seq![
                    (s0 * 4 + s1 / 16) as u8,
                    ((s1 % 16) * 16 + s2 / 4) as u8,
                    ((s2 % 4) * 64 + s3) as u8,
                ] + rest2) =~= out@ + rest2);
            }
            assert(b64_decode(text@) == (match b64_decode(text@.skip(i + 4)) {
                None => None::<Seq<u8>>,
                Some(rest) => Some(out@ + rest),
            }));
        }
        i = i + 4;
    }
}

} // verus!
