//! The JSON string-literal escaping used on the result wire: `"` and `\`
//! and the control characters are escaped exactly as a compact JSON
//! writer does, everything else passes through. The unescaper inverts
//! the escaper, and a backslash-aware scan finds the quote that closes a
//! literal; both facts are proved here for every text and carry the
//! round trip of the result wire.

use vstd::prelude::*;
use crate::text::str_chars;

verus! {

/// The lower-case hex digit of a value below sixteen.
pub open spec fn hex_digit(v: u32) -> char {
    if v < 10 {
        ((v + 48) as u8) as char
    } else {
        ((v + 87) as u8) as char
    }
}

/// The value of a lower-case hex digit, if it is one.
pub open spec fn hex_val(c: char) -> Option<u32> {
    let u = c as u32;
    if 48 <= u && u <= 57 {
        Some((u - 48) as u32)
    } else if 97 <= u && u <= 102 {
        Some((u - 87) as u32)
    } else {
        None
    }
}

/// The control characters with a two-character escape of their own.
pub open spec fn has_short_escape(c: char) -> bool {
    c == '\u{8}' || c == '\u{c}' || c == '\n' || c == '\r' || c == '\t'
}

/// The character a short escape code stands for.
pub open spec fn short_unescape(c: char) -> char {
    if c == 'b' {
        '\u{8}'
    } else if c == 'f' {
        '\u{c}'
    } else if c == 'n' {
        '\n'
    } else if c == 'r' {
        '\r'
    } else {
        '\t'
    }
}

/// What one character contributes to a JSON string literal.
pub open spec fn esc_char(c: char) -> Seq<char> {
    if c == '"' {
        seq!['\\', '"']
    } else if c == '\\' {
        seq!['\\', '\\']
    } else if c == '\u{8}' {
        seq!['\\', 'b']
    } else if c == '\u{c}' {
        seq!['\\', 'f']
    } else if c == '\n' {
        seq!['\\', 'n']
    } else if c == '\r' {
        seq!['\\', 'r']
    } else if c == '\t' {
        seq!['\\', 't']
    } else if (c as u32) < 32 {
        seq!['\\', 'u', '0', '0', hex_digit((c as u32) / 16), hex_digit((c as u32) % 16)]
    } else {
        seq![c]
    }
}

/// The body of the JSON string literal that holds the text.
pub open spec fn json_escape(s: Seq<char>) -> Seq<char>
    decreases s.len(),
{
    if s.len() == 0 {
        Seq::empty()
    } else {
        esc_char(s[0]) + json_escape(s.skip(1))
    }
}

/// The text a JSON string-literal body stands for, or `None` where the
/// body is not one that `json_escape` writes.
pub open spec fn json_unescape(s: Seq<char>) -> Option<Seq<char>>
    decreases s.len(),
{
    if s.len() == 0 {
        Some(Seq::<char>::empty())
    } else if s[0] == '\\' {
        if s.len() >= 2 && (s[1] == '"' || s[1] == '\\') {
            match json_unescape(s.skip(2)) {
                None => None,
                Some(r) => Some(seq![s[1]] + r),
            }
        } else if s.len() >= 2 && (s[1] == 'b' || s[1] == 'f' || s[1] == 'n' || s[1] == 'r' || s[1]
            == 't') {
            match json_unescape(s.skip(2)) {
                None => None,
                Some(r) => Some(seq![short_unescape(s[1])] + r),
            }
        } else if s.len() >= 6 && s[1] == 'u' && s[2] == '0' && s[3] == '0' && hex_val(s[4]) is Some
            && hex_val(s[5]) is Some {
            let v = (hex_val(s[4])->0 * 16 + hex_val(s[5])->0) as u32;
            if v < 32 && !has_short_escape(v as char) {
                match json_unescape(s.skip(6)) {
                    None => None,
                    Some(r) => Some(seq![v as char] + r),
                }
            } else {
                None
            }
        } else {
            None
        }
    } else if s[0] == '"' || (s[0] as u32) < 32 {
        None
    } else {
        match json_unescape(s.skip(1)) {
            None => None,
            Some(r) => Some(seq![s[0]] + r),
        }
    }
}

/// Where the quote that closes a string literal stands: the offset of
/// the first quote that no escape introduces.
pub open spec fn quote_scan(s: Seq<char>) -> Option<int>
    decreases s.len(),
{
    if s.len() == 0 {
        None
    } else if s[0] == '"' {
        Some(0int)
    } else if s[0] == '\\' {
        if s.len() >= 2 {
            match quote_scan(s.skip(2)) {
                None => None,
                Some(k) => Some(k + 2),
            }
        } else {
            None
        }
    } else {
        match quote_scan(s.skip(1)) {
            None => None,
            Some(k) => Some(k + 1),
        }
    }
}

/// A hex digit reads back as its value, and is neither a quote nor a
/// backslash.
proof fn lemma_hex_round(v: u32)
    requires
        v < 16,
    ensures
        hex_val(hex_digit(v)) == Some(v),
        hex_digit(v) != '"',
        hex_digit(v) != '\\',
{
}

/// Unescaping inverts escaping, whatever follows the escaped text: the
/// escaped text is consumed exactly and the remainder is judged on its
/// own.
pub proof fn lemma_unescape_escape(p: Seq<char>, t: Seq<char>)
    ensures
        json_unescape(json_escape(p) + t) == (match json_unescape(t) {
            None => None::<Seq<char>>,
            Some(u) => Some(p + u),
        }),
    decreases p.len(),
{
    if p.len() == 0 {
        assert(json_escape(p) + t =~= t);
        if json_unescape(t) is Some {
            assert(p + json_unescape(t)->0 =~= json_unescape(t)->0);
        }
    } else {
        let c = p[0];
        let e = esc_char(c);
        let rest = json_escape(p.skip(1)) + t;
        let s = json_escape(p) + t;
        assert(s =~= e + rest);
        lemma_unescape_escape(p.skip(1), t);
        if c == '"' || c == '\\' {
            assert(s.skip(2) =~= rest);
            assert(s[0] == '\\' && s[1] == c);
        } else if has_short_escape(c) {
            assert(s.skip(2) =~= rest);
            assert(s[0] == '\\');
        } else if (c as u32) < 32 {
            let u = c as u32;
            lemma_hex_round(u / 16);
            lemma_hex_round(u % 16);
            assert(s.skip(6) =~= rest);
            assert(s[0] == '\\' && s[1] == 'u' && s[2] == '0' && s[3] == '0');
            assert(s[4] == hex_digit(u / 16) && s[5] == hex_digit(u % 16));
            assert((hex_val(s[4])->0 * 16 + hex_val(s[5])->0) as u32 == u);
            vstd::utf8::char_u32_cast(c, u);
            assert((u as char) == c);
        } else {
            assert(s.skip(1) =~= rest);
            assert(s[0] == c);
        }
        if json_unescape(t) is None {
            assert(json_unescape(s) is None);
        } else {
            let u = json_unescape(t)->0;
            assert(json_unescape(rest) == Some(p.skip(1) + u));
            if c == '"' || c == '\\' {
                assert(json_unescape(s) == Some(seq![c] + (p.skip(1) + u)));
            } else if has_short_escape(c) {
                assert(short_unescape(e[1]) == c);
                assert(json_unescape(s) == Some(seq![c] + (p.skip(1) + u)));
            } else if (c as u32) < 32 {
                assert(json_unescape(s) == Some(seq![c] + (p.skip(1) + u)));
            } else {
                assert(json_unescape(s) == Some(seq![c] + (p.skip(1) + u)));
            }
            assert(seq![c] + (p.skip(1) + u) =~= p + u);
        }
    }
}

/// The scan finds the quote standing right after an escaped text.
pub proof fn lemma_scan_after_escape(p: Seq<char>, t: Seq<char>)
    requires
        t.len() > 0,
        t[0] == '"',
    ensures
        quote_scan(json_escape(p) + t) == Some(json_escape(p).len() as int),
    decreases p.len(),
{
    if p.len() == 0 {
        assert(json_escape(p) + t =~= t);
    } else {
        let c = p[0];
        let e = esc_char(c);
        let rest = json_escape(p.skip(1)) + t;
        let s = json_escape(p) + t;
        assert(s =~= e + rest);
        lemma_scan_after_escape(p.skip(1), t);
        let k = json_escape(p.skip(1)).len() as int;
        assert(quote_scan(rest) == Some(k));
        if c == '"' || c == '\\' || has_short_escape(c) {
            assert(s[0] == '\\' && s.len() >= 2);
            assert(s.skip(2) =~= rest);
            assert(quote_scan(s) == Some(k + 2));
            assert(json_escape(p).len() == k + 2);
        } else if (c as u32) < 32 {
            let u = c as u32;
            lemma_hex_round(u / 16);
            lemma_hex_round(u % 16);
            assert(s[0] == '\\' && s[1] == 'u' && s[2] == '0' && s[3] == '0');
            assert(s[4] == hex_digit(u / 16) && s[5] == hex_digit(u % 16));
            assert(s.skip(6) =~= rest);
            assert(s.skip(5)[0] == s[5]);
            assert(s.skip(5).skip(1) =~= s.skip(6));
            assert(quote_scan(s.skip(5)) == Some(k + 1));
            assert(s.skip(4)[0] == s[4]);
            assert(s.skip(4).skip(1) =~= s.skip(5));
            assert(quote_scan(s.skip(4)) == Some(k + 2));
            assert(s.skip(3)[0] == s[3]);
            assert(s.skip(3).skip(1) =~= s.skip(4));
            assert(quote_scan(s.skip(3)) == Some(k + 3));
            assert(s.skip(2)[0] == s[2]);
            assert(s.skip(2).skip(1) =~= s.skip(3));
            assert(quote_scan(s.skip(2)) == Some(k + 4));
            assert(s.len() >= 2);
            assert(quote_scan(s) == Some(k + 6));
            assert(json_escape(p).len() == k + 6);
        } else {
            assert(s[0] == c && c != '"' && c != '\\');
            assert(s.skip(1) =~= rest);
            assert(quote_scan(s) == Some(k + 1));
            assert(json_escape(p).len() == k + 1);
        }
    }
}

/// Appends what one character contributes to a JSON string literal.
fn push_esc(out: &mut Vec<char>, c: char)
    ensures
        final (out)@ == old(out)@ + esc_char(c),
{
    let ghost old_out = out@;
    let u = c as u32;
    if c == '"' {
        out.push('\\');
        out.push('"');
        proof {
            assert(out@ =~= old_out + esc_char(c));
        }
    } else if c == '\\' {
        out.push('\\');
        out.push('\\');
        proof {
            assert(out@ =~= old_out + esc_char(c));
        }
    } else if u == 8 {
        out.push('\\');
        out.push('b');
        proof {
            assert(c == '\u{8}');
            assert(out@ =~= old_out + esc_char(c));
        }
    } else if u == 12 {
        out.push('\\');
        out.push('f');
        proof {
            assert(c == '\u{c}');
            assert(out@ =~= old_out + esc_char(c));
        }
    } else if u == 10 {
        out.push('\\');
        out.push('n');
        proof {
            assert(c == '\n');
            assert(out@ =~= old_out + esc_char(c));
        }
    } else if u == 13 {
        out.push('\\');
        out.push('r');
        proof {
            assert(c == '\r');
            assert(out@ =~= old_out + esc_char(c));
        }
    } else if u == 9 {
        out.push('\\');
        out.push('t');
        proof {
            assert(c == '\t');
            assert(out@ =~= old_out + esc_char(c));
        }
    } else if u < 32 {
        out.push('\\');
        out.push('u');
        out.push('0');
        out.push('0');
        let hi = u / 16;
        let lo = u % 16;
        out.push(
            if hi < 10 {
                ((hi + 48) as u8) as char
            } else {
                ((hi + 87) as u8) as char
            },
        );
        out.push(
            if lo < 10 {
                ((lo + 48) as u8) as char
            } else {
                ((lo + 87) as u8) as char
            },
        );
        proof {
            assert(out@ =~= old_out + esc_char(c));
        }
    } else {
        out.push(c);
        proof {
            assert(out@ =~= old_out + esc_char(c));
        }
    }
}

/// The escaper, on characters.
pub fn escape_chars(v: &[char]) -> (r: Vec<char>)
    ensures
        r@ == json_escape(v@),
{
    let n = v.len();
    let mut out: Vec<char> = Vec::new();
    let mut i: usize = 0;
    proof {
        assert(v@.skip(0) =~= v@);
        assert(out@ + json_escape(v@) =~= json_escape(v@));
    }
    while i < n
        invariant
            0 <= i <= n,
            n == v@.len(),
            json_escape(v@) == out@ + json_escape(v@.skip(i as int)),
        decreases n - i,
    {
        let c = v[i];
        let ghost rem = v@.skip(i as int);
        push_esc(&mut out, c);
        proof {
            assert(rem[0] == c);
            assert(rem.skip(1) =~= v@.skip(i + 1));
            assert(json_escape(v@) =~= out@ + json_escape(v@.skip(i + 1)));
        }
        i = i + 1;
    }
    proof {
        assert(v@.skip(n as int) =~= Seq::<char>::empty());
        assert(out@ + json_escape(v@.skip(n as int)) =~= out@);
    }
    out
}

/// The body of the JSON string literal that holds the text.
pub fn escape_str(s: &str) -> (r: Vec<char>)
    ensures
        r@ == json_escape(s@),
{
    let chars = str_chars(s);
    escape_chars(chars.as_slice())
}

/// The unescaper, on characters.
pub fn unescape_chars(v: &[char]) -> (r: Option<Vec<char>>)
    ensures
        match r {
            Some(u) => json_unescape(v@) == Some(u@),
            None => json_unescape(v@) is None,
        },
{
    let n = v.len();
    let mut out: Vec<char> = Vec::new();
    let mut i: usize = 0;
    proof {
        assert(v@.skip(0) =~= v@);
        if json_unescape(v@) is Some {
            assert(out@ + json_unescape(v@)->0 =~= json_unescape(v@)->0);
        }
    }
    while i < n
        invariant
            0 <= i <= n,
            n == v@.len(),
            json_unescape(v@) == (match json_unescape(v@.skip(i as int)) {
                None => None::<Seq<char>>,
                Some(rest) => Some(out@ + rest),
            }),
        decreases n - i,
    {
        let ghost rem = v@.skip(i as int);
        let c = v[i];
        proof {
            assert(rem[0] == c);
        }
        let ghost old_out = out@;
        let mut step: usize = 1;
        if c == '\\' {
            if n - i >= 2 && (v[i + 1] == '"' || v[i + 1] == '\\') {
                out.push(v[i + 1]);
                step = 2;
            } else if n - i >= 2 && (v[i + 1] == 'b' || v[i + 1] == 'f' || v[i + 1] == 'n' || v[i
                + 1] == 'r' || v[i + 1] == 't') {
                let d = v[i + 1];
                let e = if d == 'b' {
                    '\u{8}'
                } else if d == 'f' {
                    '\u{c}'
                } else if d == 'n' {
                    '\n'
                } else if d == 'r' {
                    '\r'
                } else {
                    '\t'
                };
                proof {
                    assert(e == short_unescape(rem[1]));
                }
                out.push(e);
                step = 2;
            } else if n - i >= 6 && v[i + 1] == 'u' && v[i + 2] == '0' && v[i + 3] == '0' {
                let h4 = v[i + 4] as u32;
                let h5 = v[i + 5] as u32;
                let x4: u32 = if 48 <= h4 && h4 <= 57 {
                    h4 - 48
                } else if 97 <= h4 && h4 <= 102 {
                    h4 - 87
                } else {
                    16
                };
                let x5: u32 = if 48 <= h5 && h5 <= 57 {
                    h5 - 48
                } else if 97 <= h5 && h5 <= 102 {
                    h5 - 87
                } else {
                    16
                };
                if x4 >= 16 || x5 >= 16 {
                    return None;
                }
                let w: u32 = x4 * 16 + x5;
                if !(w < 32 && w != 8 && w != 9 && w != 10 && w != 12 && w != 13) {
                    return None;
                }
                proof {
                    assert(hex_val(rem[4]) == Some(x4) && hex_val(rem[5]) == Some(x5));
                    assert(!has_short_escape(w as char)) by {
                        assert((w as char) as u32 == w);
                    }
                }
                proof {
                    assert(((w as u8) as char) == (w as char));
                }
                out.push((w as u8) as char);
                step = 6;
            } else {
                return None;
            }
        } else if c == '"' || (c as u32) < 32 {
            return None;
        } else {
            out.push(c);
        }
        proof {
            assert(rem.skip(step as int) =~= v@.skip(i + step));
            if json_unescape(v@.skip(i + step as int)) is Some {
                let rest2 = json_unescape(v@.skip(i + step as int))->0;
                assert(out@ =~= old_out + seq![out@[out@.len() - 1]]);
                assert(old_out + (seq![out@[out@.len() - 1]] + rest2) =~= out@ + rest2);
            }
            assert(json_unescape(v@) == (match json_unescape(v@.skip(i + step as int)) {
                None => None::<Seq<char>>,
                Some(rest) => Some(out@ + rest),
            }));
        }
        i = i + step;
    }
    proof {
        assert(v@.skip(n as int) =~= Seq::<char>::empty());
        assert(out@ + Seq::<char>::empty() =~= out@);
    }
    Some(out)
}

/// The scan, on characters: the offset of the quote that closes the
/// literal, if one stands there.
pub fn quote_scan_chars(v: &[char], from: usize) -> (r: Option<usize>)
    requires
        from <= v@.len(),
    ensures
        match r {
            Some(k) => from <= k < v@.len() && quote_scan(v@.skip(from as int)) == Some(
                k - from,
            ),
            None => quote_scan(v@.skip(from as int)) is None,
        },
{
    let n = v.len();
    let mut i: usize = from;
    loop
        invariant
            from <= i <= n,
            n == v@.len(),
            quote_scan(v@.skip(from as int)) == (match quote_scan(v@.skip(i as int)) {
                None => None::<int>,
                Some(k) => Some(k + i - from),
            }),
        decreases n - i,
    {
        let ghost rem = v@.skip(i as int);
        if i == n {
            proof {
                assert(rem.len() == 0);
            }
            return None;
        }
        let c = v[i];
        proof {
            assert(rem[0] == c);
        }
        if c == '"' {
            return Some(i);
        }
        let step: usize = if c == '\\' {
            if n - i < 2 {
                return None;
            }
            2
        } else {
            1
        };
        proof {
            assert(rem.skip(step as int) =~= v@.skip(i + step));
        }
        i = i + step;
    }
}

} // verus!
