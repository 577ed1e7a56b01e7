//! Reading the result wire back: the parser that turns an adapter result
//! string into its fields, proved to invert each of the three render
//! forms exactly. A string in none of those forms may come back as
//! `None`, which the controller reports as a malformed response.

use vstd::prelude::*;
use crate::text::{str_chars, string_from_chars};
use crate::json::{
    json_escape,
    json_unescape,
    quote_scan,
    unescape_chars,
    quote_scan_chars,
    lemma_unescape_escape,
    lemma_scan_after_escape,
};
use crate::adapter::{render_failure, render_success, render_success_witness};

verus! {

/// The fields of one result string: the commitment root and the error,
/// as the wire carries them, and the witness text when one rides along.
pub struct ParsedResponse {
    pub cmr: Option<String>,
    pub error: Option<String>,
    pub witness: Option<String>,
}

/// The characters of a text from one offset to another.
fn sub_chars(v: &[char], a: usize, b: usize) -> (r: Vec<char>)
    requires
        a <= b <= v@.len(),
    ensures
        r@ == v@.subrange(a as int, b as int),
{
    let mut r: Vec<char> = Vec::new();
    let mut i: usize = a;
    while i < b
        invariant
            a <= i <= b <= v@.len(),
            r@ == v@.subrange(a as int, i as int),
        decreases b - i,
    {
        r.push(v[i]);
        proof {
            assert(r@ =~= v@.subrange(a as int, i + 1 as int));
        }
        i = i + 1;
    }
    r
}

/// Whether the given text stands at the given offset.
fn starts_with_lit(v: &[char], from: usize, lit: &str) -> (r: bool)
    requires
        from <= v@.len(),
    ensures
        r <==> (from + lit@.len() <= v@.len() && v@.subrange(
            from as int,
            from + lit@.len(),
        ) == lit@),
{
    let m = lit.unicode_len();
    if v.len() - from < m {
        return false;
    }
    let nlen = v.len();
    let mut i: usize = 0;
    while i < m
        invariant
            0 <= i <= m,
            from + m <= nlen,
            nlen == v@.len(),
            m == lit@.len(),
            forall|j: int| 0 <= j < i ==> v@[from + j] == lit@[j],
        decreases m - i,
    {
        if v[from + i] != lit.get_char(i) {
            proof {
                assert(v@.subrange(from as int, from + lit@.len())[i as int] != lit@[i as int]);
            }
            return false;
        }
        i = i + 1;
    }
    proof {
        assert(v@.subrange(from as int, from + lit@.len()) =~= lit@);
    }
    true
}

/// How a failure lies on the wire: the fixed frame around the escaped
/// message.
proof fn lemma_failure_shape(m: Seq<char>)
    ensures
        ({
            let s = render_failure(m);
            let e = json_escape(m);
            &&& s.len() == 23 + e.len()
            &&& s.subrange(0, 7) == "{\"cmr\":"@
            &&& s.subrange(7, 21) == "null,\"error\":\""@
            &&& s[7] == 'n'
            &&& s.subrange(21, s.len() - 2) == e
            &&& s[s.len() - 2] == '"'
            &&& s[s.len() - 1] == '}'
        }),
{
    reveal_strlit("{\"cmr\":");
    reveal_strlit("null,\"error\":\"");
    reveal_strlit("null");
    reveal_strlit(",\"error\":");
    reveal_strlit("\"");
    reveal_strlit("}");
    let s = render_failure(m);
    let e = json_escape(m);
    assert(s =~= "{\"cmr\":"@ + "null"@ + ",\"error\":"@ + ("\""@ + e + "\""@) + "}"@);
    assert(s.subrange(0, 7) =~= "{\"cmr\":"@);
    assert(s.subrange(7, 21) =~= "null,\"error\":\""@);
    assert(s.subrange(21, s.len() - 2) =~= e);
}

/// How a plain success lies on the wire: the fixed frame around the
/// escaped commitment root.
proof fn lemma_success_shape(c: Seq<char>)
    ensures
        ({
            let s = render_success(c);
            let e = json_escape(c);
            &&& s.len() == 23 + e.len()
            &&& s.subrange(0, 7) == "{\"cmr\":"@
            &&& s[7] == '"'
            &&& quote_scan(s.skip(8)) == Some(e.len() as int)
            &&& s.subrange(8, 8 + e.len() as int) == e
            &&& s.subrange(8 + e.len() as int, s.len() as int) == "\",\"error\":null}"@
        }),
{
    reveal_strlit("{\"cmr\":");
    reveal_strlit("null");
    reveal_strlit(",\"error\":");
    reveal_strlit("\"");
    reveal_strlit("}");
    reveal_strlit("\",\"error\":null}");
    let s = render_success(c);
    let e = json_escape(c);
    let tail = "\""@ + ",\"error\":"@ + "null"@ + "}"@;
    assert(s =~= "{\"cmr\":"@ + ("\""@ + e + "\""@) + ",\"error\":"@ + "null"@ + "}"@);
    assert(tail =~= "\",\"error\":null}"@);
    assert(s.skip(8) =~= e + tail);
    lemma_scan_after_escape(c, tail);
    assert(s.subrange(0, 7) =~= "{\"cmr\":"@);
    assert(s.subrange(8, 8 + e.len() as int) =~= e);
    assert(s.subrange(8 + e.len() as int, s.len() as int) =~= "\",\"error\":null}"@);
}

/// How a success that carries witness data lies on the wire: the fixed
/// frame around the escaped commitment root and the witness text.
proof fn lemma_witness_shape(c: Seq<char>, w: Seq<char>)
    ensures
        ({
            let s = render_success_witness(c, w);
            let e = json_escape(c);
            let q0 = 8 + e.len() as int;
            &&& s.len() == q0 + 31 + w.len()
            &&& s.subrange(0, 7) == "{\"cmr\":"@
            &&& s[7] == '"'
            &&& quote_scan(s.skip(8)) == Some(e.len() as int)
            &&& s.subrange(8, q0) == e
            &&& s.subrange(q0, q0 + 30) == "\",\"error\":null,\"witness_data\":"@
            &&& s.subrange(q0 + 30, s.len() - 1) == w
            &&& s[s.len() - 1] == '}'
        }),
{
    reveal_strlit("{\"cmr\":");
    reveal_strlit(",\"error\":null,\"witness_data\":");
    reveal_strlit("\"");
    reveal_strlit("}");
    reveal_strlit("\",\"error\":null,\"witness_data\":");
    let s = render_success_witness(c, w);
    let e = json_escape(c);
    let q0 = 8 + e.len() as int;
    let tail = "\""@ + ",\"error\":null,\"witness_data\":"@ + w + "}"@;
    assert(s =~= "{\"cmr\":"@ + ("\""@ + e + "\""@) + ",\"error\":null,\"witness_data\":"@ + w
        + "}"@);
    assert(s.skip(8) =~= e + tail);
    lemma_scan_after_escape(c, tail);
    assert(s.subrange(0, 7) =~= "{\"cmr\":"@);
    assert(s.subrange(8, q0) =~= e);
    assert(s.subrange(q0, q0 + 30) =~= "\",\"error\":null,\"witness_data\":"@);
    assert(s.subrange(q0 + 30, s.len() - 1) =~= w);
}

/// Reads a result string back into its fields. Each of the three wire
/// forms comes back exactly; a string in no form may come back as
/// `None`.
#[verifier::rlimit(60)]
pub fn parse_response(s: &str) -> (r: Option<ParsedResponse>)
    ensures
        forall|m: Seq<char>| s@ == #[trigger] render_failure(m) ==> (r matches Some(p) && p.cmr
            is None && p.witness is None && (p.error matches Some(e) && e@ == m)),
        forall|c: Seq<char>| s@ == #[trigger] render_success(c) ==> (r matches Some(p) && p.error
            is None && p.witness is None && (p.cmr matches Some(x) && x@ == c)),
        forall|c: Seq<char>, w: Seq<char>| s@ == #[trigger] render_success_witness(c, w) ==> (
        r matches Some(p) && p.error is None && (p.cmr matches Some(x) && x@ == c) && (
        p.witness matches Some(y) && y@ == w)),
{
    let v = str_chars(s);
    let n = v.len();
    proof {
        assert forall|m: Seq<char>| s@ == #[trigger] render_failure(m) implies {
            let e = json_escape(m);
            &&& s@.len() == 23 + e.len()
            &&& s@.subrange(0, 7) == "{\"cmr\":"@
            &&& s@.subrange(7, 21) == "null,\"error\":\""@
            &&& s@[7] == 'n'
            &&& s@[s@.len() - 2] == '"'
            &&& s@[s@.len() - 1] == '}'
            &&& json_unescape(s@.subrange(21, s@.len() - 2)) == Some(m)
        } by {
            lemma_failure_shape(m);
            lemma_unescape_escape(m, Seq::<char>::empty());
            assert(json_escape(m) + Seq::<char>::empty() =~= json_escape(m));
            assert(m + Seq::<char>::empty() =~= m);
        }
        assert forall|c: Seq<char>| s@ == #[trigger] render_success(c) implies {
            let e = json_escape(c);
            &&& s@.len() == 23 + e.len()
            &&& s@.subrange(0, 7) == "{\"cmr\":"@
            &&& s@[7] == '"'
            &&& quote_scan(s@.skip(8)) == Some(e.len() as int)
            &&& json_unescape(s@.subrange(8, 8 + e.len() as int)) == Some(c)
            &&& s@.subrange(8 + e.len() as int, s@.len() as int) == "\",\"error\":null}"@
        } by {
            lemma_success_shape(c);
            lemma_unescape_escape(c, Seq::<char>::empty());
            assert(json_escape(c) + Seq::<char>::empty() =~= json_escape(c));
            assert(c + Seq::<char>::empty() =~= c);
        }
        assert forall|c: Seq<char>, w: Seq<char>| s@ == #[trigger] render_success_witness(c, w)
            implies {
            let e = json_escape(c);
            let q0 = 8 + e.len() as int;
            &&& s@.len() == q0 + 31 + w.len()
            &&& s@.subrange(0, 7) == "{\"cmr\":"@
            &&& s@[7] == '"'
            &&& quote_scan(s@.skip(8)) == Some(e.len() as int)
            &&& json_unescape(s@.subrange(8, q0)) == Some(c)
            &&& s@.subrange(q0, q0 + 30) == "\",\"error\":null,\"witness_data\":"@
            &&& s@.subrange(q0 + 30, s@.len() - 1) == w
            &&& s@[s@.len() - 1] == '}'
        } by {
            lemma_witness_shape(c, w);
            lemma_unescape_escape(c, Seq::<char>::empty());
            assert(json_escape(c) + Seq::<char>::empty() =~= json_escape(c));
            assert(c + Seq::<char>::empty() =~= c);
        }
    }
    proof {
        reveal_strlit("{\"cmr\":");
        reveal_strlit("null,\"error\":\"");
        reveal_strlit("\",\"error\":null}");
        reveal_strlit("\",\"error\":null,\"witness_data\":");
    }
    if n < 8 {
        return None;
    }
    if !starts_with_lit(v.as_slice(), 0, "{\"cmr\":") {
        proof {
            reveal_strlit("{\"cmr\":");
        }
        return None;
    }
    if starts_with_lit(v.as_slice(), 7, "null,\"error\":\"") {
        proof {
            assert(v@.subrange(7, 21)[0] == v@[7]);
            assert(v@[7] == 'n');
        }
        if n < 23 {
            return None;
        }
        let c1 = v[n - 2];
        let c2 = v[n - 1];
        if !(c1 == '"' && c2 == '}') {
            return None;
        }
        let mid = sub_chars(v.as_slice(), 21, n - 2);
        match unescape_chars(mid.as_slice()) {
            None => {
                return None;
            },
            Some(u) => {
                let msg = string_from_chars(u.as_slice());
                return Some(ParsedResponse { cmr: None, error: Some(msg), witness: None });
            },
        }
    }
    let c7 = v[7];
    if c7 != '"' {
        proof {
            reveal_strlit("null,\"error\":\"");
        }
        return None;
    }
    match quote_scan_chars(v.as_slice(), 8) {
        None => {
            return None;
        },
        Some(q) => {
            let mid = sub_chars(v.as_slice(), 8, q);
            match unescape_chars(mid.as_slice()) {
                None => {
                    return None;
                },
                Some(u) => {
                    let cmr_s = string_from_chars(u.as_slice());
                    if n - q == 15 && starts_with_lit(v.as_slice(), q, "\",\"error\":null}") {
                        return Some(
                            ParsedResponse { cmr: Some(cmr_s), error: None, witness: None },
                        );
                    }
                    if starts_with_lit(v.as_slice(), q, "\",\"error\":null,\"witness_data\":") && v[n
                        - 1] == '}' && n - q >= 31 {
                        let w = sub_chars(v.as_slice(), q + 30, n - 1);
                        let wit = string_from_chars(w.as_slice());
                        return Some(
                            ParsedResponse { cmr: Some(cmr_s), error: None, witness: Some(wit) },
                        );
                    }
                    None
                },
            }
        },
    }
}

} // verus!
