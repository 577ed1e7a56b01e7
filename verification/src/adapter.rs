//! The compile adapter: the three entry points around the compiler, each
//! normalizing its outcome into the one JSON result shape
//! `{"cmr": string|null, "error": string|null}`, extended with a
//! `witness_data` field when witness compilation succeeds. Rendering is
//! total, so the adapter always returns a result string.

use vstd::prelude::*;
use vstd::string::StringExecFns;
use crate::text::{str_is_blank, is_blank, string_from_chars};
use crate::json::{json_escape, escape_str};
use crate::compiler::{
    parse_arguments,
    compile_parsed,
    arguments_debug,
    shl_parse_error,
    shl_compile_ok,
    shl_cmr,
};
use crate::witness_data::{canonical_json, json_parse_error, json_canon};

verus! {

/// The outcome of one compile call: exactly one of the commitment root
/// and the error message, on every path the adapter takes.
#[derive(Debug)]
pub struct CompileResult {
    pub cmr: Option<String>,
    pub error: Option<String>,
}

/// A result field on the wire: `null`, or the escaped text in quotes.
pub open spec fn opt_field(v: Option<Seq<char>>) -> Seq<char> {
    match v {
        None => "null"@,
        Some(s) => "\""@ + json_escape(s) + "\""@,
    }
}

/// The wire form of a plain result.
pub open spec fn render_result(cmr: Option<Seq<char>>, error: Option<Seq<char>>) -> Seq<char> {
    "{\"cmr\":"@ + opt_field(cmr) + ",\"error\":"@ + opt_field(error) + "}"@
}

/// The wire form of a failure.
pub open spec fn render_failure(msg: Seq<char>) -> Seq<char> {
    render_result(None, Some(msg))
}

/// The wire form of a success.
pub open spec fn render_success(cmr: Seq<char>) -> Seq<char> {
    render_result(Some(cmr), None)
}

/// The wire form of a success that carries witness data, the compact
/// form of the witness spliced in as it stands.
pub open spec fn render_success_witness(cmr: Seq<char>, wit: Seq<char>) -> Seq<char> {
    "{\"cmr\":"@ + opt_field(Some(cmr)) + ",\"error\":null,\"witness_data\":"@ + wit + "}"@
}

/// Appends one result field to the wire text.
fn append_field(out: &mut String, v: &Option<String>)
    ensures
        final (out)@ == old(out)@ + opt_field(v.deep_view()),
{
    match v {
        None => {
            out.append("null");
        },
        Some(s) => {
            let esc = escape_str(s.as_str());
            let esc_s = string_from_chars(esc.as_slice());
            out.append("\"");
            out.append(esc_s.as_str());
            out.append("\"");
            proof {
                assert(old(out)@ + "\""@ + json_escape(s@) + "\""@ =~= old(out)@ + ("\""@
                    + json_escape(s@) + "\""@));
            }
        },
    }
}

/// The wire text of a plain result.
pub fn render_compile_result(res: &CompileResult) -> (r: String)
    ensures
        r@ == render_result(res.cmr.deep_view(), res.error.deep_view()),
{
    let mut out = String::from_str("{\"cmr\":");
    append_field(&mut out, &res.cmr);
    out.append(",\"error\":");
    append_field(&mut out, &res.error);
    out.append("}");
    proof {
        assert(out@ =~= render_result(res.cmr.deep_view(), res.error.deep_view()));
    }
    out
}

/// The wire text of a success that carries witness data.
fn render_witness_success(cmr: &str, wit: &str) -> (r: String)
    ensures
        r@ == render_success_witness(cmr@, wit@),
{
    let mut out = String::from_str("{\"cmr\":");
    let esc = escape_str(cmr);
    let esc_s = string_from_chars(esc.as_slice());
    out.append("\"");
    out.append(esc_s.as_str());
    out.append("\"");
    out.append(",\"error\":null,\"witness_data\":");
    out.append(wit);
    out.append("}");
    proof {
        assert(out@ =~= render_success_witness(cmr@, wit@));
    }
    out
}

/// A failure result made of a fixed prefix and a message.
fn failure_of(prefix: &str, msg: &str) -> (r: String)
    ensures
        r@ == render_failure(prefix@ + msg@),
{
    let mut text = String::from_str(prefix);
    text.append(msg);
    let res = CompileResult { cmr: None, error: Some(text) };
    let out = render_compile_result(&res);
    proof {
        assert(res.error.deep_view() == Some(prefix@ + msg@));
    }
    out
}

/// A failure result holding a fixed message alone.
fn failure_text(text: &str) -> (r: String)
    ensures
        r@ == render_failure(text@),
{
    let r = failure_of(text, "");
    proof {
        reveal_strlit("");
        assert(text@ + ""@ =~= text@);
    }
    r
}

/// Compiles a source text and reports the outcome on the wire: the error
/// for blank text, the parse diagnostic behind `Parse error: `, the
/// compiler's message behind `Compilation error: `, or the commitment
/// root of the compiled program.
pub fn compile_simplicity(code: &str) -> (r: String)
    ensures
        is_blank(code@) ==> r@ == render_failure("Code is empty"@),
        !is_blank(code@) ==> (shl_parse_error(code@) matches Some(m) ==> r@ == render_failure(
            "Parse error: "@ + m,
        )),
        !is_blank(code@) && shl_parse_error(code@) is None && !shl_compile_ok(code@)
            ==> exists|m: Seq<char>| r@ == render_failure(#[trigger] ("Compilation error: "@ + m)),
        !is_blank(code@) && shl_parse_error(code@) is None && shl_compile_ok(code@) ==> r@
            == render_success(shl_cmr(code@)) && shl_cmr(code@).len() == 64,
{
    if str_is_blank(code) {
        return failure_text("Code is empty");
    }
    match parse_arguments(code) {
        Err(m) => failure_of("Parse error: ", m.as_str()),
        Ok(p) => match compile_parsed(p) {
            Err(m) => {
                let r = failure_of("Compilation error: ", m.as_str());
                proof {
                    assert(r@ == render_failure("Compilation error: "@ + m@));
                }
                r
            },
            Ok(cmr) => {
                let res = CompileResult { cmr: Some(cmr), error: None };
                render_compile_result(&res)
            },
        },
    }
}

/// Compiles a source text against witness data and reports the outcome
/// on the wire: as `compile_simplicity`, after rejecting blank witness
/// text and witness text that is not JSON; on success the compact form
/// of the witness rides along as `witness_data`.
pub fn compile_with_witness(code: &str, witness_text: &str) -> (r: String)
    ensures
        is_blank(code@) ==> r@ == render_failure("Code is empty"@),
        !is_blank(code@) && is_blank(witness_text@) ==> r@ == render_failure(
            "Witness data is empty"@,
        ),
        !is_blank(code@) && !is_blank(witness_text@) ==> (json_parse_error(
            witness_text@,
        ) matches Some(m) ==> r@ == render_failure("Invalid JSON witness data: "@ + m)),
        !is_blank(code@) && !is_blank(witness_text@) && json_parse_error(witness_text@) is None
            ==> (shl_parse_error(code@) matches Some(m) ==> r@ == render_failure(
            "Parse error: "@ + m,
        )),
        !is_blank(code@) && !is_blank(witness_text@) && json_parse_error(witness_text@) is None
            && shl_parse_error(code@) is None && !shl_compile_ok(code@) ==> exists|m: Seq<char>|
            r@ == render_failure(#[trigger] ("Compilation error: "@ + m)),
        !is_blank(code@) && !is_blank(witness_text@) && json_parse_error(witness_text@) is None
            && shl_parse_error(code@) is None && shl_compile_ok(code@) ==> r@
            == render_success_witness(shl_cmr(code@), json_canon(witness_text@)) && shl_cmr(
            code@,
        ).len() == 64,
{
    if str_is_blank(code) {
        return failure_text("Code is empty");
    }
    if str_is_blank(witness_text) {
        return failure_text("Witness data is empty");
    }
    match canonical_json(witness_text) {
        Err(m) => failure_of("Invalid JSON witness data: ", m.as_str()),
        Ok(canon) => match parse_arguments(code) {
            Err(m) => failure_of("Parse error: ", m.as_str()),
            Ok(p) => match compile_parsed(p) {
                Err(m) => {
                    let r = failure_of("Compilation error: ", m.as_str());
                    proof {
                        assert(r@ == render_failure("Compilation error: "@ + m@));
                    }
                    r
                },
                Ok(cmr) => render_witness_success(cmr.as_str(), canon.as_str()),
            },
        },
    }
}

/// Parses a source text and reports the outcome on the wire: the error
/// for blank text, the parse diagnostic behind `Parse error: `, or a
/// diagnostic description of the parsed argument structure in the `cmr`
/// field.
pub fn parse_program(code: &str) -> (r: String)
    ensures
        is_blank(code@) ==> r@ == render_failure("Code is empty"@),
        !is_blank(code@) ==> (shl_parse_error(code@) matches Some(m) ==> r@ == render_failure(
            "Parse error: "@ + m,
        )),
        !is_blank(code@) && shl_parse_error(code@) is None ==> exists|d: Seq<char>|
            r@ == render_success(#[trigger] ("Parsed successfully: "@ + d)),
{
    if str_is_blank(code) {
        return failure_text("Code is empty");
    }
    match parse_arguments(code) {
        Err(m) => failure_of("Parse error: ", m.as_str()),
        Ok(p) => {
            let d = arguments_debug(&p);
            let mut text = String::from_str("Parsed successfully: ");
            text.append(d.as_str());
            let res = CompileResult { cmr: Some(text), error: None };
            let r = render_compile_result(&res);
            proof {
                assert(r@ == render_success("Parsed successfully: "@ + d@));
            }
            r
        },
    }
}

} // verus!
