//! The trusted boundary to the SimplicityHL compiler. Parsing the
//! argument module out of a source text is deterministic in the text, as
//! is whether the program then compiles and, when it does, the hex text
//! of its commitment root; those three outcomes carry the names below.
//! The message of a failed compilation may depend on map order inside
//! the compiler, so nothing is promised of its content.

use vstd::prelude::*;
use simplicityhl::parse::ParseFromStr;

verus! {

/// The diagnostic of `simplicityhl::Arguments::parse_from_str` on a
/// source text: `None` where the text parses, the message otherwise.
pub uninterp spec fn shl_parse_error(code: Seq<char>) -> Option<Seq<char>>;

/// Whether `simplicityhl::CompiledProgram::new` compiles a parsed source.
pub uninterp spec fn shl_compile_ok(code: Seq<char>) -> bool;

/// The hex text of the commitment root of a compiled source, from
/// `commit().cmr()` of the compiled program.
pub uninterp spec fn shl_cmr(code: Seq<char>) -> Seq<char>;

#[verifier::external_type_specification]
#[verifier::external_body]
pub struct ExArguments(simplicityhl::Arguments);

/// A source text together with the argument set the compiler parsed out
/// of it. Only `parse_arguments` builds one, so the two fields always
/// belong together.
pub struct ParsedSource {
    code: String,
    args: simplicityhl::Arguments,
}

impl View for ParsedSource {
    type V = Seq<char>;

    closed spec fn view(&self) -> Seq<char> {
        self.code@
    }
}

impl ParsedSource {
    /// The source the arguments were parsed from.
    pub fn code(&self) -> (r: &str)
        ensures
            r@ == self@,
    {
        self.code.as_str()
    }
}

/// Relies on `simplicityhl::Arguments::parse_from_str`: it parses the
/// argument module out of the source text, and both the outcome and the
/// diagnostic's text depend on that text alone.
#[verifier::external_body]
pub fn parse_arguments(code: &str) -> (r: Result<ParsedSource, String>)
    ensures
        r is Ok <==> shl_parse_error(code@) is None,
        r matches Ok(p) ==> p@ == code@,
        r matches Err(m) ==> Some(m@) == shl_parse_error(code@),
{
    match simplicityhl::Arguments::parse_from_str(code) {
        Ok(args) => Ok(ParsedSource { code: code.to_owned(), args }),
        Err(e) => Err(format!("{}", e)),
    }
}

/// Relies on `simplicityhl::CompiledProgram::new` without debug symbols,
/// and on the `Display` of `commit().cmr()` of what it returns: whether a
/// parsed source compiles depends on the source alone, and on success the
/// commitment root prints as sixty-four hex characters. The failure
/// message is some text and nothing more is promised of it.
#[verifier::external_body]
pub fn compile_parsed(p: ParsedSource) -> (r: Result<String, String>)
    ensures
        r is Ok <==> shl_compile_ok(p@),
        r matches Ok(c) ==> c@ == shl_cmr(p@) && c@.len() == 64,
{
    match simplicityhl::CompiledProgram::new(p.code.as_str(), p.args, false) {
        Ok(compiled) => Ok(format!("{}", compiled.commit().cmr())),
        Err(e) => Err(e),
    }
}

/// Relies on the `Debug` form of `simplicityhl::Arguments`; its text may
/// depend on map order, so nothing is promised of it.
#[verifier::external_body]
pub fn arguments_debug(p: &ParsedSource) -> String {
    format!("{:?}", p.args)
}

} // verus!
