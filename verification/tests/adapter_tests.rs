use simplicity_web::{compile_simplicity, compile_with_witness, parse_program};

const TEMPLATE: &str = "mod param {}\nfn main() {}";

fn field_str(v: &serde_json::Value, key: &str) -> Option<String> {
    v.get(key).and_then(|x| x.as_str()).map(|s| s.to_string())
}

#[test]
fn blank_source_is_rejected_without_compiling() {
    for s in ["", "   ", " \t\r\n ", "\u{a0}\u{2003}"] {
        let out = compile_simplicity(s);
        assert_eq!(out, "{\"cmr\":null,\"error\":\"Code is empty\"}");
    }
}

#[test]
fn blank_witness_is_rejected() {
    for w in ["", "  ", "\n\t"] {
        let out = compile_with_witness(TEMPLATE, w);
        assert_eq!(out, "{\"cmr\":null,\"error\":\"Witness data is empty\"}");
    }
}

#[test]
fn invalid_witness_json_is_rejected() {
    let out = compile_with_witness(TEMPLATE, "{not json");
    let v: serde_json::Value = serde_json::from_str(&out).unwrap();
    let err = field_str(&v, "error").unwrap();
    assert!(err.contains("Invalid JSON witness data:"));
    assert!(v.get("cmr").unwrap().is_null());
}

#[test]
fn template_compiles_to_a_commitment_root() {
    let out = compile_simplicity(TEMPLATE);
    let v: serde_json::Value = serde_json::from_str(&out).unwrap();
    assert!(v.get("error").unwrap().is_null());
    let cmr = field_str(&v, "cmr").unwrap();
    assert_eq!(cmr.len(), 64);
    assert!(cmr.chars().all(|c| c.is_ascii_hexdigit()));
}

#[test]
fn parse_error_is_prefixed() {
    let out = compile_simplicity("fn main( {");
    let v: serde_json::Value = serde_json::from_str(&out).unwrap();
    let err = field_str(&v, "error").unwrap();
    assert!(err.starts_with("Parse error: "));
    assert!(v.get("cmr").unwrap().is_null());
}

#[test]
fn compile_error_is_prefixed() {
    let out = compile_simplicity("fn main() {\n    let x: u32 = false;\n}");
    let v: serde_json::Value = serde_json::from_str(&out).unwrap();
    let err = field_str(&v, "error").unwrap();
    assert!(err.starts_with("Compilation error: "));
    assert!(v.get("cmr").unwrap().is_null());
}

#[test]
fn witness_success_carries_canonical_witness_data() {
    let out = compile_with_witness(TEMPLATE, "{\"b\": 1, \"a\": 2}");
    let v: serde_json::Value = serde_json::from_str(&out).unwrap();
    assert!(v.get("error").unwrap().is_null());
    assert_eq!(field_str(&v, "cmr").unwrap().len(), 64);
    let wit = v.get("witness_data").unwrap();
    assert_eq!(wit.to_string(), "{\"a\":2,\"b\":1}");
    assert_eq!(out.ends_with(",\"witness_data\":{\"a\":2,\"b\":1}}"), true);
}

#[test]
fn witness_and_plain_compiles_agree_on_the_root() {
    let plain = compile_simplicity(TEMPLATE);
    let with = compile_with_witness(TEMPLATE, "{}");
    let vp: serde_json::Value = serde_json::from_str(&plain).unwrap();
    let vw: serde_json::Value = serde_json::from_str(&with).unwrap();
    assert_eq!(field_str(&vp, "cmr"), field_str(&vw, "cmr"));
}

#[test]
fn parse_program_reports_the_argument_structure() {
    let out = parse_program(TEMPLATE);
    let v: serde_json::Value = serde_json::from_str(&out).unwrap();
    assert!(v.get("error").unwrap().is_null());
    let txt = field_str(&v, "cmr").unwrap();
    assert!(txt.starts_with("Parsed successfully: "));
}

#[test]
fn parse_program_rejects_blank_and_broken_source() {
    assert_eq!(parse_program("  "), "{\"cmr\":null,\"error\":\"Code is empty\"}");
    let out = parse_program("fn main( {");
    let v: serde_json::Value = serde_json::from_str(&out).unwrap();
    assert!(field_str(&v, "error").unwrap().starts_with("Parse error: "));
}

#[test]
fn error_messages_survive_the_wire_as_json() {
    let out = compile_simplicity("fn main() { \"quoted\" }");
    let v: serde_json::Value = serde_json::from_str(&out).unwrap();
    let err = field_str(&v, "error").unwrap();
    assert!(err.starts_with("Parse error: ") || err.starts_with("Compilation error: "));
}
