use simplicity_web::b64::{encode_base64, decode_base64};
use simplicity_web::response::parse_response;

#[test]
fn base64_matches_the_standard_alphabet() {
    assert_eq!(encode_base64(""), "");
    assert_eq!(encode_base64("M"), "TQ==");
    assert_eq!(encode_base64("Ma"), "TWE=");
    assert_eq!(encode_base64("Man"), "TWFu");
    assert_eq!(
        encode_base64("mod param {}\nfn main() {}"),
        "bW9kIHBhcmFtIHt9CmZuIG1haW4oKSB7fQ==",
    );
}

#[test]
fn base64_round_trips_multibyte_text() {
    for s in ["", "M", "Ma", "Man", "h\u{e9}llo \u{2603}", "\u{1f600} ok", "a\"b\\c\n"] {
        let enc = encode_base64(s);
        let back = decode_base64(&enc).unwrap();
        assert_eq!(back, s.as_bytes().to_vec());
    }
    assert_eq!(encode_base64("h\u{e9}llo \u{2603}"), "aMOpbGxvIOKYgw==");
}

#[test]
fn base64_decoder_rejects_junk() {
    assert!(decode_base64("TWF").is_none());
    assert!(decode_base64("!!!!").is_none());
    assert!(decode_base64("TQ=a").is_none());
}

#[test]
fn result_wire_round_trips_through_the_parser() {
    let p = parse_response("{\"cmr\":null,\"error\":\"Code is empty\"}").unwrap();
    assert!(p.cmr.is_none());
    assert!(p.witness.is_none());
    assert_eq!(p.error.unwrap(), "Code is empty");

    let p = parse_response("{\"cmr\":\"abc123\",\"error\":null}").unwrap();
    assert!(p.error.is_none());
    assert!(p.witness.is_none());
    assert_eq!(p.cmr.unwrap(), "abc123");

    let p = parse_response("{\"cmr\":\"ff\",\"error\":null,\"witness_data\":{\"a\":2}}").unwrap();
    assert_eq!(p.cmr.unwrap(), "ff");
    assert!(p.error.is_none());
    assert_eq!(p.witness.unwrap(), "{\"a\":2}");
}

#[test]
fn result_wire_unescapes_messages() {
    let p = parse_response("{\"cmr\":null,\"error\":\"a \\\"b\\\" \\\\ \\n \\u0000 end\"}")
        .unwrap();
    assert_eq!(p.error.unwrap(), "a \"b\" \\ \n \u{0} end");
}

#[test]
fn malformed_responses_are_refused() {
    assert!(parse_response("").is_none());
    assert!(parse_response("not json at all").is_none());
    assert!(parse_response("{\"cmr\":42}").is_none());
}
