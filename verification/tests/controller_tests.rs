use simplicity_web::controller::AppState;

const TEMPLATE: &str = "mod param {}\nfn main() {}";

#[test]
fn mount_starts_from_the_template() {
    let s = AppState::new();
    assert_eq!(s.code, TEMPLATE);
    assert_eq!(s.witness, "");
    assert!(s.cmr.is_none());
    assert!(s.code_base64.is_none());
    assert!(s.witness_info.is_none());
    assert!(s.error.is_none());
    assert!(!s.drag_over_code);
    assert!(!s.drag_over_witness);
}

#[test]
fn compile_of_the_template_fills_every_success_field() {
    let mut s = AppState::new();
    s.compile();
    let cmr = s.cmr.clone().unwrap();
    assert_eq!(cmr.len(), 64);
    assert_eq!(
        s.code_base64.clone().unwrap(),
        "bW9kIHBhcmFtIHt9CmZuIG1haW4oKSB7fQ==",
    );
    assert_eq!(s.witness_info.clone().unwrap(), "No witness data provided");
    assert!(s.error.is_none());
    assert_eq!(s.code, TEMPLATE);
}

#[test]
fn compile_of_empty_source_sets_the_error_and_clears_success() {
    let mut s = AppState::new();
    s.compile();
    s.set_code_text(String::new());
    s.compile();
    assert_eq!(s.error.clone().unwrap(), "Code is empty");
    assert!(s.cmr.is_none());
    assert!(s.code_base64.is_none());
    assert!(s.witness_info.is_none());
}

#[test]
fn compile_with_witness_text_reports_its_canonical_form() {
    let mut s = AppState::new();
    s.set_witness_text(String::from("{\"b\": 1, \"a\": 2}"));
    s.compile();
    assert!(s.error.is_none());
    assert_eq!(s.witness_info.clone().unwrap(), "{\"a\":2,\"b\":1}");
    assert_eq!(s.cmr.clone().unwrap().len(), 64);
}

#[test]
fn compile_with_bad_witness_reports_the_json_error() {
    let mut s = AppState::new();
    s.set_witness_text(String::from("{oops"));
    s.compile();
    let err = s.error.clone().unwrap();
    assert!(err.starts_with("Invalid JSON witness data:"));
    assert!(s.cmr.is_none());
    assert!(s.code_base64.is_none());
    assert!(s.witness_info.is_none());
}

#[test]
fn clearing_the_source_twice_equals_clearing_it_once() {
    let mut once = AppState::new();
    once.set_witness_text(String::from("{}"));
    once.compile();
    let mut twice = AppState::new();
    twice.set_witness_text(String::from("{}"));
    twice.compile();
    once.clear_code();
    twice.clear_code();
    twice.clear_code();
    assert_eq!(once.code, twice.code);
    assert_eq!(once.witness, twice.witness);
    assert_eq!(once.cmr, twice.cmr);
    assert_eq!(once.code_base64, twice.code_base64);
    assert_eq!(once.witness_info, twice.witness_info);
    assert_eq!(once.error, twice.error);
    assert_eq!(once.code, "");
    assert_eq!(once.witness, "{}");
    assert!(once.error.is_none());
}

#[test]
fn clearing_the_witness_touches_the_witness_alone() {
    let mut s = AppState::new();
    s.set_witness_text(String::from("{}"));
    s.compile();
    s.clear_witness();
    assert_eq!(s.witness, "");
    assert_eq!(s.code, TEMPLATE);
    assert!(s.cmr.is_some());
}

#[test]
fn simf_drop_replaces_the_source() {
    let mut s = AppState::new();
    s.drop_source_file("contract.simf", String::from("mod param {}\nfn main() {}"));
    assert_eq!(s.code, "mod param {}\nfn main() {}");
    assert!(s.error.is_none());
}

#[test]
fn other_drop_is_refused_and_leaves_the_source() {
    let mut s = AppState::new();
    s.drop_source_file("contract.txt", String::from("whatever"));
    assert_eq!(s.code, TEMPLATE);
    assert_eq!(s.error.clone().unwrap(), "Only .simf files are supported for code");
}

#[test]
fn witness_drop_replaces_the_witness() {
    let mut s = AppState::new();
    s.drop_witness_file(String::from("{\"k\": true}"));
    assert_eq!(s.witness, "{\"k\": true}");
    assert_eq!(s.code, TEMPLATE);
}

#[test]
fn template_insert_lands_at_the_cursor() {
    let mut s = AppState::new();
    s.set_code_text(String::from("ab"));
    let pos = s.insert_template(1);
    assert_eq!(s.code, format!("a{}b", TEMPLATE));
    assert_eq!(pos, 1 + TEMPLATE.len());
}

#[test]
fn drag_highlights_toggle() {
    let mut s = AppState::new();
    s.source_drag_over();
    assert!(s.drag_over_code);
    s.source_drag_leave();
    assert!(!s.drag_over_code);
    s.witness_drag_over();
    assert!(s.drag_over_witness);
    s.witness_drag_leave();
    assert!(!s.drag_over_witness);
}
