//! The interaction controller: one state bundle for the page and the
//! discrete actions that drive it — compile, clear, template insertion,
//! text edits, file drops and drag highlights. Every action states its
//! transition over the state's view; the compile action's outcome is
//! pinned case by case through the adapter's contracts.

use vstd::prelude::*;
use vstd::string::StringExecFns;
use vstd::string::StrSliceExecFns;
use vstd::utf8::encode_utf8;
use crate::text::{str_is_blank, is_blank, str_eq, str_ends_with, ends_with};
use crate::b64::{b64_encode, encode_base64};
use crate::adapter::{compile_simplicity, compile_with_witness};
use crate::compiler::{shl_parse_error, shl_compile_ok, shl_cmr};
use crate::witness_data::{json_parse_error, json_canon};
use crate::response::parse_response;

verus! {

/// The state of the page: the two texts, the derived outputs of the
/// last compile, the error, and the drop-zone highlights.
pub struct AppState {
    pub code: String,
    pub witness: String,
    pub cmr: Option<String>,
    pub code_base64: Option<String>,
    pub witness_info: Option<String>,
    pub error: Option<String>,
    pub drag_over_code: bool,
    pub drag_over_witness: bool,
}

/// The state as the contracts see it.
#[verifier::ext_equal]
pub struct StateView {
    pub code: Seq<char>,
    pub witness: Seq<char>,
    pub cmr: Option<Seq<char>>,
    pub code_base64: Option<Seq<char>>,
    pub witness_info: Option<Seq<char>>,
    pub error: Option<Seq<char>>,
    pub drag_over_code: bool,
    pub drag_over_witness: bool,
}

impl View for AppState {
    type V = StateView;

    open spec fn view(&self) -> StateView {
        StateView {
            code: self.code@,
            witness: self.witness@,
            cmr: self.cmr.deep_view(),
            code_base64: self.code_base64.deep_view(),
            witness_info: self.witness_info.deep_view(),
            error: self.error.deep_view(),
            drag_over_code: self.drag_over_code,
            drag_over_witness: self.drag_over_witness,
        }
    }
}

/// The state at mount: the template source, everything else empty.
pub open spec fn initial_state() -> StateView {
    StateView {
        code: "mod param {}\nfn main() {}"@,
        witness: Seq::<char>::empty(),
        cmr: None,
        code_base64: None,
        witness_info: None,
        error: None,
        drag_over_code: false,
        drag_over_witness: false,
    }
}

/// A failed compile: the message is shown and the three success fields
/// are cleared; nothing else moves.
pub open spec fn failed(o: StateView, f: StateView, e: Seq<char>) -> bool {
    f == StateView { error: Some(e), cmr: None, code_base64: None, witness_info: None, ..o }
}

/// What the compile action does, case by case over the two texts. The
/// message of a failed compilation is some text behind its fixed prefix.
pub open spec fn compile_post(o: StateView, f: StateView) -> bool {
    let used = !is_blank(o.witness);
    if is_blank(o.code) {
        failed(o, f, "Code is empty"@)
    } else if used && json_parse_error(o.witness) is Some {
        failed(o, f, "Invalid JSON witness data: "@ + json_parse_error(o.witness)->0)
    } else if shl_parse_error(o.code) is Some {
        failed(o, f, "Parse error: "@ + shl_parse_error(o.code)->0)
    } else if !shl_compile_ok(o.code) {
        exists|m: Seq<char>| failed(o, f, #[trigger] ("Compilation error: "@ + m))
    } else {
        f == StateView {
            error: None,
            cmr: Some(shl_cmr(o.code)),
            code_base64: Some(b64_encode(encode_utf8(o.code))),
            witness_info: Some(
                if used {
                    json_canon(o.witness)
                } else {
                    "No witness data provided"@
                },
            ),
            ..o
        }
    }
}

/// Clearing the source resets the source and every derived field.
pub open spec fn clear_code_spec(o: StateView) -> StateView {
    StateView {
        code: Seq::<char>::empty(),
        cmr: None,
        code_base64: None,
        witness_info: None,
        error: None,
        ..o
    }
}

/// Clearing the witness resets the witness text alone.
pub open spec fn clear_witness_spec(o: StateView) -> StateView {
    StateView { witness: Seq::<char>::empty(), ..o }
}

/// A file dropped on the source zone: a `.simf` file replaces the source
/// and clears the error; any other file leaves the source and raises the
/// fixed error.
pub open spec fn drop_source_spec(o: StateView, name: Seq<char>, content: Seq<char>) -> StateView {
    if ends_with(name, ".simf"@) {
        StateView { code: content, error: None, ..o }
    } else {
        StateView { error: Some("Only .simf files are supported for code"@), ..o }
    }
}

/// Clearing the source twice leaves the state exactly as clearing it
/// once does.
pub proof fn lemma_clear_code_idempotent(o: StateView)
    ensures
        clear_code_spec(clear_code_spec(o)) == clear_code_spec(o),
{
    assert(clear_code_spec(clear_code_spec(o)) =~= clear_code_spec(o));
}

/// After a compile exactly one of the commitment root and the error is
/// set: an error clears the root and a root comes without an error.
pub proof fn lemma_compile_exclusive(o: StateView, f: StateView)
    requires
        compile_post(o, f),
    ensures
        (f.error is Some) <==> (f.cmr is None),
{
    let used = !is_blank(o.witness);
    if !is_blank(o.code) && !(used && json_parse_error(o.witness) is Some) && shl_parse_error(
        o.code,
    ) is None && !shl_compile_ok(o.code) {
        let m = choose|m: Seq<char>| failed(o, f, #[trigger] ("Compilation error: "@ + m));
        assert(failed(o, f, "Compilation error: "@ + m));
    }
}

impl AppState {
    /// The state at mount.
    pub fn new() -> (s: AppState)
        ensures
            s@ == initial_state(),
    {
        let s = AppState {
            code: String::from_str("mod param {}\nfn main() {}"),
            witness: String::new(),
            cmr: None,
            code_base64: None,
            witness_info: None,
            error: None,
            drag_over_code: false,
            drag_over_witness: false,
        };
        proof {
            assert(s@ =~= initial_state());
        }
        s
    }

    /// An edit of the source text.
    pub fn set_code_text(&mut self, text: String)
        ensures
            final (self)@ == (StateView { code: text@, ..old(self)@ }),
    {
        self.code = text;
        proof {
            assert(self@ =~= (StateView { code: self.code@, ..old(self)@ }));
        }
    }

    /// An edit of the witness text.
    pub fn set_witness_text(&mut self, text: String)
        ensures
            final (self)@ == (StateView { witness: text@, ..old(self)@ }),
    {
        self.witness = text;
        proof {
            assert(self@ =~= (StateView { witness: self.witness@, ..old(self)@ }));
        }
    }

    /// The clear-source action.
    pub fn clear_code(&mut self)
        ensures
            final (self)@ == clear_code_spec(old(self)@),
    {
        self.code = String::new();
        self.cmr = None;
        self.code_base64 = None;
        self.witness_info = None;
        self.error = None;
        proof {
            assert(self@ =~= clear_code_spec(old(self)@));
        }
    }

    /// The clear-witness action.
    pub fn clear_witness(&mut self)
        ensures
            final (self)@ == clear_witness_spec(old(self)@),
    {
        self.witness = String::new();
        proof {
            assert(self@ =~= clear_witness_spec(old(self)@));
        }
    }

    /// A drag entering the source drop zone.
    pub fn source_drag_over(&mut self)
        ensures
            final (self)@ == (StateView { drag_over_code: true, ..old(self)@ }),
    {
        self.drag_over_code = true;
        proof {
            assert(self@ =~= (StateView { drag_over_code: true, ..old(self)@ }));
        }
    }

    /// A drag leaving the source drop zone.
    pub fn source_drag_leave(&mut self)
        ensures
            final (self)@ == (StateView { drag_over_code: false, ..old(self)@ }),
    {
        self.drag_over_code = false;
        proof {
            assert(self@ =~= (StateView { drag_over_code: false, ..old(self)@ }));
        }
    }

    /// A drag entering the witness drop zone.
    pub fn witness_drag_over(&mut self)
        ensures
            final (self)@ == (StateView { drag_over_witness: true, ..old(self)@ }),
    {
        self.drag_over_witness = true;
        proof {
            assert(self@ =~= (StateView { drag_over_witness: true, ..old(self)@ }));
        }
    }

    /// A drag leaving the witness drop zone.
    pub fn witness_drag_leave(&mut self)
        ensures
            final (self)@ == (StateView { drag_over_witness: false, ..old(self)@ }),
    {
        self.drag_over_witness = false;
        proof {
            assert(self@ =~= (StateView { drag_over_witness: false, ..old(self)@ }));
        }
    }

    /// A file dropped on the source zone, its name and text in hand; the
    /// highlight goes off with the drop.
    pub fn drop_source_file(&mut self, name: &str, content: String)
        ensures
            final (self)@ == (StateView {
                drag_over_code: false,
                ..drop_source_spec(old(self)@, name@, content@)
            }),
    {
        self.drag_over_code = false;
        if str_ends_with(name, ".simf") {
            self.code = content;
            self.error = None;
            proof {
                assert(self@ =~= (StateView {
                    drag_over_code: false,
                    ..drop_source_spec(old(self)@, name@, content@)
                }));
            }
        } else {
            self.error = Some(String::from_str("Only .simf files are supported for code"));
            proof {
                assert(self@ =~= (StateView {
                    drag_over_code: false,
                    ..drop_source_spec(old(self)@, name@, content@)
                }));
            }
        }
    }

    /// A file dropped on the witness zone: its text replaces the witness
    /// text, and the highlight goes off.
    pub fn drop_witness_file(&mut self, content: String)
        ensures
            final (self)@ == (StateView {
                witness: content@,
                drag_over_witness: false,
                ..old(self)@
            }),
    {
        self.drag_over_witness = false;
        self.witness = content;
        proof {
            assert(self@ =~= (StateView {
                witness: self.witness@,
                drag_over_witness: false,
                ..old(self)@
            }));
        }
    }

    /// The template-insert action: the fixed template goes in at the
    /// cursor, and the position right after it comes back so the caller
    /// can put the cursor there once the surface has re-rendered.
    pub fn insert_template(&mut self, cursor: usize) -> (new_pos: usize)
        requires
            cursor <= old(self)@.code.len(),
            old(self)@.code.len() + 25 < usize::MAX,
        ensures
            final (self)@ == (StateView {
                code: old(self)@.code.subrange(0, cursor as int)
                    + "mod param {}\nfn main() {}"@ + old(self)@.code.subrange(
                    cursor as int,
                    old(self)@.code.len() as int,
                ),
                ..old(self)@
            }),
            new_pos == cursor + "mod param {}\nfn main() {}"@.len(),
    {
        let template = "mod param {}\nfn main() {}";
        let tlen = template.unicode_len();
        proof {
            reveal_strlit("mod param {}\nfn main() {}");
            assert(tlen == 25);
        }
        let n = self.code.unicode_len();
        let head = self.code.as_str().substring_char(0, cursor);
        let tail = self.code.as_str().substring_char(cursor, n);
        let mut text = String::from_str(head);
        text.append(template);
        text.append(tail);
        proof {
            assert(text@ == old(self)@.code.subrange(0, cursor as int)
                + "mod param {}\nfn main() {}"@ + old(self)@.code.subrange(
                cursor as int,
                old(self)@.code.len() as int,
            ));
        }
        self.code = text;
        proof {
            assert(self@ =~= (StateView { code: self.code@, ..old(self)@ }));
        }
        cursor + tlen
    }

    /// The compile action: reads the two texts, asks the adapter, and
    /// moves the state to the outcome that `compile_post` describes.
    pub fn compile(&mut self)
        ensures
            compile_post(old(self)@, final (self)@),
    {
        let ghost o = old(self)@;
        if str_is_blank(self.code.as_str()) {
            self.error = Some(String::from_str("Code is empty"));
            self.cmr = None;
            self.code_base64 = None;
            self.witness_info = None;
            proof {
                assert(self@ =~= (StateView {
                    error: Some("Code is empty"@),
                    cmr: None,
                    code_base64: None,
                    witness_info: None,
                    ..o
                }));
            }
            return;
        }
        let used = !str_is_blank(self.witness.as_str());
        let resp_s = if used {
            compile_with_witness(self.code.as_str(), self.witness.as_str())
        } else {
            compile_simplicity(self.code.as_str())
        };
        let resp = parse_response(resp_s.as_str());
        match resp {
            None => {
                self.error = Some(String::from_str("Invalid response from compiler"));
                self.cmr = None;
                self.code_base64 = None;
                self.witness_info = None;
                proof {
                    assert(false);
                }
            },
            Some(p) => {
                let mut failed_msg: Option<String> = None;
                match p.error {
                    Some(e) => {
                        if !e.as_str().is_empty() && !str_eq(e.as_str(), "null") {
                            failed_msg = Some(e);
                        }
                    },
                    None => {},
                }
                match failed_msg {
                    Some(e) => {
                        proof {
                            reveal_strlit("Invalid JSON witness data: ");
                            reveal_strlit("Parse error: ");
                            reveal_strlit("Compilation error: ");
                            reveal_strlit("Code is empty");
                        }
                        self.error = Some(e);
                        self.cmr = None;
                        self.code_base64 = None;
                        self.witness_info = None;
                        proof {
                            assert(self@ =~= (StateView {
                                error: Some(self.error.deep_view()->0),
                                cmr: None,
                                code_base64: None,
                                witness_info: None,
                                ..o
                            }));
                        }
                    },
                    None => {
                        proof {
                            reveal_strlit("null");
                            reveal_strlit("Invalid JSON witness data: ");
                            reveal_strlit("Parse error: ");
                            reveal_strlit("Compilation error: ");
                            reveal_strlit("Code is empty");
                        }
                        let b64 = encode_base64(self.code.as_str());
                        match p.cmr {
                            Some(x) => {
                                if !x.as_str().is_empty() && !str_eq(x.as_str(), "null") {
                                    self.cmr = Some(x);
                                }
                            },
                            None => {},
                        }
                        self.code_base64 = Some(b64);
                        match p.witness {
                            Some(w) => {
                                self.witness_info = Some(w);
                            },
                            None => {
                                if used {
                                    self.witness_info = Some(
                                        String::from_str("Witness processed successfully"),
                                    );
                                } else {
                                    self.witness_info = Some(
                                        String::from_str("No witness data provided"),
                                    );
                                }
                            },
                        }
                        self.error = None;
                        proof {
                            assert(self@ =~= (StateView {
                                error: None,
                                cmr: Some(shl_cmr(o.code)),
                                code_base64: Some(b64_encode(encode_utf8(o.code))),
                                witness_info: Some(
                                    if !is_blank(o.witness) {
                                        json_canon(o.witness)
                                    } else {
                                        "No witness data provided"@
                                    },
                                ),
                                ..o
                            }));
                        }
                    },
                }
            },
        }
    }
}

} // verus!
