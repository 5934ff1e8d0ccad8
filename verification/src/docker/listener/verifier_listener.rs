//! Listener for the verifier container. Its stdout mixes structured findings
//! — JSON lines of shape `{"warning": {...}}` or `{"error": {...}}`, each
//! carrying a message and a short message — with free-form log text.

use vstd::prelude::*;

use crate::docker::jsonio::{get_json_str2, json_field2_str};
use crate::docker::Verification;
use crate::docker::listener::closing_line;
use crate::text::{
    complete_lines, drain_pieces, is_blank, spec_blank, spec_trim_end, strip_cr, strip_cr_exec,
    tail_piece, trim_end, utf8_str,
};

verus! {

#[derive(Clone, Debug)]
pub struct Warning {
    pub message: String,
    pub short_message: String,
}

#[derive(Clone, Debug)]
pub struct Error {
    pub message: String,
    pub short_message: String,
}

/// What a structured finding line contributes: the message pair under `tag`
/// (`warning` or `error`), when both fields are present.
pub open spec fn finding_of(l: Seq<char>, tag: Seq<char>) -> Option<(Seq<char>, Seq<char>)> {
    match (json_field2_str(l, tag, "message"@), json_field2_str(l, tag, "short_message"@)) {
        (Some(m), Some(sm)) => Some((m, sm)),
        _ => None,
    }
}

/// The `(warnings, errors)` accumulated after scanning `lines`, in stream
/// order.
pub open spec fn verifier_fold(
    st: (Seq<(Seq<char>, Seq<char>)>, Seq<(Seq<char>, Seq<char>)>),
    lines: Seq<Seq<char>>,
) -> (Seq<(Seq<char>, Seq<char>)>, Seq<(Seq<char>, Seq<char>)>)
    decreases lines.len(),
{
    if lines.len() == 0 {
        st
    } else {
        let prev = verifier_fold(st, lines.drop_last());
        let l = lines.last();
        if spec_blank(l) {
            prev
        } else {
            match finding_of(l, "warning"@) {
                Some(w) => (prev.0.push(w), prev.1),
                None => match finding_of(l, "error"@) {
                    Some(e) => (prev.0, prev.1.push(e)),
                    None => prev,
                },
            }
        }
    }
}

/// The free-form lines to log: whatever is neither blank nor a structured
/// finding, trimmed.
pub open spec fn verifier_logs(lines: Seq<Seq<char>>) -> Seq<Seq<char>>
    decreases lines.len(),
{
    if lines.len() == 0 {
        Seq::empty()
    } else {
        let l = lines.last();
        verifier_logs(lines.drop_last()) + if !spec_blank(l) && finding_of(l, "warning"@)
            is None && finding_of(l, "error"@) is None {
            seq![spec_trim_end(l)]
        } else {
            Seq::empty()
        }
    }
}

#[derive(Clone, Debug)]
pub struct Verifier {
    pub verification: Verification,
    pub pending: String,
}

impl Verifier {
    pub fn new(framework_name: &str, test_name: &str, test_type_name: &str) -> (r: Self)
        ensures
            r.verification.framework_name@ == framework_name@,
            r.verification.test_name@ == test_name@,
            r.verification.test_type_name@ == test_type_name@,
            r.verification.warnings_view() =~= Seq::<(Seq<char>, Seq<char>)>::empty(),
            r.verification.errors_view() =~= Seq::<(Seq<char>, Seq<char>)>::empty(),
            r.pending@.len() == 0,
    {
        Verifier {
            verification: Verification {
                framework_name: String::from_str(framework_name),
                test_name: String::from_str(test_name),
                test_type_name: String::from_str(test_type_name),
                warnings: Vec::new(),
                errors: Vec::new(),
            },
            pending: String::new(),
        }
    }

    /// One chunk: buffered, complete lines classified as warnings, errors or
    /// log text; the partial line carried into the next chunk. Returns the
    /// log lines.
    pub fn write(&mut self, data: &[u8]) -> (r: Vec<String>)
        ensures
            vstd::utf8::valid_utf8(data@) ==> {
                let text = old(self).pending@ + vstd::utf8::decode_utf8(data@);
                let st = verifier_fold(
                    (
                        old(self).verification.warnings_view(),
                        old(self).verification.errors_view(),
                    ),
                    complete_lines(text),
                );
                &&& final(self).pending@ == tail_piece(text)
                &&& final(self).verification.warnings_view() == st.0
                &&& final(self).verification.errors_view() == st.1
                &&& r.deep_view() == verifier_logs(complete_lines(text))
                &&& final(self).verification.framework_name == old(
                    self,
                ).verification.framework_name
                &&& final(self).verification.test_name == old(self).verification.test_name
                &&& final(self).verification.test_type_name == old(self).verification.test_type_name
            },
            !vstd::utf8::valid_utf8(data@) ==> *final(self) == *old(self) && r@.len() == 0,
    {
        let mut logs: Vec<String> = Vec::new();
        match utf8_str(data) {
            Some(s) => {
                proof {
                    vstd::utf8::encode_utf8_decode_utf8(s@);
                }
                self.pending.append(s);
                let ghost text = self.pending@;
                let pair = drain_pieces(self.pending.as_str());
                let lines = pair.0;
                self.pending = pair.1;
                let ghost lv = lines.deep_view();
                let mut i: usize = 0;
                proof {
                    assert(lv.take(0) =~= Seq::<Seq<char>>::empty());
                }
                while i < lines.len()
                    invariant
                        lv == lines.deep_view(),
                        lines@.len() == lv.len(),
                        0 <= i <= lines.len(),
                        self.pending@ == tail_piece(text),
                        text == old(self).pending@ + vstd::utf8::decode_utf8(data@),
                        logs.deep_view() == verifier_logs(lv.take(i as int)),
                        self.verification.framework_name == old(
                            self,
                        ).verification.framework_name,
                        self.verification.test_name == old(self).verification.test_name,
                        self.verification.test_type_name == old(self).verification.test_type_name,
                        ({
                            let st = verifier_fold(
                                (
                                    old(self).verification.warnings_view(),
                                    old(self).verification.errors_view(),
                                ),
                                lv.take(i as int),
                            );
                            &&& self.verification.warnings_view() == st.0
                            &&& self.verification.errors_view() == st.1
                        }),
                    decreases lines.len() - i,
                {
                    proof {
                        assert(lv[i as int] == lines@[i as int]@);
                        assert(lv.take(i as int + 1).drop_last() =~= lv.take(i as int));
                        assert(lv.take(i as int + 1).last() == lv[i as int]);
                    }
                    let ghost old_w = self.verification.warnings_view();
                    let ghost old_e = self.verification.errors_view();
                    let ghost old_logs = logs.deep_view();
                    if !is_blank(lines[i].as_str()) {
                        let wm = get_json_str2(lines[i].as_str(), "warning", "message");
                        let ws = get_json_str2(lines[i].as_str(), "warning", "short_message");
                        match (wm, ws) {
                            (Some(m), Some(sm)) => {
                                self.verification.warnings.push(
                                    Warning { message: m, short_message: sm },
                                );
                                proof {
                                    assert(self.verification.warnings_view() =~= old_w.push(
                                        finding_of(lv[i as int], "warning"@)->Some_0,
                                    ));
                                }
                            },
                            _ => {
                                let em = get_json_str2(lines[i].as_str(), "error", "message");
                                let es = get_json_str2(
                                    lines[i].as_str(),
                                    "error",
                                    "short_message",
                                );
                                match (em, es) {
                                    (Some(m), Some(sm)) => {
                                        self.verification.errors.push(
                                            Error { message: m, short_message: sm },
                                        );
                                        proof {
                                            assert(self.verification.errors_view()
                                                =~= old_e.push(
                                                finding_of(lv[i as int], "error"@)->Some_0,
                                            ));
                                        }
                                    },
                                    _ => {
                                        logs.push(trim_end(lines[i].as_str()));
                                        proof {
                                            assert(logs.deep_view() =~= old_logs
                                                + seq![spec_trim_end(lv[i as int])]);
                                        }
                                    },
                                }
                            },
                        }
                    }
                    proof {
                        assert(logs.deep_view() =~= verifier_logs(lv.take(i as int + 1)));
                    }
                    i = i + 1;
                }
                proof {
                    assert(lv.take(lv.len() as int) =~= lv);
                }
            },
            None => {
            },
        }
        logs
    }
}

impl Verifier {
    /// End of stream: whatever remains buffered is one final, unterminated
    /// line, classified like any complete line; the buffer is left empty.
    /// Returns any log line it still carried.
    pub fn finish(&mut self) -> (r: Vec<String>)
        ensures
            final(self).pending@.len() == 0,
            ({
                let st = verifier_fold(
                    (
                        old(self).verification.warnings_view(),
                        old(self).verification.errors_view(),
                    ),
                    closing_line(old(self).pending@),
                );
                &&& final(self).verification.warnings_view() == st.0
                &&& final(self).verification.errors_view() == st.1
                &&& r.deep_view() == verifier_logs(closing_line(old(self).pending@))
            }),
            final(self).verification.framework_name == old(self).verification.framework_name,
            final(self).verification.test_name == old(self).verification.test_name,
            final(self).verification.test_type_name == old(self).verification.test_type_name,
    {
        let mut logs: Vec<String> = Vec::new();
        if self.pending.as_str().unicode_len() == 0 {
            proof {
                assert(logs.deep_view() =~= verifier_logs(closing_line(self.pending@)));
            }
            return logs;
        }
        let ghost buffered = self.pending@;
        let ghost st0 = (self.verification.warnings_view(), self.verification.errors_view());
        let line = strip_cr_exec(self.pending.as_str());
        self.pending = String::new();
        proof {
            assert(closing_line(buffered) =~= seq![strip_cr(buffered)]);
            assert(seq![strip_cr(buffered)].drop_last() =~= Seq::<Seq<char>>::empty());
            assert(seq![strip_cr(buffered)].last() == strip_cr(buffered));
            assert(verifier_fold(st0, Seq::<Seq<char>>::empty()) == st0);
            assert(verifier_logs(Seq::<Seq<char>>::empty()) =~= Seq::<Seq<char>>::empty());
        }
        if !is_blank(line.as_str()) {
            let wm = get_json_str2(line.as_str(), "warning", "message");
            let ws = get_json_str2(line.as_str(), "warning", "short_message");
            match (wm, ws) {
                (Some(m), Some(sm)) => {
                    self.verification.warnings.push(Warning { message: m, short_message: sm });
                    proof {
                        assert(self.verification.warnings_view() =~= st0.0.push(
                            finding_of(strip_cr(buffered), "warning"@)->Some_0,
                        ));
                    }
                },
                _ => {
                    let em = get_json_str2(line.as_str(), "error", "message");
                    let es = get_json_str2(line.as_str(), "error", "short_message");
                    match (em, es) {
                        (Some(m), Some(sm)) => {
                            self.verification.errors.push(
                                Error { message: m, short_message: sm },
                            );
                            proof {
                                assert(self.verification.errors_view() =~= st0.1.push(
                                    finding_of(strip_cr(buffered), "error"@)->Some_0,
                                ));
                            }
                        },
                        _ => {
                            logs.push(trim_end(line.as_str()));
                            proof {
                                assert(logs.deep_view() =~= Seq::<Seq<char>>::empty() + seq![
                                    spec_trim_end(strip_cr(buffered)),
                                ]);
                            }
                        },
                    }
                },
            }
        }
        proof {
            assert(logs.deep_view() =~= verifier_logs(closing_line(buffered)));
        }
        logs
    }
}

} // verus!
