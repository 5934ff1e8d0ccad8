//! Listener for image builds. The build stream emits JSON lines: `stream`
//! carries build log text, `aux.ID` the final image digest (whose `sha256:`
//! prefix is stripped), and `message` an error.

use vstd::prelude::*;

use crate::docker::jsonio::{get_json_str, get_json_str2, json_field2_str, json_field_str};
use crate::docker::listener::{closing_line, strip_sha256};
use crate::text::{
    complete_lines, drain_pieces, is_blank, spec_blank, spec_trim_log, strip_cr, strip_cr_exec,
    tail_piece, trim_log, utf8_str,
};

verus! {

/// The `(image_id, error_message)` state after scanning `lines`. A `stream`
/// line is log text only; `aux.ID` records the digest; `message` records the
/// error.
pub open spec fn image_fold(
    st: (Option<Seq<char>>, Option<Seq<char>>),
    lines: Seq<Seq<char>>,
) -> (Option<Seq<char>>, Option<Seq<char>>)
    decreases lines.len(),
{
    if lines.len() == 0 {
        st
    } else {
        let prev = image_fold(st, lines.drop_last());
        let l = lines.last();
        if spec_blank(l) || json_field_str(l, "stream"@) is Some {
            prev
        } else {
            match json_field2_str(l, "aux"@, "ID"@) {
                Some(a) => (Some(strip_sha256(a)), prev.1),
                None => match json_field_str(l, "message"@) {
                    Some(m) => (prev.0, Some(m)),
                    None => prev,
                },
            }
        }
    }
}

/// The build log emitted while scanning `lines`: the text of each `stream`
/// line, trimmed, when anything is left of it.
pub open spec fn image_logs(lines: Seq<Seq<char>>) -> Seq<Seq<char>>
    decreases lines.len(),
{
    if lines.len() == 0 {
        Seq::empty()
    } else {
        let l = lines.last();
        image_logs(lines.drop_last()) + if !spec_blank(l) {
            match json_field_str(l, "stream"@) {
                Some(v) => if spec_trim_log(v).len() > 0 {
                    seq![spec_trim_log(v)]
                } else {
                    Seq::empty()
                },
                None => Seq::empty(),
            }
        } else {
            Seq::empty()
        }
    }
}

#[derive(Clone, Debug)]
pub struct BuildImage {
    pub image_id: Option<String>,
    pub error_message: Option<String>,
    pub pending: String,
}

impl BuildImage {
    pub fn new() -> (r: Self)
        ensures
            r.image_id is None,
            r.error_message is None,
            r.pending@.len() == 0,
    {
        BuildImage { image_id: None, error_message: None, pending: String::new() }
    }

    /// One chunk: buffered, complete lines scanned, the partial line carried
    /// into the next chunk. Returns the build log lines to print.
    pub fn write(&mut self, data: &[u8]) -> (r: Vec<String>)
        ensures
            vstd::utf8::valid_utf8(data@) ==> {
                let text = old(self).pending@ + vstd::utf8::decode_utf8(data@);
                let st = image_fold(
                    (old(self).image_id.deep_view(), old(self).error_message.deep_view()),
                    complete_lines(text),
                );
                &&& final(self).pending@ == tail_piece(text)
                &&& final(self).image_id.deep_view() == st.0
                &&& final(self).error_message.deep_view() == st.1
                &&& r.deep_view() == image_logs(complete_lines(text))
            },
            !vstd::utf8::valid_utf8(data@) ==> *final(self) == *old(self) && r@.len() == 0,
    {
        let mut logs: Vec<String> = Vec::new();
        match utf8_str(data) {
            Some(s) => {
                proof {
                    vstd::utf8::encode_utf8_decode_utf8(s@);
                }
                self.pending.append(s);
                let ghost text = self.pending@;
                let pair = drain_pieces(self.pending.as_str());
                let lines = pair.0;
                self.pending = pair.1;
                let ghost lv = lines.deep_view();
                let mut i: usize = 0;
                proof {
                    assert(lv.take(0) =~= Seq::<Seq<char>>::empty());
                }
                while i < lines.len()
                    invariant
                        lv == lines.deep_view(),
                        lines@.len() == lv.len(),
                        0 <= i <= lines.len(),
                        self.pending@ == tail_piece(text),
                        text == old(self).pending@ + vstd::utf8::decode_utf8(data@),
                        logs.deep_view() == image_logs(lv.take(i as int)),
                        ({
                            let st = image_fold(
                                (
                                    old(self).image_id.deep_view(),
                                    old(self).error_message.deep_view(),
                                ),
                                lv.take(i as int),
                            );
                            &&& self.image_id.deep_view() == st.0
                            &&& self.error_message.deep_view() == st.1
                        }),
                    decreases lines.len() - i,
                {
                    proof {
                        assert(lv[i as int] == lines@[i as int]@);
                        assert(lv.take(i as int + 1).drop_last() =~= lv.take(i as int));
                        assert(lv.take(i as int + 1).last() == lv[i as int]);
                    }
                    let ghost old_logs = logs.deep_view();
                    if !is_blank(lines[i].as_str()) {
                        if let Some(v) = get_json_str(lines[i].as_str(), "stream") {
                            let t = trim_log(v.as_str());
                            if t.as_str().unicode_len() > 0 {
                                logs.push(t);
                                proof {
                                    assert(logs.deep_view() =~= old_logs + seq![spec_trim_log(
                                        json_field_str(lv[i as int], "stream"@)->Some_0,
                                    )]);
                                }
                            }
                        } else if let Some(a) = get_json_str2(lines[i].as_str(), "aux", "ID") {
                            self.image_id = Some(
                                crate::docker::listener::strip_sha256_prefix(a.as_str()),
                            );
                        } else if let Some(m) = get_json_str(lines[i].as_str(), "message") {
                            self.error_message = Some(m);
                        }
                    }
                    proof {
                        assert(logs.deep_view() =~= image_logs(lv.take(i as int + 1)));
                    }
                    i = i + 1;
                }
                proof {
                    assert(lv.take(lv.len() as int) =~= lv);
                }
            },
            None => {
            },
        }
        logs
    }
}

impl BuildImage {
    /// End of stream: whatever remains buffered is one final, unterminated
    /// line, processed like any complete line; the buffer is left empty.
    /// Returns any build log it still carried.
    pub fn finish(&mut self) -> (r: Vec<String>)
        ensures
            final(self).pending@.len() == 0,
            ({
                let st = image_fold(
                    (old(self).image_id.deep_view(), old(self).error_message.deep_view()),
                    closing_line(old(self).pending@),
                );
                &&& final(self).image_id.deep_view() == st.0
                &&& final(self).error_message.deep_view() == st.1
                &&& r.deep_view() == image_logs(closing_line(old(self).pending@))
            }),
    {
        let mut logs: Vec<String> = Vec::new();
        if self.pending.as_str().unicode_len() == 0 {
            proof {
                assert(logs.deep_view() =~= image_logs(closing_line(self.pending@)));
            }
            return logs;
        }
        let ghost buffered = self.pending@;
        let ghost st0 = (self.image_id.deep_view(), self.error_message.deep_view());
        let line = strip_cr_exec(self.pending.as_str());
        self.pending = String::new();
        proof {
            assert(closing_line(buffered) =~= seq![strip_cr(buffered)]);
            assert(seq![strip_cr(buffered)].drop_last() =~= Seq::<Seq<char>>::empty());
            assert(seq![strip_cr(buffered)].last() == strip_cr(buffered));
            assert(image_fold(st0, Seq::<Seq<char>>::empty()) == st0);
            assert(image_logs(Seq::<Seq<char>>::empty()) =~= Seq::<Seq<char>>::empty());
        }
        if !is_blank(line.as_str()) {
            if let Some(v) = get_json_str(line.as_str(), "stream") {
                let t = trim_log(v.as_str());
                if t.as_str().unicode_len() > 0 {
                    logs.push(t);
                    proof {
                        assert(logs.deep_view() =~= Seq::<Seq<char>>::empty() + seq![
                            spec_trim_log(json_field_str(strip_cr(buffered), "stream"@)->Some_0),
                        ]);
                    }
                }
            } else if let Some(a) = get_json_str2(line.as_str(), "aux", "ID") {
                self.image_id = Some(crate::docker::listener::strip_sha256_prefix(a.as_str()));
            } else if let Some(m) = get_json_str(line.as_str(), "message") {
                self.error_message = Some(m);
            }
        }
        proof {
            assert(logs.deep_view() =~= image_logs(closing_line(buffered)));
        }
        logs
    }
}

} // verus!
