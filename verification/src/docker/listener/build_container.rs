//! Listener for container creation: the response line carries the new
//! container's `Id`, truncated to the twelve-character short form; an error
//! arrives as a `message` line.

use vstd::prelude::*;

use crate::docker::jsonio::get_json_str;
use crate::docker::listener::{closing_line, id_message_fold, truncate_id};
use crate::text::{complete_lines, drain_pieces, is_blank, strip_cr, strip_cr_exec, tail_piece, utf8_str};

verus! {

#[derive(Clone, Debug)]
pub struct BuildContainer {
    pub container_id: Option<String>,
    pub error_message: Option<String>,
    pub pending: String,
}

impl BuildContainer {
    pub fn new() -> (r: Self)
        ensures
            r.container_id is None,
            r.error_message is None,
            r.pending@.len() == 0,
    {
        BuildContainer { container_id: None, error_message: None, pending: String::new() }
    }

    /// One chunk: buffered, complete lines scanned, the partial line carried
    /// into the next chunk.
    pub fn write(&mut self, data: &[u8]) -> (r: usize)
        ensures
            r == data@.len(),
            vstd::utf8::valid_utf8(data@) ==> {
                let text = old(self).pending@ + vstd::utf8::decode_utf8(data@);
                let st = id_message_fold(
                    (
                        old(self).container_id.deep_view(),
                        old(self).error_message.deep_view(),
                    ),
                    complete_lines(text),
                );
                &&& final(self).pending@ == tail_piece(text)
                &&& final(self).container_id.deep_view() == st.0
                &&& final(self).error_message.deep_view() == st.1
            },
            !vstd::utf8::valid_utf8(data@) ==> *final(self) == *old(self),
    {
        match utf8_str(data) {
            Some(s) => {
                proof {
                    vstd::utf8::encode_utf8_decode_utf8(s@);
                }
                self.pending.append(s);
                let ghost text = self.pending@;
                let pair = drain_pieces(self.pending.as_str());
                let lines = pair.0;
                self.pending = pair.1;
                let ghost lv = lines.deep_view();
                let mut i: usize = 0;
                proof {
                    assert(lv.take(0) =~= Seq::<Seq<char>>::empty());
                }
                while i < lines.len()
                    invariant
                        lv == lines.deep_view(),
                        lines@.len() == lv.len(),
                        0 <= i <= lines.len(),
                        self.pending@ == tail_piece(text),
                        text == old(self).pending@ + vstd::utf8::decode_utf8(data@),
                        ({
                            let st = id_message_fold(
                                (
                                    old(self).container_id.deep_view(),
                                    old(self).error_message.deep_view(),
                                ),
                                lv.take(i as int),
                            );
                            &&& self.container_id.deep_view() == st.0
                            &&& self.error_message.deep_view() == st.1
                        }),
                    decreases lines.len() - i,
                {
                    proof {
                        assert(lv[i as int] == lines@[i as int]@);
                        assert(lv.take(i as int + 1).drop_last() =~= lv.take(i as int));
                        assert(lv.take(i as int + 1).last() == lv[i as int]);
                    }
                    if !is_blank(lines[i].as_str()) {
                        if let Some(id) = get_json_str(lines[i].as_str(), "Id") {
                            self.container_id = Some(truncate_id(id.as_str()));
                        } else if let Some(m) = get_json_str(lines[i].as_str(), "message") {
                            self.error_message = Some(m);
                        }
                    }
                    i = i + 1;
                }
                proof {
                    assert(lv.take(lv.len() as int) =~= lv);
                }
            },
            None => {
            },
        }
        data.len()
    }
}

impl BuildContainer {
    /// End of stream: whatever remains buffered is one final, unterminated
    /// line — the shape of Docker's create response — processed like any
    /// complete line; the buffer is left empty.
    pub fn finish(&mut self)
        ensures
            final(self).pending@.len() == 0,
            ({
                let st = id_message_fold(
                    (
                        old(self).container_id.deep_view(),
                        old(self).error_message.deep_view(),
                    ),
                    closing_line(old(self).pending@),
                );
                &&& final(self).container_id.deep_view() == st.0
                &&& final(self).error_message.deep_view() == st.1
            }),
    {
        if self.pending.as_str().unicode_len() == 0 {
            return ;
        }
        let ghost buffered = self.pending@;
        let ghost st0 = (self.container_id.deep_view(), self.error_message.deep_view());
        let line = strip_cr_exec(self.pending.as_str());
        self.pending = String::new();
        proof {
            assert(closing_line(buffered) =~= seq![strip_cr(buffered)]);
            assert(seq![strip_cr(buffered)].drop_last() =~= Seq::<Seq<char>>::empty());
            assert(seq![strip_cr(buffered)].last() == strip_cr(buffered));
            assert(id_message_fold(st0, Seq::<Seq<char>>::empty()) == st0);
        }
        if !is_blank(line.as_str()) {
            if let Some(id) = get_json_str(line.as_str(), "Id") {
                self.container_id = Some(truncate_id(id.as_str()));
            } else if let Some(m) = get_json_str(line.as_str(), "message") {
                self.error_message = Some(m);
            }
        }
    }
}

} // verus!
