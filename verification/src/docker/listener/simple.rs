//! The plainest listener: it watches the stream for a Docker error message
//! (`{"message": ...}`) and keeps the last one seen.

use vstd::prelude::*;

use crate::docker::jsonio::{get_json_str, json_field_str};
use crate::docker::listener::closing_line;
use crate::text::{
    complete_lines, drain_pieces, is_blank, spec_blank, strip_cr, strip_cr_exec, tail_piece,
    utf8_str,
};

verus! {

/// The error message after scanning `lines`, starting from `err`: the last
/// non-blank line carrying a `message` field wins.
pub open spec fn message_fold(err: Option<Seq<char>>, lines: Seq<Seq<char>>) -> Option<
    Seq<char>,
>
    decreases lines.len(),
{
    if lines.len() == 0 {
        err
    } else {
        let prev = message_fold(err, lines.drop_last());
        if !spec_blank(lines.last()) {
            match json_field_str(lines.last(), "message"@) {
                Some(m) => Some(m),
                None => prev,
            }
        } else {
            prev
        }
    }
}

#[derive(Clone, Debug)]
pub struct Simple {
    pub error_message: Option<String>,
    pub pending: String,
}

impl Simple {
    pub fn new() -> (r: Self)
        ensures
            r.error_message is None,
            r.pending@.len() == 0,
    {
        Simple { error_message: None, pending: String::new() }
    }

    /// One chunk: buffered, complete lines scanned for an error message, the
    /// partial line carried into the next chunk. A chunk that is not valid
    /// UTF-8 is dropped whole.
    pub fn write(&mut self, data: &[u8]) -> (r: usize)
        ensures
            r == data@.len(),
            vstd::utf8::valid_utf8(data@) ==> {
                let text = old(self).pending@ + vstd::utf8::decode_utf8(data@);
                &&& final(self).pending@ == tail_piece(text)
                &&& final(self).error_message.deep_view() == message_fold(
                    old(self).error_message.deep_view(),
                    complete_lines(text),
                )
            },
            !vstd::utf8::valid_utf8(data@) ==> *final(self) == *old(self),
    {
        match utf8_str(data) {
            Some(s) => {
                proof {
                    vstd::utf8::encode_utf8_decode_utf8(s@);
                }
                self.pending.append(s);
                let ghost text = self.pending@;
                let pair = drain_pieces(self.pending.as_str());
                let lines = pair.0;
                self.pending = pair.1;
                let ghost lv = lines.deep_view();
                let mut i: usize = 0;
                proof {
                    assert(lv.take(0) =~= Seq::<Seq<char>>::empty());
                }
                while i < lines.len()
                    invariant
                        lv == lines.deep_view(),
                        lines@.len() == lv.len(),
                        0 <= i <= lines.len(),
                        self.pending@ == tail_piece(text),
                        text == old(self).pending@ + vstd::utf8::decode_utf8(data@),
                        self.error_message.deep_view() == message_fold(
                            old(self).error_message.deep_view(),
                            lv.take(i as int),
                        ),
                    decreases lines.len() - i,
                {
                    proof {
                        assert(lv[i as int] == lines@[i as int]@);
                        assert(lv.take(i as int + 1).drop_last() =~= lv.take(i as int));
                        assert(lv.take(i as int + 1).last() == lv[i as int]);
                    }
                    if !is_blank(lines[i].as_str()) {
                        if let Some(m) = get_json_str(lines[i].as_str(), "message") {
                            self.error_message = Some(m);
                        }
                    }
                    i = i + 1;
                }
                proof {
                    assert(lv.take(lv.len() as int) =~= lv);
                }
            },
            None => {
            },
        }
        data.len()
    }
}

impl Simple {
    /// End of stream: whatever remains buffered is one final, unterminated
    /// line, scanned like any complete line; the buffer is left empty.
    pub fn finish(&mut self)
        ensures
            final(self).pending@.len() == 0,
            final(self).error_message.deep_view() == message_fold(
                old(self).error_message.deep_view(),
                closing_line(old(self).pending@),
            ),
    {
        if self.pending.as_str().unicode_len() == 0 {
            return ;
        }
        let ghost buffered = self.pending@;
        let ghost st0 = self.error_message.deep_view();
        let line = strip_cr_exec(self.pending.as_str());
        self.pending = String::new();
        proof {
            assert(closing_line(buffered) =~= seq![strip_cr(buffered)]);
            assert(seq![strip_cr(buffered)].drop_last() =~= Seq::<Seq<char>>::empty());
            assert(seq![strip_cr(buffered)].last() == strip_cr(buffered));
            assert(message_fold(st0, Seq::<Seq<char>>::empty()) == st0);
        }
        if !is_blank(line.as_str()) {
            if let Some(m) = get_json_str(line.as_str(), "message") {
                self.error_message = Some(m);
            }
        }
    }
}

} // verus!
