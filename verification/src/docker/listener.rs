//! Streamed byte listeners. The transport feeds each listener chunks as they
//! arrive; chunks cross line boundaries arbitrarily, so every listener
//! buffers, processes complete lines only, and carries the remainder into the
//! next chunk.

pub mod application;
pub mod benchmark_command_listener;
pub mod benchmarker;
pub mod build_container;
pub mod build_image;
pub mod build_network;
pub mod inspect_container;
pub mod simple;
pub mod verifier_listener;

use vstd::prelude::*;
use vstd::string::StringSliceAdditionalSpecFns;

use crate::text::{
    complete_lines, is_blank, spec_blank, spec_lines, spec_trim_end, split_lines, strip_cr,
    tail_piece, trim_end, utf8_str,
};

verus! {

/// Appends a chunk to a string buffer, decoding it as UTF-8; a chunk that is
/// not valid UTF-8 is dropped, as the transport's log handlers drop it.
/// Returns the chunk length, which tells the transport the chunk was taken.
pub fn accumulate(string_buffer: &mut String, data: &[u8]) -> (r: usize)
    ensures
        r == data@.len(),
        vstd::utf8::valid_utf8(data@) ==> final(string_buffer)@ == old(string_buffer)@
            + vstd::utf8::decode_utf8(data@),
        !vstd::utf8::valid_utf8(data@) ==> final(string_buffer)@ == old(string_buffer)@,
{
    match utf8_str(data) {
        Some(s) => {
            proof {
                vstd::utf8::encode_utf8_decode_utf8(s@);
            }
            string_buffer.append(s);
        },
        None => {
        },
    }
    data.len()
}

/// The lines worth logging from a burst of output: blank lines dropped, the
/// rest with trailing whitespace removed, in order.
pub open spec fn loggable(lines: Seq<Seq<char>>) -> Seq<Seq<char>>
    decreases lines.len(),
{
    if lines.len() == 0 {
        Seq::empty()
    } else {
        loggable(lines.drop_last()) + if spec_blank(lines.last()) {
            Seq::empty()
        } else {
            seq![spec_trim_end(lines.last())]
        }
    }
}

/// Splits a decoded burst of output into its loggable lines.
pub fn loggable_of(s: &str) -> (r: Vec<String>)
    ensures
        r.deep_view() == loggable(spec_lines(s@)),
{
    let lines = split_lines(s);
    let ghost lv = lines.deep_view();
    let mut r: Vec<String> = Vec::new();
    let mut i: usize = 0;
    proof {
        assert(lv.take(0) =~= Seq::<Seq<char>>::empty());
    }
    while i < lines.len()
        invariant
            lv == lines.deep_view(),
            lines@.len() == lv.len(),
            0 <= i <= lines.len(),
            r.deep_view() == loggable(lv.take(i as int)),
        decreases lines.len() - i,
    {
        proof {
            assert(lv[i as int] == lines@[i as int]@);
            assert(lv.take(i as int + 1).drop_last() =~= lv.take(i as int));
            assert(lv.take(i as int + 1).last() == lv[i as int]);
        }
        if !is_blank(lines[i].as_str()) {
            let ghost old_r = r.deep_view();
            r.push(trim_end(lines[i].as_str()));
            proof {
                assert(r.deep_view() =~= old_r.push(spec_trim_end(lv[i as int])));
                assert(old_r.push(spec_trim_end(lv[i as int])) =~= old_r + seq![spec_trim_end(
                    lv[i as int],
                )]);
            }
        } else {
            proof {
                assert(r.deep_view() + Seq::<Seq<char>>::empty() =~= r.deep_view());
            }
        }
        i = i + 1;
    }
    proof {
        assert(lv.take(lv.len() as int) =~= lv);
    }
    r
}

/// The loggable lines of a raw chunk: decoded when valid UTF-8, nothing
/// otherwise.
pub open spec fn chunk_log_lines(data: Seq<u8>) -> Seq<Seq<char>> {
    if vstd::utf8::valid_utf8(data) {
        loggable(spec_lines(vstd::utf8::decode_utf8(data)))
    } else {
        Seq::empty()
    }
}

/// Decodes a chunk and returns its loggable lines.
pub fn chunk_log_of(data: &[u8]) -> (r: Vec<String>)
    ensures
        r.deep_view() == chunk_log_lines(data@),
{
    match utf8_str(data) {
        Some(s) => {
            proof {
                vstd::utf8::encode_utf8_decode_utf8(s@);
            }
            loggable_of(s)
        },
        None => Vec::new(),
    }
}

/// The one line left at end of stream: the buffered remainder, its carriage
/// return stripped, when anything is buffered at all. Docker's create and
/// network responses are plain JSON bodies with no trailing newline, so the
/// closing line is where their ids arrive.
pub open spec fn closing_line(pending: Seq<char>) -> Seq<Seq<char>> {
    if pending.len() == 0 {
        Seq::empty()
    } else {
        seq![strip_cr(pending)]
    }
}

/// A whole stream reads as its lines: the complete lines processed chunk by
/// chunk, followed by the closing line once the stream ends, are exactly the
/// lines of the full text.
pub proof fn lemma_stream_reads_as_lines(s: Seq<char>)
    ensures
        complete_lines(s) + closing_line(tail_piece(s)) =~= spec_lines(s),
{
    if tail_piece(s).len() == 0 {
        assert(complete_lines(s) + Seq::<Seq<char>>::empty() =~= complete_lines(s));
    } else {
        assert(complete_lines(s) + seq![strip_cr(tail_piece(s))] =~= complete_lines(s).push(
            strip_cr(tail_piece(s)),
        ));
    }
}

/// The `(id, error_message)` state of a create listener after scanning
/// `lines`: a line carrying `Id` records the short id, any other line
/// carrying `message` records the error; the last of each wins.
pub open spec fn id_message_fold(
    st: (Option<Seq<char>>, Option<Seq<char>>),
    lines: Seq<Seq<char>>,
) -> (Option<Seq<char>>, Option<Seq<char>>)
    decreases lines.len(),
{
    if lines.len() == 0 {
        st
    } else {
        let prev = id_message_fold(st, lines.drop_last());
        let l = lines.last();
        if spec_blank(l) {
            prev
        } else {
            match crate::docker::jsonio::json_field_str(l, "Id"@) {
                Some(id) => (Some(short_id(id)), prev.1),
                None => match crate::docker::jsonio::json_field_str(l, "message"@) {
                    Some(m) => (prev.0, Some(m)),
                    None => prev,
                },
            }
        }
    }
}

/// The first twelve characters of a Docker id — the short form used for all
/// internal identification; an id shorter than that is kept whole.
pub open spec fn short_id(id: Seq<char>) -> Seq<char> {
    if id.len() >= 12 {
        id.take(12)
    } else {
        id
    }
}

pub fn truncate_id(id: &str) -> (r: String)
    ensures
        r@ == short_id(id@),
        id@.len() >= 12 ==> r@.len() == 12,
{
    let len = id.unicode_len();
    if len >= 12 {
        let cut = id.substring_char(0, 12);
        proof {
            assert(cut@ =~= id@.take(12));
        }
        String::from_str(cut)
    } else {
        String::from_str(id)
    }
}

/// An image digest with a `sha256:` prefix removed; a digest in another form
/// is kept whole.
pub open spec fn strip_sha256(id: Seq<char>) -> Seq<char> {
    if id.len() >= 7 && id.take(7) == "sha256:"@ {
        id.skip(7)
    } else {
        id
    }
}

pub fn strip_sha256_prefix(id: &str) -> (r: String)
    ensures
        r@ == strip_sha256(id@),
{
    let len = id.unicode_len();
    if len >= 7 {
        let head = id.substring_char(0, 7);
        proof {
            assert(head@ =~= id@.take(7));
        }
        if crate::text::str_eq(head, "sha256:") {
            let tail = id.substring_char(7, len);
            proof {
                assert(tail@ =~= id@.skip(7));
            }
            return String::from_str(tail);
        }
        String::from_str(id)
    } else {
        String::from_str(id)
    }
}

/// Appends a chunk of raw bytes to a byte buffer.
pub fn extend_bytes(buffer: &mut Vec<u8>, data: &[u8])
    ensures
        final(buffer)@ == old(buffer)@ + data@,
{
    let mut i: usize = 0;
    proof {
        assert(old(buffer)@ + data@.take(0) =~= old(buffer)@);
    }
    while i < data.len()
        invariant
            data@.len() == data.len(),
            0 <= i <= data.len(),
            buffer@ == old(buffer)@ + data@.take(i as int),
        decreases data.len() - i,
    {
        buffer.push(data[i]);
        proof {
            assert(old(buffer)@ + data@.take(i as int + 1) =~= (old(buffer)@ + data@.take(
                i as int,
            )).push(data@[i as int]));
        }
        i = i + 1;
    }
    proof {
        assert(data@.take(data@.len() as int) =~= data@);
    }
}

} // verus!
