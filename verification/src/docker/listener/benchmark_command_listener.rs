//! Listener for benchmark-command retrieval. Run in benchmark mode, the
//! verifier prints a single JSON line holding the load-generator command
//! vectors: a primer, a warmup, and the measured benchmark commands.

use vstd::prelude::*;

use crate::docker::jsonio::{
    get_json_str_array, get_json_str_array_array, json_str_array, json_str_array_array,
};
use crate::docker::listener::closing_line;
use crate::docker::BenchmarkCommands;
use crate::text::{
    complete_lines, drain_pieces, is_blank, spec_blank, spec_trim_end, strip_cr, strip_cr_exec,
    tail_piece, trim_end, utf8_str,
};

verus! {

/// The command vectors a line carries, when it holds all three.
pub open spec fn commands_of(l: Seq<char>) -> Option<
    (Seq<Seq<char>>, Seq<Seq<char>>, Seq<Seq<Seq<char>>>),
> {
    match (
        json_str_array(l, "primer_command"@),
        json_str_array(l, "warmup_command"@),
        json_str_array_array(l, "benchmark_commands"@),
    ) {
        (Some(p), Some(w), Some(b)) => Some((p, w, b)),
        _ => None,
    }
}

/// The retrieved command vectors after scanning `lines`: the last line that
/// parses wins.
pub open spec fn commands_fold(
    st: Option<(Seq<Seq<char>>, Seq<Seq<char>>, Seq<Seq<Seq<char>>>)>,
    lines: Seq<Seq<char>>,
) -> Option<(Seq<Seq<char>>, Seq<Seq<char>>, Seq<Seq<Seq<char>>>)>
    decreases lines.len(),
{
    if lines.len() == 0 {
        st
    } else {
        let prev = commands_fold(st, lines.drop_last());
        let l = lines.last();
        if spec_blank(l) {
            prev
        } else {
            match commands_of(l) {
                Some(c) => Some(c),
                None => prev,
            }
        }
    }
}

/// The lines to log: whatever is neither blank nor a command line, trimmed.
pub open spec fn command_logs(lines: Seq<Seq<char>>) -> Seq<Seq<char>>
    decreases lines.len(),
{
    if lines.len() == 0 {
        Seq::empty()
    } else {
        let l = lines.last();
        command_logs(lines.drop_last()) + if !spec_blank(l) && commands_of(l) is None {
            seq![spec_trim_end(l)]
        } else {
            Seq::empty()
        }
    }
}

/// The command vectors as mathematical values.
pub open spec fn commands_view(c: BenchmarkCommands) -> (
    Seq<Seq<char>>,
    Seq<Seq<char>>,
    Seq<Seq<Seq<char>>>,
) {
    (c.primer_command.deep_view(), c.warmup_command.deep_view(), c.benchmark_commands.deep_view())
}

#[derive(Clone, Debug)]
pub struct BenchmarkCommandListener {
    pub benchmark_commands: Option<BenchmarkCommands>,
    pub error_message: Option<String>,
    pub pending: String,
}

impl BenchmarkCommandListener {
    pub fn new() -> (r: Self)
        ensures
            r.benchmark_commands is None,
            r.error_message is None,
            r.pending@.len() == 0,
    {
        BenchmarkCommandListener {
            benchmark_commands: None,
            error_message: None,
            pending: String::new(),
        }
    }

    /// One chunk: buffered, complete lines scanned for the command object,
    /// the partial line carried into the next chunk. Returns the log lines.
    pub fn write(&mut self, data: &[u8]) -> (r: Vec<String>)
        ensures
            vstd::utf8::valid_utf8(data@) ==> {
                let text = old(self).pending@ + vstd::utf8::decode_utf8(data@);
                let st = commands_fold(
                    match old(self).benchmark_commands {
                        Some(c) => Some(commands_view(c)),
                        None => None,
                    },
                    complete_lines(text),
                );
                &&& final(self).pending@ == tail_piece(text)
                &&& (match final(self).benchmark_commands {
                    Some(c) => Some(commands_view(c)),
                    None => None,
                }) == st
                &&& r.deep_view() == command_logs(complete_lines(text))
                &&& final(self).error_message == old(self).error_message
            },
            !vstd::utf8::valid_utf8(data@) ==> *final(self) == *old(self) && r@.len() == 0,
    {
        let mut logs: Vec<String> = Vec::new();
        match utf8_str(data) {
            Some(s) => {
                proof {
                    vstd::utf8::encode_utf8_decode_utf8(s@);
                }
                self.pending.append(s);
                let ghost text = self.pending@;
                let pair = drain_pieces(self.pending.as_str());
                let lines = pair.0;
                self.pending = pair.1;
                let ghost lv = lines.deep_view();
                let mut i: usize = 0;
                proof {
                    assert(lv.take(0) =~= Seq::<Seq<char>>::empty());
                }
                while i < lines.len()
                    invariant
                        lv == lines.deep_view(),
                        lines@.len() == lv.len(),
                        0 <= i <= lines.len(),
                        self.pending@ == tail_piece(text),
                        text == old(self).pending@ + vstd::utf8::decode_utf8(data@),
                        logs.deep_view() == command_logs(lv.take(i as int)),
                        self.error_message == old(self).error_message,
                        (match self.benchmark_commands {
                            Some(c) => Some(commands_view(c)),
                            None => None,
                        }) == commands_fold(
                            match old(self).benchmark_commands {
                                Some(c) => Some(commands_view(c)),
                                None => None,
                            },
                            lv.take(i as int),
                        ),
                    decreases lines.len() - i,
                {
                    proof {
                        assert(lv[i as int] == lines@[i as int]@);
                        assert(lv.take(i as int + 1).drop_last() =~= lv.take(i as int));
                        assert(lv.take(i as int + 1).last() == lv[i as int]);
                    }
                    let ghost old_logs = logs.deep_view();
                    if !is_blank(lines[i].as_str()) {
                        let p = get_json_str_array(lines[i].as_str(), "primer_command");
                        let w = get_json_str_array(lines[i].as_str(), "warmup_command");
                        let b = get_json_str_array_array(
                            lines[i].as_str(),
                            "benchmark_commands",
                        );
                        match (p, w, b) {
                            (Some(p), Some(w), Some(b)) => {
                                self.benchmark_commands = Some(
                                    BenchmarkCommands {
                                        primer_command: p,
                                        warmup_command: w,
                                        benchmark_commands: b,
                                    },
                                );
                            },
                            _ => {
                                logs.push(trim_end(lines[i].as_str()));
                                proof {
                                    assert(logs.deep_view() =~= old_logs + seq![spec_trim_end(
                                        lv[i as int],
                                    )]);
                                }
                            },
                        }
                    }
                    proof {
                        assert(logs.deep_view() =~= command_logs(lv.take(i as int + 1)));
                    }
                    i = i + 1;
                }
                proof {
                    assert(lv.take(lv.len() as int) =~= lv);
                }
            },
            None => {
            },
        }
        logs
    }
}

impl BenchmarkCommandListener {
    /// End of stream: whatever remains buffered is one final, unterminated
    /// line — the usual shape of the single command object — processed like
    /// any complete line; the buffer is left empty. Returns any log line it
    /// still carried.
    pub fn finish(&mut self) -> (r: Vec<String>)
        ensures
            final(self).pending@.len() == 0,
            (match final(self).benchmark_commands {
                Some(c) => Some(commands_view(c)),
                None => None,
            }) == commands_fold(
                match old(self).benchmark_commands {
                    Some(c) => Some(commands_view(c)),
                    None => None,
                },
                closing_line(old(self).pending@),
            ),
            r.deep_view() == command_logs(closing_line(old(self).pending@)),
            final(self).error_message == old(self).error_message,
    {
        let mut logs: Vec<String> = Vec::new();
        if self.pending.as_str().unicode_len() == 0 {
            proof {
                assert(logs.deep_view() =~= command_logs(closing_line(self.pending@)));
            }
            return logs;
        }
        let ghost buffered = self.pending@;
        let ghost st0 = if self.benchmark_commands is Some {
            Some(commands_view(self.benchmark_commands->Some_0))
        } else {
            None
        };
        let line = strip_cr_exec(self.pending.as_str());
        self.pending = String::new();
        proof {
            assert(closing_line(buffered) =~= seq![strip_cr(buffered)]);
            assert(seq![strip_cr(buffered)].drop_last() =~= Seq::<Seq<char>>::empty());
            assert(seq![strip_cr(buffered)].last() == strip_cr(buffered));
            assert(commands_fold(st0, Seq::<Seq<char>>::empty()) == st0);
            assert(command_logs(Seq::<Seq<char>>::empty()) =~= Seq::<Seq<char>>::empty());
        }
        if !is_blank(line.as_str()) {
            let p = get_json_str_array(line.as_str(), "primer_command");
            let w = get_json_str_array(line.as_str(), "warmup_command");
            let b = get_json_str_array_array(line.as_str(), "benchmark_commands");
            match (p, w, b) {
                (Some(p), Some(w), Some(b)) => {
                    self.benchmark_commands = Some(
                        BenchmarkCommands {
                            primer_command: p,
                            warmup_command: w,
                            benchmark_commands: b,
                        },
                    );
                },
                _ => {
                    logs.push(trim_end(line.as_str()));
                    proof {
                        assert(logs.deep_view() =~= Seq::<Seq<char>>::empty() + seq![
                            spec_trim_end(strip_cr(buffered)),
                        ]);
                    }
                },
            }
        }
        proof {
            assert(logs.deep_view() =~= command_logs(closing_line(buffered)));
        }
        logs
    }
}

} // verus!
