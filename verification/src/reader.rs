//! The wire grammar, decoding direction: a deterministic spec-level parser.
//! `sp_msg_full` is the meaning of decoding: it yields the message model a
//! text denotes, or nothing when the text is not a well-formed frame. Every
//! parsing function takes the whole text and a position and returns the
//! parsed value with the position just past it.

use vstd::prelude::*;

use crate::model::CargoLevel;
use crate::model::DiagModel;
use crate::model::MsgModel;
use crate::model::SpanModel;
use crate::model::StageModel;

verus! {

/// A decimal digit character.
pub open spec fn is_digit(c: char) -> bool {
    48 <= c as u32 <= 57
}

/// The value of a decimal digit character.
pub open spec fn dig_val(c: char) -> int {
    c as u32 - 48
}

/// A lower-case hexadecimal digit character.
pub open spec fn is_hex_lc(c: char) -> bool {
    is_digit(c) || 97 <= c as u32 <= 102
}

/// The value of a lower-case hexadecimal digit character.
pub open spec fn hex_val(c: char) -> int {
    if is_digit(c) {
        c as u32 - 48
    } else {
        c as u32 - 87
    }
}

/// Matches the exact literal `lit` at position `i`.
pub open spec fn sp_lit(s: Seq<char>, i: int, lit: Seq<char>) -> Option<int> {
    if 0 <= i && i + lit.len() <= s.len() && s.subrange(i, i + lit.len()) == lit {
        Some(i + lit.len())
    } else {
        None
    }
}

/// The end of the run of decimal digits that starts at `i`.
pub open spec fn digit_run_end(s: Seq<char>, i: int) -> int
    recommends
        0 <= i <= s.len(),
    decreases s.len() - i when 0 <= i <= s.len()
{
    if i < s.len() && is_digit(s[i]) {
        digit_run_end(s, i + 1)
    } else {
        i
    }
}

/// The numeric value of a digit sequence, most significant first.
pub open spec fn dec_val(ds: Seq<char>) -> int
    decreases ds.len(),
{
    if ds.len() == 0 {
        0
    } else {
        dec_val(ds.drop_last()) * 10 + dig_val(ds.last())
    }
}

/// A decimal number: a non-empty digit run and its (unbounded) value. A
/// leading zero stands only for the number zero itself, as in JSON.
pub open spec fn sp_num(s: Seq<char>, i: int) -> Option<(int, int)> {
    if 0 <= i && i < s.len() && is_digit(s[i]) {
        if s[i] == '0' {
            Some((0, i + 1))
        } else {
            let e = digit_run_end(s, i);
            Some((dec_val(s.subrange(i, e)), e))
        }
    } else {
        None
    }
}

/// A decimal number that fits the machine's word size; a larger one is a
/// malformed frame.
pub open spec fn sp_usize(s: Seq<char>, i: int) -> Option<(int, int)> {
    match sp_num(s, i) {
        Some((v, e)) => if v <= usize::MAX as int {
            Some((v, e))
        } else {
            None
        },
        None => None,
    }
}

/// A boolean value.
pub open spec fn sp_bool(s: Seq<char>, i: int) -> Option<(bool, int)> {
    match sp_lit(s, i, "true"@) {
        Some(j) => Some((true, j)),
        None => match sp_lit(s, i, "false"@) {
            Some(j) => Some((false, j)),
            None => None,
        },
    }
}

/// One string escape, starting just after the backslash.
pub open spec fn sp_escape(s: Seq<char>, i: int) -> Option<(char, int)> {
    if !(0 <= i < s.len()) {
        None
    } else if s[i] == '"' {
        Some(('"', i + 1))
    } else if s[i] == '\\' {
        Some(('\\', i + 1))
    } else if s[i] == 'n' {
        Some(('\n', i + 1))
    } else if s[i] == 'r' {
        Some(('\r', i + 1))
    } else if s[i] == 't' {
        Some(('\t', i + 1))
    } else if s[i] == 'u' {
        if i + 5 <= s.len() && s[i + 1] == '0' && s[i + 2] == '0' && is_hex_lc(s[i + 3])
            && is_hex_lc(s[i + 4]) {
            Some(((hex_val(s[i + 3]) * 16 + hex_val(s[i + 4])) as u8 as char, i + 5))
        } else {
            None
        }
    } else {
        None
    }
}

/// The characters of a string value after its opening quote, up to and
/// including the closing quote. A raw control character or an unknown
/// escape is a malformed frame.
pub open spec fn sp_str_body(s: Seq<char>, i: int) -> Option<(Seq<char>, int)>
    decreases s.len() - i when 0 <= i
{
    if !(0 <= i < s.len()) {
        None
    } else if s[i] == '"' {
        Some((Seq::empty(), i + 1))
    } else if s[i] == '\\' {
        match sp_escape(s, i + 1) {
            Some((c, j)) => if i < j <= s.len() {
                match sp_str_body(s, j) {
                    Some((t, e)) => Some((seq![c] + t, e)),
                    None => None,
                }
            } else {
                None
            },
            None => None,
        }
    } else if s[i] as u32 >= 32 {
        match sp_str_body(s, i + 1) {
            Some((t, e)) => Some((seq![s[i]] + t, e)),
            None => None,
        }
    } else {
        None
    }
}

/// A string value: escaped characters between double quotes.
pub open spec fn sp_str(s: Seq<char>, i: int) -> Option<(Seq<char>, int)> {
    if 0 <= i < s.len() && s[i] == '"' {
        sp_str_body(s, i + 1)
    } else {
        None
    }
}

/// An optional span label: `null` or a string.
pub open spec fn sp_label(s: Seq<char>, i: int) -> Option<(Option<Seq<char>>, int)> {
    match sp_lit(s, i, "null"@) {
        Some(j) => Some((None, j)),
        None => match sp_str(s, i) {
            Some((t, e)) => Some((Some(t), e)),
            None => None,
        },
    }
}

/// One byte from two lower-case hexadecimal digits.
pub open spec fn sp_hex_byte(s: Seq<char>, i: int) -> Option<(u8, int)> {
    if 0 <= i && i + 2 <= s.len() && is_hex_lc(s[i]) && is_hex_lc(s[i + 1]) {
        Some(((hex_val(s[i]) * 16 + hex_val(s[i + 1])) as u8, i + 2))
    } else {
        None
    }
}

/// Exactly `k` bytes of hexadecimal digits.
pub open spec fn sp_hex_run(s: Seq<char>, i: int, k: nat) -> Option<(Seq<u8>, int)>
    decreases k,
{
    if k == 0 {
        Some((Seq::empty(), i))
    } else {
        match sp_hex_byte(s, i) {
            Some((b, j)) => match sp_hex_run(s, j, (k - 1) as nat) {
                Some((bs, e)) => Some((seq![b] + bs, e)),
                None => None,
            },
            None => None,
        }
    }
}

/// A successful hexadecimal run holds exactly the requested number of
/// bytes.
pub proof fn lemma_sp_hex_run_len(s: Seq<char>, i: int, k: nat)
    ensures
        sp_hex_run(s, i, k) matches Some(p) ==> p.0.len() == k,
    decreases k,
{
    if k > 0 {
        if let Some((b, j)) = sp_hex_byte(s, i) {
            lemma_sp_hex_run_len(s, j, (k - 1) as nat);
        }
    }
}

/// A hyphenated sixteen-byte job id: 8-4-4-4-12 lower-case hex digits.
pub open spec fn sp_uuid(s: Seq<char>, i: int) -> Option<(Seq<u8>, int)> {
    match sp_hex_run(s, i, 4) {
        Some((b0, j0)) => match sp_lit(s, j0, "-"@) {
            Some(j1) => match sp_hex_run(s, j1, 2) {
                Some((b1, j2)) => match sp_lit(s, j2, "-"@) {
                    Some(j3) => match sp_hex_run(s, j3, 2) {
                        Some((b2, j4)) => match sp_lit(s, j4, "-"@) {
                            Some(j5) => match sp_hex_run(s, j5, 2) {
                                Some((b3, j6)) => match sp_lit(s, j6, "-"@) {
                                    Some(j7) => match sp_hex_run(s, j7, 6) {
                                        Some((b4, e)) => Some((b0 + b1 + b2 + b3 + b4, e)),
                                        None => None,
                                    },
                                    None => None,
                                },
                                None => None,
                            },
                            None => None,
                        },
                        None => None,
                    },
                    None => None,
                },
                None => None,
            },
            None => None,
        },
        None => None,
    }
}

/// A diagnostic severity tag.
pub open spec fn sp_level(s: Seq<char>, i: int) -> Option<(CargoLevel, int)> {
    match sp_lit(s, i, "\"Error\""@) {
        Some(j) => Some((CargoLevel::Error, j)),
        None => match sp_lit(s, i, "\"Warning\""@) {
            Some(j) => Some((CargoLevel::Warning, j)),
            None => None,
        },
    }
}

/// One diagnostic span object, fields in declaration order.
pub open spec fn sp_span(s: Seq<char>, i: int) -> Option<(SpanModel, int)> {
    match sp_lit(s, i, "{\"is_primary\":"@) {
        Some(j0) => match sp_bool(s, j0) {
            Some((p, j1)) => match sp_lit(s, j1, ",\"line_start\":"@) {
                Some(j2) => match sp_usize(s, j2) {
                    Some((ls, j3)) => match sp_lit(s, j3, ",\"line_end\":"@) {
                        Some(j4) => match sp_usize(s, j4) {
                            Some((le, j5)) => match sp_lit(s, j5, ",\"column_start\":"@) {
                                Some(j6) => match sp_usize(s, j6) {
                                    Some((cs, j7)) => match sp_lit(s, j7, ",\"column_end\":"@) {
                                        Some(j8) => match sp_usize(s, j8) {
                                            Some((ce, j9)) => match sp_lit(s, j9, ",\"label\":"@) {
                                                Some(j10) => match sp_label(s, j10) {
                                                    Some((l, j11)) => match sp_lit(s, j11, "}"@) {
                                                        Some(e) => Some(
                                                            (
                                                                SpanModel {
                                                                    is_primary: p,
                                                                    line_start: ls,
                                                                    line_end: le,
                                                                    column_start: cs,
                                                                    column_end: ce,
                                                                    label: l,
                                                                },
                                                                e,
                                                            ),
                                                        ),
                                                        None => None,
                                                    },
                                                    None => None,
                                                },
                                                None => None,
                                            },
                                            None => None,
                                        },
                                        None => None,
                                    },
                                    None => None,
                                },
                                None => None,
                            },
                            None => None,
                        },
                        None => None,
                    },
                    None => None,
                },
                None => None,
            },
            None => None,
        },
        None => None,
    }
}

/// The spans after the first: a comma and a span, repeatedly, up to the
/// closing bracket.
pub open spec fn sp_span_tail(s: Seq<char>, i: int) -> Option<(Seq<SpanModel>, int)>
    decreases s.len() - i when 0 <= i
{
    if !(0 <= i < s.len()) {
        None
    } else if s[i] == ']' {
        Some((Seq::empty(), i + 1))
    } else if s[i] == ',' {
        match sp_span(s, i + 1) {
            Some((sp, j)) => if i < j <= s.len() {
                match sp_span_tail(s, j) {
                    Some((rest, e)) => Some((seq![sp] + rest, e)),
                    None => None,
                }
            } else {
                None
            },
            None => None,
        }
    } else {
        None
    }
}

/// A span sequence between square brackets.
pub open spec fn sp_spans(s: Seq<char>, i: int) -> Option<(Seq<SpanModel>, int)> {
    if 0 <= i < s.len() && s[i] == '[' {
        if i + 1 < s.len() && s[i + 1] == ']' {
            Some((Seq::empty(), i + 2))
        } else {
            match sp_span(s, i + 1) {
                Some((sp, j)) => match sp_span_tail(s, j) {
                    Some((rest, e)) => Some((seq![sp] + rest, e)),
                    None => None,
                },
                None => None,
            }
        }
    } else {
        None
    }
}

/// A whole diagnostic object, fields in declaration order.
pub open spec fn sp_diag(s: Seq<char>, i: int) -> Option<(DiagModel, int)> {
    match sp_lit(s, i, "{\"target_crate\":"@) {
        Some(j0) => match sp_str(s, j0) {
            Some((tc, j1)) => match sp_lit(s, j1, ",\"level\":"@) {
                Some(j2) => match sp_level(s, j2) {
                    Some((lv, j3)) => match sp_lit(s, j3, ",\"message\":"@) {
                        Some(j4) => match sp_str(s, j4) {
                            Some((msg, j5)) => match sp_lit(s, j5, ",\"spans\":"@) {
                                Some(j6) => match sp_spans(s, j6) {
                                    Some((sps, j7)) => match sp_lit(s, j7, "}"@) {
                                        Some(e) => Some(
                                            (
                                                DiagModel {
                                                    target_crate: tc,
                                                    level: lv,
                                                    message: msg,
                                                    spans: sps,
                                                },
                                                e,
                                            ),
                                        ),
                                        None => None,
                                    },
                                    None => None,
                                },
                                None => None,
                            },
                            None => None,
                        },
                        None => None,
                    },
                    None => None,
                },
                None => None,
            },
            None => None,
        },
        None => None,
    }
}

/// A build stage: a bare tag for the unit stages, a tagged object for
/// `Compiling`.
pub open spec fn sp_stage(s: Seq<char>, i: int) -> Option<(StageModel, int)> {
    match sp_lit(s, i, "\"RunningBindgen\""@) {
        Some(j) => Some((StageModel::RunningBindgen, j)),
        None => match sp_lit(s, i, "\"Other\""@) {
            Some(j) => Some((StageModel::Other, j)),
            None => match sp_lit(s, i, "{\"Compiling\":{\"crates_compiled\":"@) {
                Some(j0) => match sp_usize(s, j0) {
                    Some((cc, j1)) => match sp_lit(s, j1, ",\"total_crates\":"@) {
                        Some(j2) => match sp_usize(s, j2) {
                            Some((tc, j3)) => match sp_lit(s, j3, ",\"current_crate\":"@) {
                                Some(j4) => match sp_str(s, j4) {
                                    Some((name, j5)) => match sp_lit(s, j5, "}}"@) {
                                        Some(e) => Some(
                                            (
                                                StageModel::Compiling {
                                                    crates_compiled: cc,
                                                    total_crates: tc,
                                                    current_crate: name,
                                                },
                                                e,
                                            ),
                                        ),
                                        None => None,
                                    },
                                    None => None,
                                },
                                None => None,
                            },
                            None => None,
                        },
                        None => None,
                    },
                    None => None,
                },
                None => None,
            },
        },
    }
}

/// The two-case build result: a job id under `Ok`, a reason under `Err`.
pub open spec fn sp_result(s: Seq<char>, i: int) -> Option<(Result<Seq<u8>, Seq<char>>, int)> {
    match sp_lit(s, i, "{\"Ok\":\""@) {
        Some(j0) => match sp_uuid(s, j0) {
            Some((id, j1)) => match sp_lit(s, j1, "\"}"@) {
                Some(e) => Some((Ok(id), e)),
                None => None,
            },
            None => None,
        },
        None => match sp_lit(s, i, "{\"Err\":"@) {
            Some(j0) => match sp_str(s, j0) {
                Some((m, j1)) => match sp_lit(s, j1, "}"@) {
                    Some(e) => Some((Err(m), e)),
                    None => None,
                },
                None => None,
            },
            None => None,
        },
    }
}

/// One whole message frame starting at `i`: the externally tagged union.
pub open spec fn sp_msg(s: Seq<char>, i: int) -> Option<(MsgModel, int)> {
    match sp_lit(s, i, "{\"BuildRequest\":"@) {
        Some(j0) => match sp_str(s, j0) {
            Some((t, j1)) => match sp_lit(s, j1, "}"@) {
                Some(e) => Some((MsgModel::BuildRequest(t), e)),
                None => None,
            },
            None => None,
        },
        None => match sp_lit(s, i, "{\"BuildFinished\":"@) {
            Some(j0) => match sp_result(s, j0) {
                Some((r, j1)) => match sp_lit(s, j1, "}"@) {
                    Some(e) => Some((MsgModel::BuildFinished(r), e)),
                    None => None,
                },
                None => None,
            },
            None => match sp_lit(s, i, "{\"BuildStage\":"@) {
                Some(j0) => match sp_stage(s, j0) {
                    Some((st, j1)) => match sp_lit(s, j1, "}"@) {
                        Some(e) => Some((MsgModel::BuildStage(st), e)),
                        None => None,
                    },
                    None => None,
                },
                None => match sp_lit(s, i, "{\"BuildDiagnostic\":"@) {
                    Some(j0) => match sp_diag(s, j0) {
                        Some((d, j1)) => match sp_lit(s, j1, "}"@) {
                            Some(e) => Some((MsgModel::BuildDiagnostic(d), e)),
                            None => None,
                        },
                        None => None,
                    },
                    None => match sp_lit(s, i, "{\"QueuePosition\":"@) {
                        Some(j0) => match sp_usize(s, j0) {
                            Some((n, j1)) => match sp_lit(s, j1, "}"@) {
                                Some(e) => Some((MsgModel::QueuePosition(n), e)),
                                None => None,
                            },
                            None => None,
                        },
                        None => match sp_lit(s, i, "\"AlreadyConnected\""@) {
                            Some(e) => Some((MsgModel::AlreadyConnected, e)),
                            None => None,
                        },
                    },
                },
            },
        },
    }
}

/// The meaning of decoding one frame of wire text: the message model it
/// denotes, or nothing when the text is not exactly one well-formed frame.
pub open spec fn sp_msg_full(s: Seq<char>) -> Option<MsgModel> {
    match sp_msg(s, 0) {
        Some((m, e)) => if e == s.len() {
            Some(m)
        } else {
            None
        },
        None => None,
    }
}

} // verus!
