//! The executable encoder: builds the wire text of a message and is proved
//! to produce exactly the character sequence the wire grammar prescribes.

use vstd::prelude::*;

use crate::model::BuildStage;
use crate::model::CargoDiagnostic;
use crate::model::CargoDiagnosticSpan;
use crate::model::CargoLevel;
use crate::model::JobId;
use crate::model::SocketError;
use crate::model::SocketMessage;
use crate::model::SpanModel;
use crate::wire::enc_bool;
use crate::wire::enc_dec;
use crate::wire::enc_diag;
use crate::wire::enc_hex_byte;
use crate::wire::enc_hex_run;
use crate::wire::enc_level;
use crate::wire::enc_msg;
use crate::wire::enc_span;
use crate::wire::enc_span_tail;
use crate::wire::enc_spans;
use crate::wire::enc_str;
use crate::wire::enc_stage;
use crate::wire::enc_uuid;
use crate::wire::esc;
use crate::wire::esc_char;
use crate::wire::hex_char;
use crate::wire::lemma_esc_snoc;
use crate::wire::lemma_hex_run_snoc;
use crate::wire::lemma_span_tail_snoc;

verus! {

/// The lower-case hexadecimal digit character of a value below sixteen.
fn hex_char_exec(n: u8) -> (c: char)
    requires
        n < 16,
    ensures
        c == hex_char(n as int),
{
    match n {
        0 => '0',
        1 => '1',
        2 => '2',
        3 => '3',
        4 => '4',
        5 => '5',
        6 => '6',
        7 => '7',
        8 => '8',
        9 => '9',
        10 => 'a',
        11 => 'b',
        12 => 'c',
        13 => 'd',
        14 => 'e',
        _ => 'f',
    }
}

/// Appends the decimal digits of `n`, most significant first.
fn push_dec(out: &mut String, n: usize)
    ensures
        final(out)@ == old(out)@ + enc_dec(n as int),
    decreases n,
{
    if n < 10 {
        out.push(hex_char_exec(n as u8));
        proof {
            assert(out@ =~= old(out)@ + enc_dec(n as int));
        }
    } else {
        push_dec(out, n / 10);
        out.push(hex_char_exec((n % 10) as u8));
        proof {
            assert(out@ =~= old(out)@ + enc_dec(n as int));
        }
    }
}

/// Appends the two hexadecimal digits of one byte.
fn push_hex_byte(out: &mut String, b: u8)
    ensures
        final(out)@ == old(out)@ + enc_hex_byte(b),
{
    out.push(hex_char_exec(b / 16));
    out.push(hex_char_exec(b % 16));
    proof {
        assert(out@ =~= old(out)@ + enc_hex_byte(b));
    }
}

/// Appends the hexadecimal digits of the bytes in `bytes[from..to]`.
fn push_hex_range(out: &mut String, bytes: &Vec<u8>, from: usize, to: usize)
    requires
        from <= to <= bytes@.len(),
    ensures
        final(out)@ == old(out)@ + enc_hex_run(bytes@.subrange(from as int, to as int)),
{
    let mut k: usize = from;
    proof {
        assert(bytes@.subrange(from as int, from as int) =~= Seq::<u8>::empty());
    }
    while k < to
        invariant
            from <= k <= to <= bytes@.len(),
            out@ == old(out)@ + enc_hex_run(bytes@.subrange(from as int, k as int)),
        decreases to - k,
    {
        push_hex_byte(out, bytes[k]);
        proof {
            assert(bytes@.subrange(from as int, k + 1 as int) =~= bytes@.subrange(
                from as int,
                k as int,
            ).push(bytes@[k as int]));
            lemma_hex_run_snoc(bytes@.subrange(from as int, k as int), bytes@[k as int]);
            assert(out@ =~= old(out)@ + enc_hex_run(bytes@.subrange(from as int, k + 1 as int)));
        }
        k += 1;
    }
}

/// Appends the hyphenated hexadecimal form of a job id.
fn push_uuid(out: &mut String, id: &JobId)
    requires
        id.wf(),
    ensures
        final(out)@ == old(out)@ + enc_uuid(id@),
{
    push_hex_range(out, &id.bytes, 0, 4);
    out.append("-");
    push_hex_range(out, &id.bytes, 4, 6);
    out.append("-");
    push_hex_range(out, &id.bytes, 6, 8);
    out.append("-");
    push_hex_range(out, &id.bytes, 8, 10);
    out.append("-");
    push_hex_range(out, &id.bytes, 10, 16);
    proof {
        assert(out@ =~= old(out)@ + enc_uuid(id@));
    }
}

/// Appends the escape of one string character.
fn push_esc_char(out: &mut String, c: char)
    ensures
        final(out)@ == old(out)@ + esc_char(c),
{
    let u = c as u32;
    if c == '"' {
        out.push('\\');
        out.push('"');
    } else if c == '\\' {
        out.push('\\');
        out.push('\\');
    } else if c == '\n' {
        out.push('\\');
        out.push('n');
    } else if c == '\r' {
        out.push('\\');
        out.push('r');
    } else if c == '\t' {
        out.push('\\');
        out.push('t');
    } else if u < 32 {
        out.push('\\');
        out.push('u');
        out.push('0');
        out.push('0');
        out.push(hex_char_exec((u / 16) as u8));
        out.push(hex_char_exec((u % 16) as u8));
    } else {
        out.push(c);
    }
    proof {
        assert(out@ =~= old(out)@ + esc_char(c));
    }
}

/// Appends a string value: its escaped characters between double quotes.
fn push_str_enc(out: &mut String, s: &str)
    ensures
        final(out)@ == old(out)@ + enc_str(s@),
{
    out.push('"');
    let n = s.unicode_len();
    let mut k: usize = 0;
    proof {
        assert(s@.subrange(0, 0) =~= Seq::<char>::empty());
        assert(out@ =~= old(out)@ + seq!['"'] + esc(s@.subrange(0, 0)));
    }
    while k < n
        invariant
            n == s@.len(),
            k <= n,
            out@ == old(out)@ + seq!['"'] + esc(s@.subrange(0, k as int)),
        decreases n - k,
    {
        let c = s.get_char(k);
        push_esc_char(out, c);
        proof {
            assert(s@.subrange(0, k + 1 as int) =~= s@.subrange(0, k as int).push(s@[k as int]));
            lemma_esc_snoc(s@.subrange(0, k as int), s@[k as int]);
            assert(out@ =~= old(out)@ + seq!['"'] + esc(s@.subrange(0, k + 1 as int)));
        }
        k += 1;
    }
    out.push('"');
    proof {
        assert(s@.subrange(0, n as int) =~= s@);
        assert(out@ =~= old(out)@ + enc_str(s@));
    }
}

/// Appends a boolean value.
fn push_bool(out: &mut String, b: bool)
    ensures
        final(out)@ == old(out)@ + enc_bool(b),
{
    if b {
        out.append("true");
    } else {
        out.append("false");
    }
}

/// Appends a diagnostic severity.
fn push_level(out: &mut String, l: &CargoLevel)
    ensures
        final(out)@ == old(out)@ + enc_level(*l),
{
    match l {
        CargoLevel::Error => out.append("\"Error\""),
        CargoLevel::Warning => out.append("\"Warning\""),
    }
}

/// Appends one diagnostic span.
fn push_span(out: &mut String, sp: &CargoDiagnosticSpan)
    ensures
        final(out)@ == old(out)@ + enc_span(sp@),
{
    out.append("{\"is_primary\":");
    push_bool(out, sp.is_primary);
    out.append(",\"line_start\":");
    push_dec(out, sp.line_start);
    out.append(",\"line_end\":");
    push_dec(out, sp.line_end);
    out.append(",\"column_start\":");
    push_dec(out, sp.column_start);
    out.append(",\"column_end\":");
    push_dec(out, sp.column_end);
    out.append(",\"label\":");
    match &sp.label {
        Some(l) => push_str_enc(out, l.as_str()),
        None => out.append("null"),
    }
    out.append("}");
    proof {
        assert(out@ =~= old(out)@ + enc_span(sp@));
    }
}

/// Appends a span sequence between square brackets.
fn push_spans(out: &mut String, sps: &Vec<CargoDiagnosticSpan>)
    ensures
        final(out)@ == old(out)@ + enc_spans(sps@.map_values(|sp: CargoDiagnosticSpan| sp@)),
{
    let ghost m = sps@.map_values(|sp: CargoDiagnosticSpan| sp@);
    if sps.len() == 0 {
        out.append("[]");
    } else {
        out.append("[");
        push_span(out, &sps[0]);
        let mut k: usize = 1;
        proof {
            assert(m.subrange(1, 1) =~= Seq::<SpanModel>::empty());
        }
        while k < sps.len()
            invariant
                1 <= k <= sps@.len(),
                m == sps@.map_values(|sp: CargoDiagnosticSpan| sp@),
                out@ == old(out)@ + "["@ + enc_span(m[0]) + enc_span_tail(m.subrange(1, k as int)),
            decreases sps@.len() - k,
        {
            out.append(",");
            push_span(out, &sps[k]);
            proof {
                assert(m.subrange(1, k + 1 as int) =~= m.subrange(1, k as int).push(m[k as int]));
                lemma_span_tail_snoc(m.subrange(1, k as int), m[k as int]);
                assert(out@ =~= old(out)@ + "["@ + enc_span(m[0]) + enc_span_tail(
                    m.subrange(1, k + 1 as int),
                ));
            }
            k += 1;
        }
        out.append("]");
        proof {
            assert(m.subrange(1, m.len() as int) =~= m.drop_first());
            assert(out@ =~= old(out)@ + enc_spans(m));
        }
    }
}

/// Appends a whole diagnostic.
fn push_diag(out: &mut String, d: &CargoDiagnostic)
    ensures
        final(out)@ == old(out)@ + enc_diag(d@),
{
    out.append("{\"target_crate\":");
    push_str_enc(out, d.target_crate.as_str());
    out.append(",\"level\":");
    push_level(out, &d.level);
    out.append(",\"message\":");
    push_str_enc(out, d.message.as_str());
    out.append(",\"spans\":");
    push_spans(out, &d.spans);
    out.append("}");
    proof {
        assert(out@ =~= old(out)@ + enc_diag(d@));
    }
}

/// Appends a build stage.
fn push_stage(out: &mut String, st: &BuildStage)
    ensures
        final(out)@ == old(out)@ + enc_stage(st@),
{
    match st {
        BuildStage::Compiling { crates_compiled, total_crates, current_crate } => {
            out.append("{\"Compiling\":{\"crates_compiled\":");
            push_dec(out, *crates_compiled);
            out.append(",\"total_crates\":");
            push_dec(out, *total_crates);
            out.append(",\"current_crate\":");
            push_str_enc(out, current_crate.as_str());
            out.append("}}");
            proof {
                assert(out@ =~= old(out)@ + enc_stage(st@));
            }
        },
        BuildStage::RunningBindgen => out.append("\"RunningBindgen\""),
        BuildStage::Other => out.append("\"Other\""),
    }
}

impl SocketMessage {
    /// Encodes the message as one frame of wire text.
    ///
    /// Total for every well-formed message, and proved to return exactly
    /// the text the wire grammar prescribes; the `Result` shape is kept so
    /// callers handle one signature across codec revisions.
    pub fn as_json_string(&self) -> (r: Result<String, SocketError>)
        requires
            self.wf(),
        ensures
            r matches Ok(s) && s@ == enc_msg(self@),
    {
        let mut out = String::new();
        match self {
            SocketMessage::BuildRequest(s) => {
                out.append("{\"BuildRequest\":");
                push_str_enc(&mut out, s.as_str());
                out.append("}");
            },
            SocketMessage::BuildFinished(res) => {
                out.append("{\"BuildFinished\":");
                match res {
                    Ok(id) => {
                        out.append("{\"Ok\":\"");
                        push_uuid(&mut out, id);
                        out.append("\"}");
                    },
                    Err(m) => {
                        out.append("{\"Err\":");
                        push_str_enc(&mut out, m.as_str());
                        out.append("}");
                    },
                }
                out.append("}");
            },
            SocketMessage::BuildStage(st) => {
                out.append("{\"BuildStage\":");
                push_stage(&mut out, st);
                out.append("}");
            },
            SocketMessage::BuildDiagnostic(d) => {
                out.append("{\"BuildDiagnostic\":");
                push_diag(&mut out, d);
                out.append("}");
            },
            SocketMessage::QueuePosition(n) => {
                out.append("{\"QueuePosition\":");
                push_dec(&mut out, *n);
                out.append("}");
            },
            SocketMessage::AlreadyConnected => {
                out.append("\"AlreadyConnected\"");
            },
        }
        proof {
            assert(out@ =~= enc_msg(self@));
        }
        Ok(out)
    }
}

} // verus!
