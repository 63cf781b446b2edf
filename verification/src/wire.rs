//! The wire grammar, encoding direction: spec functions giving the exact
//! textual form of every message. The format is a self-describing JSON
//! encoding: an externally tagged union whose field names and variant tags
//! are the stable identifiers both endpoints agree on.

use vstd::prelude::*;

use crate::model::CargoLevel;
use crate::model::DiagModel;
use crate::model::MsgModel;
use crate::model::SpanModel;
use crate::model::StageModel;

verus! {

/// The character for one hexadecimal digit, lower case.
pub open spec fn hex_char(n: int) -> char
    recommends
        0 <= n < 16,
{
    if n == 0 { '0' }
    else if n == 1 { '1' }
    else if n == 2 { '2' }
    else if n == 3 { '3' }
    else if n == 4 { '4' }
    else if n == 5 { '5' }
    else if n == 6 { '6' }
    else if n == 7 { '7' }
    else if n == 8 { '8' }
    else if n == 9 { '9' }
    else if n == 10 { 'a' }
    else if n == 11 { 'b' }
    else if n == 12 { 'c' }
    else if n == 13 { 'd' }
    else if n == 14 { 'e' }
    else { 'f' }
}

/// Decimal digits of a non-negative integer, most significant first, with
/// no leading zeros (a lone zero for zero itself).
pub open spec fn enc_dec(n: int) -> Seq<char>
    recommends
        n >= 0,
    decreases n,
{
    if n < 10 {
        seq![hex_char(n)]
    } else {
        enc_dec(n / 10) + seq![hex_char(n % 10)]
    }
}

/// Two lower-case hexadecimal digits of one byte.
pub open spec fn enc_hex_byte(b: u8) -> Seq<char> {
    seq![hex_char(b as int / 16), hex_char(b as int % 16)]
}

/// The hexadecimal digits of a run of bytes, in order.
pub open spec fn enc_hex_run(bs: Seq<u8>) -> Seq<char>
    decreases bs.len(),
{
    if bs.len() == 0 {
        Seq::empty()
    } else {
        enc_hex_byte(bs[0]) + enc_hex_run(bs.drop_first())
    }
}

/// The hyphenated lower-case hexadecimal form of a sixteen-byte job id:
/// 8-4-4-4-12 digits.
pub open spec fn enc_uuid(bs: Seq<u8>) -> Seq<char>
    recommends
        bs.len() == 16,
{
    enc_hex_run(bs.subrange(0, 4)) + "-"@ + enc_hex_run(bs.subrange(4, 6)) + "-"@ + enc_hex_run(
        bs.subrange(6, 8),
    ) + "-"@ + enc_hex_run(bs.subrange(8, 10)) + "-"@ + enc_hex_run(bs.subrange(10, 16))
}

/// The escape of one string character: quote, backslash, and the named
/// control characters get two-character escapes; any other control
/// character a `\u00` four-digit escape; everything else stands as itself.
pub open spec fn esc_char(c: char) -> Seq<char> {
    if c == '"' { seq!['\\', '"'] }
    else if c == '\\' { seq!['\\', '\\'] }
    else if c == '\n' { seq!['\\', 'n'] }
    else if c == '\r' { seq!['\\', 'r'] }
    else if c == '\t' { seq!['\\', 't'] }
    else if (c as u32) < 32 {
        seq!['\\', 'u', '0', '0', hex_char(c as u32 as int / 16), hex_char(c as u32 as int % 16)]
    } else {
        seq![c]
    }
}

/// A whole character sequence escaped.
pub open spec fn esc(s: Seq<char>) -> Seq<char>
    decreases s.len(),
{
    if s.len() == 0 {
        Seq::empty()
    } else {
        esc_char(s[0]) + esc(s.drop_first())
    }
}

/// A string value: the escaped characters between double quotes.
pub open spec fn enc_str(s: Seq<char>) -> Seq<char> {
    seq!['"'] + esc(s) + seq!['"']
}

/// A boolean value.
pub open spec fn enc_bool(b: bool) -> Seq<char> {
    if b { "true"@ } else { "false"@ }
}

/// An optional span label: a string when present, `null` when absent.
pub open spec fn enc_label(l: Option<Seq<char>>) -> Seq<char> {
    match l {
        Some(s) => enc_str(s),
        None => "null"@,
    }
}

/// A diagnostic severity.
pub open spec fn enc_level(l: CargoLevel) -> Seq<char> {
    match l {
        CargoLevel::Error => "\"Error\""@,
        CargoLevel::Warning => "\"Warning\""@,
    }
}

/// One diagnostic span, fields in declaration order.
pub open spec fn enc_span(sp: SpanModel) -> Seq<char> {
    "{\"is_primary\":"@ + enc_bool(sp.is_primary) + ",\"line_start\":"@ + enc_dec(sp.line_start)
        + ",\"line_end\":"@ + enc_dec(sp.line_end) + ",\"column_start\":"@ + enc_dec(
        sp.column_start,
    ) + ",\"column_end\":"@ + enc_dec(sp.column_end) + ",\"label\":"@ + enc_label(sp.label) + "}"@
}

/// The spans after the first one, each preceded by a comma.
pub open spec fn enc_span_tail(sps: Seq<SpanModel>) -> Seq<char>
    decreases sps.len(),
{
    if sps.len() == 0 {
        Seq::empty()
    } else {
        ","@ + enc_span(sps[0]) + enc_span_tail(sps.drop_first())
    }
}

/// A span sequence, in emission order, between square brackets.
pub open spec fn enc_spans(sps: Seq<SpanModel>) -> Seq<char> {
    if sps.len() == 0 {
        "[]"@
    } else {
        "["@ + enc_span(sps[0]) + enc_span_tail(sps.drop_first()) + "]"@
    }
}

/// A whole diagnostic, fields in declaration order.
pub open spec fn enc_diag(d: DiagModel) -> Seq<char> {
    "{\"target_crate\":"@ + enc_str(d.target_crate) + ",\"level\":"@ + enc_level(d.level)
        + ",\"message\":"@ + enc_str(d.message) + ",\"spans\":"@ + enc_spans(d.spans) + "}"@
}

/// A build stage: unit variants as their bare tag string, `Compiling` as a
/// tagged object.
pub open spec fn enc_stage(st: StageModel) -> Seq<char> {
    match st {
        StageModel::Compiling { crates_compiled, total_crates, current_crate } => {
            "{\"Compiling\":{\"crates_compiled\":"@ + enc_dec(crates_compiled)
                + ",\"total_crates\":"@ + enc_dec(total_crates) + ",\"current_crate\":"@ + enc_str(
                current_crate,
            ) + "}}"@
        },
        StageModel::RunningBindgen => "\"RunningBindgen\""@,
        StageModel::Other => "\"Other\""@,
    }
}

/// The two-case build result in a single payload slot: the job id under
/// `Ok`, the failure reason under `Err`.
pub open spec fn enc_result(r: Result<Seq<u8>, Seq<char>>) -> Seq<char> {
    match r {
        Ok(id) => "{\"Ok\":\""@ + enc_uuid(id) + "\"}"@,
        Err(m) => "{\"Err\":"@ + enc_str(m) + "}"@,
    }
}

/// A whole message: the externally tagged union, one frame of wire text.
pub open spec fn enc_msg(m: MsgModel) -> Seq<char> {
    match m {
        MsgModel::BuildRequest(s) => "{\"BuildRequest\":"@ + enc_str(s) + "}"@,
        MsgModel::BuildFinished(r) => "{\"BuildFinished\":"@ + enc_result(r) + "}"@,
        MsgModel::BuildStage(st) => "{\"BuildStage\":"@ + enc_stage(st) + "}"@,
        MsgModel::BuildDiagnostic(d) => "{\"BuildDiagnostic\":"@ + enc_diag(d) + "}"@,
        MsgModel::QueuePosition(n) => "{\"QueuePosition\":"@ + enc_dec(n) + "}"@,
        MsgModel::AlreadyConnected => "\"AlreadyConnected\""@,
    }
}

/// Appending a byte to a run appends its two digits to the run's encoding.
pub proof fn lemma_hex_run_snoc(bs: Seq<u8>, b: u8)
    ensures
        enc_hex_run(bs.push(b)) == enc_hex_run(bs) + enc_hex_byte(b),
    decreases bs.len(),
{
    if bs.len() == 0 {
        assert(bs.push(b)[0] == b);
        assert(bs.push(b).drop_first() =~= Seq::<u8>::empty());
        assert(enc_hex_run(bs.push(b)) == enc_hex_byte(b) + enc_hex_run(Seq::<u8>::empty()));
        assert(enc_hex_run(bs.push(b)) =~= enc_hex_run(bs) + enc_hex_byte(b));
    } else {
        assert(bs.push(b)[0] == bs[0]);
        assert(bs.push(b).drop_first() =~= bs.drop_first().push(b));
        lemma_hex_run_snoc(bs.drop_first(), b);
        assert(enc_hex_run(bs.push(b)) == enc_hex_byte(bs[0]) + (enc_hex_run(bs.drop_first())
            + enc_hex_byte(b)));
        assert(enc_hex_run(bs.push(b)) =~= enc_hex_run(bs) + enc_hex_byte(b));
    }
}

/// Appending a character to a string appends its escape to the escaped form.
pub proof fn lemma_esc_snoc(s: Seq<char>, c: char)
    ensures
        esc(s.push(c)) == esc(s) + esc_char(c),
    decreases s.len(),
{
    if s.len() == 0 {
        assert(s.push(c)[0] == c);
        assert(s.push(c).drop_first() =~= Seq::<char>::empty());
        assert(esc(s.push(c)) == esc_char(c) + esc(Seq::<char>::empty()));
        assert(esc(s.push(c)) =~= esc(s) + esc_char(c));
    } else {
        assert(s.push(c)[0] == s[0]);
        assert(s.push(c).drop_first() =~= s.drop_first().push(c));
        lemma_esc_snoc(s.drop_first(), c);
        assert(esc(s.push(c)) == esc_char(s[0]) + (esc(s.drop_first()) + esc_char(c)));
        assert(esc(s.push(c)) =~= esc(s) + esc_char(c));
    }
}

/// Appending a span to a tail appends a comma and its encoding.
pub proof fn lemma_span_tail_snoc(sps: Seq<SpanModel>, sp: SpanModel)
    ensures
        enc_span_tail(sps.push(sp)) == enc_span_tail(sps) + ","@ + enc_span(sp),
    decreases sps.len(),
{
    if sps.len() == 0 {
        assert(sps.push(sp)[0] == sp);
        assert(sps.push(sp).drop_first() =~= Seq::<SpanModel>::empty());
        assert(enc_span_tail(sps.push(sp)) == ","@ + enc_span(sp) + enc_span_tail(
            Seq::<SpanModel>::empty(),
        ));
        assert(enc_span_tail(sps.push(sp)) =~= enc_span_tail(sps) + ","@ + enc_span(sp));
    } else {
        assert(sps.push(sp)[0] == sps[0]);
        assert(sps.push(sp).drop_first() =~= sps.drop_first().push(sp));
        lemma_span_tail_snoc(sps.drop_first(), sp);
        assert(enc_span_tail(sps.push(sp)) == ","@ + enc_span(sps[0]) + (enc_span_tail(
            sps.drop_first(),
        ) + ","@ + enc_span(sp)));
        assert(enc_span_tail(sps.push(sp)) =~= enc_span_tail(sps) + ","@ + enc_span(sp));
    }
}

} // verus!
