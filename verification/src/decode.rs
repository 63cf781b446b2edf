//! The executable decoder: reads one frame of wire text and is proved to
//! return exactly what the spec-level parser of the wire grammar denotes,
//! and a typed error — never a panic, never a partial value — on anything
//! else.

use vstd::prelude::*;

use crate::digits::lemma_dec_val_prefix_le;
use crate::digits::lemma_digit_run;
use crate::model::opt_str_view;
use crate::model::BuildStage;
use crate::model::CargoDiagnostic;
use crate::model::CargoDiagnosticSpan;
use crate::model::CargoLevel;
use crate::model::JobId;
use crate::model::SocketError;
use crate::model::SocketMessage;
use crate::model::SpanModel;
use crate::reader::digit_run_end;
use crate::reader::dec_val;
use crate::reader::is_digit;
use crate::reader::is_hex_lc;
use crate::reader::hex_val;
use crate::reader::sp_bool;
use crate::reader::sp_diag;
use crate::reader::sp_escape;
use crate::reader::sp_hex_byte;
use crate::reader::sp_hex_run;
use crate::reader::sp_label;
use crate::reader::sp_level;
use crate::reader::sp_lit;
use crate::reader::sp_msg;
use crate::reader::sp_msg_full;
use crate::reader::sp_result;
use crate::reader::sp_span;
use crate::reader::sp_span_tail;
use crate::reader::sp_spans;
use crate::reader::sp_stage;
use crate::reader::sp_str;
use crate::reader::sp_str_body;
use crate::reader::sp_usize;
use crate::reader::sp_uuid;
use crate::stdtext::string_from_utf8;

verus! {

/// Whether `c` is a decimal digit.
fn is_digit_exec(c: char) -> (r: bool)
    ensures
        r == is_digit(c),
{
    let u = c as u32;
    48 <= u && u <= 57
}

/// Whether `c` is a lower-case hexadecimal digit.
fn is_hex_lc_exec(c: char) -> (r: bool)
    ensures
        r == is_hex_lc(c),
{
    let u = c as u32;
    (48 <= u && u <= 57) || (97 <= u && u <= 102)
}

/// The value of a lower-case hexadecimal digit.
fn hex_val_exec(c: char) -> (r: u8)
    requires
        is_hex_lc(c),
    ensures
        r as int == hex_val(c),
        r < 16,
{
    let u = c as u32;
    if u <= 57 {
        (u - 48) as u8
    } else {
        (u - 87) as u8
    }
}

/// Matches the exact literal `lit` at position `i`.
fn match_lit(s: &str, n: usize, i: usize, lit: &str) -> (r: Option<usize>)
    requires
        n == s@.len(),
        i <= n,
    ensures
        match r {
            Some(j) => sp_lit(s@, i as int, lit@) == Some(j as int) && i <= j <= n,
            None => sp_lit(s@, i as int, lit@) is None,
        },
{
    let m = lit.unicode_len();
    if m > n - i {
        return None;
    }
    let mut k: usize = 0;
    while k < m
        invariant
            n == s@.len(),
            m == lit@.len(),
            i + m <= n,
            k <= m,
            forall|t: int| 0 <= t < k ==> s@[i + t] == lit@[t],
        decreases m - k,
    {
        if s.get_char(i + k) != lit.get_char(k) {
            proof {
                assert(s@.subrange(i as int, i + lit@.len())[k as int] == s@[i + k]);
            }
            return None;
        }
        k += 1;
    }
    proof {
        assert(s@.subrange(i as int, i + lit@.len()) =~= lit@);
    }
    Some(i + m)
}

/// The end of the run of decimal digits that starts at `i`.
fn digit_run_end_exec(s: &str, n: usize, i: usize) -> (e: usize)
    requires
        n == s@.len(),
        i <= n,
    ensures
        i <= e <= n,
        e as int == digit_run_end(s@, i as int),
    decreases n - i,
{
    if i < n {
        let c = s.get_char(i);
        if is_digit_exec(c) {
            return digit_run_end_exec(s, n, i + 1);
        }
    }
    i
}

/// Reads a decimal number that fits in `usize`.
fn p_usize(s: &str, n: usize, i: usize) -> (r: Option<(usize, usize)>)
    requires
        n == s@.len(),
        i <= n,
    ensures
        match r {
            Some((v, j)) => sp_usize(s@, i as int) == Some((v as int, j as int)) && i < j <= n,
            None => sp_usize(s@, i as int) is None,
        },
{
    if i >= n {
        return None;
    }
    let c0 = s.get_char(i);
    if !is_digit_exec(c0) {
        return None;
    }
    if c0 == '0' {
        return Some((0, i + 1));
    }
    let e = digit_run_end_exec(s, n, i);
    proof {
        lemma_digit_run(s@, i as int);
        assert(digit_run_end(s@, i as int) == digit_run_end(s@, i + 1));
        lemma_digit_run(s@, i + 1);
        assert(e > i);
    }
    let mut acc: u128 = 0;
    let mut j: usize = i;
    proof {
        assert(s@.subrange(i as int, i as int) =~= Seq::<char>::empty());
    }
    while j < e
        invariant
            n == s@.len(),
            i <= j <= e <= n,
            e as int == digit_run_end(s@, i as int),
            is_digit(s@[i as int]),
            s@[i as int] != '0',
            forall|t: int| i <= t < e ==> is_digit(#[trigger] s@[t]),
            acc as int == dec_val(s@.subrange(i as int, j as int)),
            acc <= usize::MAX as u128,
        decreases e - j,
    {
        let c = s.get_char(j);
        let d: u128 = (c as u32 - 48) as u128;
        let next: u128 = acc * 10 + d;
        proof {
            assert(s@.subrange(i as int, j + 1).drop_last() =~= s@.subrange(i as int, j as int));
            assert(s@.subrange(i as int, j + 1).last() == s@[j as int]);
            assert(next as int == dec_val(s@.subrange(i as int, j + 1)));
        }
        if next > usize::MAX as u128 {
            proof {
                let ds = s@.subrange(i as int, e as int);
                assert forall|t: int| 0 <= t < ds.len() implies is_digit(#[trigger] ds[t]) by {
                    assert(ds[t] == s@[i + t]);
                }
                assert(s@.subrange(i as int, j + 1) =~= ds.subrange(0, j + 1 - i));
                lemma_dec_val_prefix_le(ds, j + 1 - i);
                assert(dec_val(ds.subrange(0, j + 1 - i)) == dec_val(s@.subrange(i as int, j + 1)));
                assert(dec_val(ds) >= next as int);
                assert(next as int > usize::MAX as int);
                assert(sp_usize(s@, i as int) is None);
            }
            return None;
        }
        acc = next;
        j += 1;
    }
    Some((acc as usize, e))
}

/// Reads a boolean value.
fn p_bool(s: &str, n: usize, i: usize) -> (r: Option<(bool, usize)>)
    requires
        n == s@.len(),
        i <= n,
    ensures
        match r {
            Some((b, j)) => sp_bool(s@, i as int) == Some((b, j as int)) && i <= j <= n,
            None => sp_bool(s@, i as int) is None,
        },
{
    match match_lit(s, n, i, "true") {
        Some(j) => Some((true, j)),
        None => match match_lit(s, n, i, "false") {
            Some(j) => Some((false, j)),
            None => None,
        },
    }
}

/// Reads one string escape, starting just after the backslash.
fn p_escape(s: &str, n: usize, i: usize) -> (r: Option<(char, usize)>)
    requires
        n == s@.len(),
        i <= n,
    ensures
        match r {
            Some((c, j)) => sp_escape(s@, i as int) == Some((c, j as int)) && i < j <= n,
            None => sp_escape(s@, i as int) is None,
        },
{
    if i >= n {
        return None;
    }
    let c = s.get_char(i);
    if c == '"' {
        Some(('"', i + 1))
    } else if c == '\\' {
        Some(('\\', i + 1))
    } else if c == 'n' {
        Some(('\n', i + 1))
    } else if c == 'r' {
        Some(('\r', i + 1))
    } else if c == 't' {
        Some(('\t', i + 1))
    } else if c == 'u' {
        if n - i >= 5 {
            let c1 = s.get_char(i + 1);
            let c2 = s.get_char(i + 2);
            let c3 = s.get_char(i + 3);
            let c4 = s.get_char(i + 4);
            if c1 == '0' && c2 == '0' && is_hex_lc_exec(c3) && is_hex_lc_exec(c4) {
                let v: u8 = hex_val_exec(c3) * 16 + hex_val_exec(c4);
                Some((v as char, i + 5))
            } else {
                None
            }
        } else {
            None
        }
    } else {
        None
    }
}

/// Reads the characters of a string value after its opening quote, up to
/// and including the closing quote.
fn p_str_body(s: &str, n: usize, i: usize) -> (r: Option<(String, usize)>)
    requires
        n == s@.len(),
        i <= n,
    ensures
        match r {
            Some((t, j)) => sp_str_body(s@, i as int) == Some((t@, j as int)) && i <= j <= n,
            None => sp_str_body(s@, i as int) is None,
        },
{
    let mut acc = String::new();
    let mut cur: usize = i;
    loop
        invariant
            n == s@.len(),
            i <= cur <= n,
            match sp_str_body(s@, cur as int) {
                Some((t, e)) => sp_str_body(s@, i as int) == Some((acc@ + t, e)),
                None => sp_str_body(s@, i as int) is None,
            },
        decreases n - cur,
    {
        if cur >= n {
            return None;
        }
        let c = s.get_char(cur);
        if c == '"' {
            proof {
                assert(acc@ + Seq::<char>::empty() =~= acc@);
            }
            return Some((acc, cur + 1));
        } else if c == '\\' {
            match p_escape(s, n, cur + 1) {
                Some((ec, j)) => {
                    let ghost prev = acc@;
                    acc.push(ec);
                    proof {
                        if let Some((t, e)) = sp_str_body(s@, j as int) {
                            assert(prev + (seq![ec] + t) =~= acc@ + t);
                        }
                    }
                    cur = j;
                },
                None => {
                    return None;
                },
            }
        } else if c as u32 >= 32 {
            let ghost prev = acc@;
            acc.push(c);
            proof {
                if let Some((t, e)) = sp_str_body(s@, cur + 1) {
                    assert(prev + (seq![c] + t) =~= acc@ + t);
                }
            }
            cur = cur + 1;
        } else {
            return None;
        }
    }
}

/// Reads a string value: escaped characters between double quotes.
fn p_str(s: &str, n: usize, i: usize) -> (r: Option<(String, usize)>)
    requires
        n == s@.len(),
        i <= n,
    ensures
        match r {
            Some((t, j)) => sp_str(s@, i as int) == Some((t@, j as int)) && i <= j <= n,
            None => sp_str(s@, i as int) is None,
        },
{
    if i >= n {
        return None;
    }
    if s.get_char(i) != '"' {
        return None;
    }
    p_str_body(s, n, i + 1)
}

/// Reads an optional span label: `null` or a string.
fn p_label(s: &str, n: usize, i: usize) -> (r: Option<(Option<String>, usize)>)
    requires
        n == s@.len(),
        i <= n,
    ensures
        match r {
            Some((l, j)) => sp_label(s@, i as int) == Some((opt_str_view(l), j as int)) && i <= j
                <= n,
            None => sp_label(s@, i as int) is None,
        },
{
    match match_lit(s, n, i, "null") {
        Some(j) => Some((None, j)),
        None => match p_str(s, n, i) {
            Some((t, j)) => Some((Some(t), j)),
            None => None,
        },
    }
}

/// Reads one byte of two lower-case hexadecimal digits.
fn p_hex_byte(s: &str, n: usize, i: usize) -> (r: Option<(u8, usize)>)
    requires
        n == s@.len(),
        i <= n,
    ensures
        match r {
            Some((b, j)) => sp_hex_byte(s@, i as int) == Some((b, j as int)) && i < j <= n,
            None => sp_hex_byte(s@, i as int) is None,
        },
{
    if n - i < 2 {
        return None;
    }
    let c0 = s.get_char(i);
    let c1 = s.get_char(i + 1);
    if is_hex_lc_exec(c0) && is_hex_lc_exec(c1) {
        Some((hex_val_exec(c0) * 16 + hex_val_exec(c1), i + 2))
    } else {
        None
    }
}

/// Reads exactly `k` bytes of hexadecimal digits.
fn p_hex_run(s: &str, n: usize, i: usize, k: usize) -> (r: Option<(Vec<u8>, usize)>)
    requires
        n == s@.len(),
        i <= n,
    ensures
        match r {
            Some((bs, j)) => sp_hex_run(s@, i as int, k as nat) == Some((bs@, j as int)) && i <= j
                <= n,
            None => sp_hex_run(s@, i as int, k as nat) is None,
        },
    decreases k,
{
    if k == 0 {
        let bs: Vec<u8> = Vec::new();
        proof {
            assert(bs@ =~= Seq::<u8>::empty());
        }
        Some((bs, i))
    } else {
        match p_hex_byte(s, n, i) {
            Some((b, j)) => match p_hex_run(s, n, j, k - 1) {
                Some((bs, e)) => {
                    let ghost rest = bs@;
                    let mut bs = bs;
                    bs.insert(0, b);
                    proof {
                        assert(bs@ =~= seq![b] + rest);
                    }
                    Some((bs, e))
                },
                None => None,
            },
            None => None,
        }
    }
}

/// Reads a hyphenated sixteen-byte job id.
fn p_uuid(s: &str, n: usize, i: usize) -> (r: Option<(JobId, usize)>)
    requires
        n == s@.len(),
        i <= n,
    ensures
        match r {
            Some((id, j)) => sp_uuid(s@, i as int) == Some((id@, j as int)) && i <= j <= n
                && id.wf(),
            None => sp_uuid(s@, i as int) is None,
        },
{
    let g0 = match p_hex_run(s, n, i, 4) {
        Some(g) => g,
        None => {
            return None;
        },
    };
    let (mut bytes, j0) = g0;
    let j1 = match match_lit(s, n, j0, "-") {
        Some(j) => j,
        None => {
            return None;
        },
    };
    let g1 = match p_hex_run(s, n, j1, 2) {
        Some(g) => g,
        None => {
            return None;
        },
    };
    let (mut b1, j2) = g1;
    let j3 = match match_lit(s, n, j2, "-") {
        Some(j) => j,
        None => {
            return None;
        },
    };
    let g2 = match p_hex_run(s, n, j3, 2) {
        Some(g) => g,
        None => {
            return None;
        },
    };
    let (mut b2, j4) = g2;
    let j5 = match match_lit(s, n, j4, "-") {
        Some(j) => j,
        None => {
            return None;
        },
    };
    let g3 = match p_hex_run(s, n, j5, 2) {
        Some(g) => g,
        None => {
            return None;
        },
    };
    let (mut b3, j6) = g3;
    let j7 = match match_lit(s, n, j6, "-") {
        Some(j) => j,
        None => {
            return None;
        },
    };
    let g4 = match p_hex_run(s, n, j7, 6) {
        Some(g) => g,
        None => {
            return None;
        },
    };
    let (mut b4, e) = g4;
    let ghost v0 = bytes@;
    let ghost v1 = b1@;
    let ghost v2 = b2@;
    let ghost v3 = b3@;
    let ghost v4 = b4@;
    bytes.append(&mut b1);
    bytes.append(&mut b2);
    bytes.append(&mut b3);
    bytes.append(&mut b4);
    proof {
        assert(bytes@ =~= v0 + v1 + v2 + v3 + v4);
        assert(v0.len() == 4 && v1.len() == 2 && v2.len() == 2 && v3.len() == 2 && v4.len() == 6)
            by {
            crate::reader::lemma_sp_hex_run_len(s@, i as int, 4);
            crate::reader::lemma_sp_hex_run_len(s@, j1 as int, 2);
            crate::reader::lemma_sp_hex_run_len(s@, j3 as int, 2);
            crate::reader::lemma_sp_hex_run_len(s@, j5 as int, 2);
            crate::reader::lemma_sp_hex_run_len(s@, j7 as int, 6);
        }
    }
    Some((JobId { bytes }, e))
}

/// Reads a diagnostic severity tag.
fn p_level(s: &str, n: usize, i: usize) -> (r: Option<(CargoLevel, usize)>)
    requires
        n == s@.len(),
        i <= n,
    ensures
        match r {
            Some((lv, j)) => sp_level(s@, i as int) == Some((lv, j as int)) && i <= j <= n,
            None => sp_level(s@, i as int) is None,
        },
{
    match match_lit(s, n, i, "\"Error\"") {
        Some(j) => Some((CargoLevel::Error, j)),
        None => match match_lit(s, n, i, "\"Warning\"") {
            Some(j) => Some((CargoLevel::Warning, j)),
            None => None,
        },
    }
}

/// Reads one diagnostic span object.
fn p_span(s: &str, n: usize, i: usize) -> (r: Option<(CargoDiagnosticSpan, usize)>)
    requires
        n == s@.len(),
        i <= n,
    ensures
        match r {
            Some((sp, j)) => sp_span(s@, i as int) == Some((sp@, j as int)) && i < j <= n,
            None => sp_span(s@, i as int) is None,
        },
{
    let j0 = match match_lit(s, n, i, "{\"is_primary\":") {
        Some(j) => j,
        None => {
            return None;
        },
    };
    let (p, j1) = match p_bool(s, n, j0) {
        Some(x) => x,
        None => {
            return None;
        },
    };
    let j2 = match match_lit(s, n, j1, ",\"line_start\":") {
        Some(j) => j,
        None => {
            return None;
        },
    };
    let (ls, j3) = match p_usize(s, n, j2) {
        Some(x) => x,
        None => {
            return None;
        },
    };
    let j4 = match match_lit(s, n, j3, ",\"line_end\":") {
        Some(j) => j,
        None => {
            return None;
        },
    };
    let (le, j5) = match p_usize(s, n, j4) {
        Some(x) => x,
        None => {
            return None;
        },
    };
    let j6 = match match_lit(s, n, j5, ",\"column_start\":") {
        Some(j) => j,
        None => {
            return None;
        },
    };
    let (cs, j7) = match p_usize(s, n, j6) {
        Some(x) => x,
        None => {
            return None;
        },
    };
    let j8 = match match_lit(s, n, j7, ",\"column_end\":") {
        Some(j) => j,
        None => {
            return None;
        },
    };
    let (ce, j9) = match p_usize(s, n, j8) {
        Some(x) => x,
        None => {
            return None;
        },
    };
    let j10 = match match_lit(s, n, j9, ",\"label\":") {
        Some(j) => j,
        None => {
            return None;
        },
    };
    let (l, j11) = match p_label(s, n, j10) {
        Some(x) => x,
        None => {
            return None;
        },
    };
    let e = match match_lit(s, n, j11, "}") {
        Some(j) => j,
        None => {
            return None;
        },
    };
    let sp = CargoDiagnosticSpan {
        is_primary: p,
        line_start: ls,
        line_end: le,
        column_start: cs,
        column_end: ce,
        label: l,
    };
    proof {
        let parsed = sp_span(s@, i as int);
        assert(parsed is Some);
        assert((parsed->0).0 =~= sp@);
    }
    Some((sp, e))
}

/// Reads a span sequence between square brackets.
fn p_spans(s: &str, n: usize, i: usize) -> (r: Option<(Vec<CargoDiagnosticSpan>, usize)>)
    requires
        n == s@.len(),
        i <= n,
    ensures
        match r {
            Some((sps, j)) => sp_spans(s@, i as int) == Some(
                (sps@.map_values(|sp: CargoDiagnosticSpan| sp@), j as int),
            ) && i <= j <= n,
            None => sp_spans(s@, i as int) is None,
        },
{
    if i >= n {
        return None;
    }
    if s.get_char(i) != '[' {
        return None;
    }
    if i + 1 < n && s.get_char(i + 1) == ']' {
        let sps: Vec<CargoDiagnosticSpan> = Vec::new();
        proof {
            assert(sps@.map_values(|sp: CargoDiagnosticSpan| sp@) =~= Seq::<SpanModel>::empty());
        }
        return Some((sps, i + 2));
    }
    let (sp0, j) = match p_span(s, n, i + 1) {
        Some(x) => x,
        None => {
            return None;
        },
    };
    let mut sps: Vec<CargoDiagnosticSpan> = Vec::new();
    sps.push(sp0);
    let mut cur: usize = j;
    proof {
        assert(sps@.map_values(|sp: CargoDiagnosticSpan| sp@) =~= seq![sp0@]);
    }
    loop
        invariant
            n == s@.len(),
            i < cur <= n,
            sps@.len() >= 1,
            match sp_span_tail(s@, cur as int) {
                Some((rest, e)) => sp_spans(s@, i as int) == Some(
                    (sps@.map_values(|sp: CargoDiagnosticSpan| sp@) + rest, e),
                ),
                None => sp_spans(s@, i as int) is None,
            },
        decreases n - cur,
    {
        if cur >= n {
            return None;
        }
        let c = s.get_char(cur);
        if c == ']' {
            proof {
                assert(sps@.map_values(|sp: CargoDiagnosticSpan| sp@) + Seq::<SpanModel>::empty()
                    =~= sps@.map_values(|sp: CargoDiagnosticSpan| sp@));
            }
            return Some((sps, cur + 1));
        } else if c == ',' {
            match p_span(s, n, cur + 1) {
                Some((sp, j2)) => {
                    let ghost prev = sps@;
                    sps.push(sp);
                    proof {
                        assert(sps@.map_values(|x: CargoDiagnosticSpan| x@) =~= prev.map_values(
                            |x: CargoDiagnosticSpan| x@,
                        ).push(sp@));
                        if let Some((rest, e)) = sp_span_tail(s@, j2 as int) {
                            assert(prev.map_values(|x: CargoDiagnosticSpan| x@) + (seq![sp@]
                                + rest) =~= sps@.map_values(|x: CargoDiagnosticSpan| x@) + rest);
                        }
                    }
                    cur = j2;
                },
                None => {
                    return None;
                },
            }
        } else {
            return None;
        }
    }
}

/// Reads a whole diagnostic object.
fn p_diag(s: &str, n: usize, i: usize) -> (r: Option<(CargoDiagnostic, usize)>)
    requires
        n == s@.len(),
        i <= n,
    ensures
        match r {
            Some((d, j)) => sp_diag(s@, i as int) == Some((d@, j as int)) && i <= j <= n,
            None => sp_diag(s@, i as int) is None,
        },
{
    let j0 = match match_lit(s, n, i, "{\"target_crate\":") {
        Some(j) => j,
        None => {
            return None;
        },
    };
    let (tc, j1) = match p_str(s, n, j0) {
        Some(x) => x,
        None => {
            return None;
        },
    };
    let j2 = match match_lit(s, n, j1, ",\"level\":") {
        Some(j) => j,
        None => {
            return None;
        },
    };
    let (lv, j3) = match p_level(s, n, j2) {
        Some(x) => x,
        None => {
            return None;
        },
    };
    let j4 = match match_lit(s, n, j3, ",\"message\":") {
        Some(j) => j,
        None => {
            return None;
        },
    };
    let (msg, j5) = match p_str(s, n, j4) {
        Some(x) => x,
        None => {
            return None;
        },
    };
    let j6 = match match_lit(s, n, j5, ",\"spans\":") {
        Some(j) => j,
        None => {
            return None;
        },
    };
    let (sps, j7) = match p_spans(s, n, j6) {
        Some(x) => x,
        None => {
            return None;
        },
    };
    let e = match match_lit(s, n, j7, "}") {
        Some(j) => j,
        None => {
            return None;
        },
    };
    let d = CargoDiagnostic { target_crate: tc, level: lv, message: msg, spans: sps };
    proof {
        let parsed = sp_diag(s@, i as int);
        assert(parsed is Some);
        assert((parsed->0).0 =~= d@);
    }
    Some((d, e))
}

/// Reads a build stage.
fn p_stage(s: &str, n: usize, i: usize) -> (r: Option<(BuildStage, usize)>)
    requires
        n == s@.len(),
        i <= n,
    ensures
        match r {
            Some((st, j)) => sp_stage(s@, i as int) == Some((st@, j as int)) && i <= j <= n,
            None => sp_stage(s@, i as int) is None,
        },
{
    if let Some(j) = match_lit(s, n, i, "\"RunningBindgen\"") {
        return Some((BuildStage::RunningBindgen, j));
    }
    if let Some(j) = match_lit(s, n, i, "\"Other\"") {
        return Some((BuildStage::Other, j));
    }
    let j0 = match match_lit(s, n, i, "{\"Compiling\":{\"crates_compiled\":") {
        Some(j) => j,
        None => {
            return None;
        },
    };
    let (cc, j1) = match p_usize(s, n, j0) {
        Some(x) => x,
        None => {
            return None;
        },
    };
    let j2 = match match_lit(s, n, j1, ",\"total_crates\":") {
        Some(j) => j,
        None => {
            return None;
        },
    };
    let (tc, j3) = match p_usize(s, n, j2) {
        Some(x) => x,
        None => {
            return None;
        },
    };
    let j4 = match match_lit(s, n, j3, ",\"current_crate\":") {
        Some(j) => j,
        None => {
            return None;
        },
    };
    let (name, j5) = match p_str(s, n, j4) {
        Some(x) => x,
        None => {
            return None;
        },
    };
    let e = match match_lit(s, n, j5, "}}") {
        Some(j) => j,
        None => {
            return None;
        },
    };
    let st = BuildStage::Compiling { crates_compiled: cc, total_crates: tc, current_crate: name };
    Some((st, e))
}

/// Reads the two-case build result.
fn p_result(s: &str, n: usize, i: usize) -> (r: Option<(Result<JobId, String>, usize)>)
    requires
        n == s@.len(),
        i <= n,
    ensures
        match r {
            Some((res, j)) => sp_result(s@, i as int) == Some(
                (
                    match res {
                        Ok(id) => Ok(id@),
                        Err(m) => Err(m@),
                    },
                    j as int,
                ),
            ) && i <= j <= n && (res matches Ok(id) ==> id.wf()),
            None => sp_result(s@, i as int) is None,
        },
{
    if let Some(j0) = match_lit(s, n, i, "{\"Ok\":\"") {
        let (id, j1) = match p_uuid(s, n, j0) {
            Some(x) => x,
            None => {
                return None;
            },
        };
        let e = match match_lit(s, n, j1, "\"}") {
            Some(j) => j,
            None => {
                return None;
            },
        };
        return Some((Ok(id), e));
    }
    let j0 = match match_lit(s, n, i, "{\"Err\":") {
        Some(j) => j,
        None => {
            return None;
        },
    };
    let (m, j1) = match p_str(s, n, j0) {
        Some(x) => x,
        None => {
            return None;
        },
    };
    let e = match match_lit(s, n, j1, "}") {
        Some(j) => j,
        None => {
            return None;
        },
    };
    Some((Err(m), e))
}

/// Reads one whole message frame starting at `i`.
fn p_msg(s: &str, n: usize, i: usize) -> (r: Option<(SocketMessage, usize)>)
    requires
        n == s@.len(),
        i <= n,
    ensures
        match r {
            Some((m, j)) => sp_msg(s@, i as int) == Some((m@, j as int)) && i <= j <= n && m.wf(),
            None => sp_msg(s@, i as int) is None,
        },
{
    if let Some(j0) = match_lit(s, n, i, "{\"BuildRequest\":") {
        let (t, j1) = match p_str(s, n, j0) {
            Some(x) => x,
            None => {
                return None;
            },
        };
        let e = match match_lit(s, n, j1, "}") {
            Some(j) => j,
            None => {
                return None;
            },
        };
        return Some((SocketMessage::BuildRequest(t), e));
    }
    if let Some(j0) = match_lit(s, n, i, "{\"BuildFinished\":") {
        let (res, j1) = match p_result(s, n, j0) {
            Some(x) => x,
            None => {
                return None;
            },
        };
        let e = match match_lit(s, n, j1, "}") {
            Some(j) => j,
            None => {
                return None;
            },
        };
        return Some((SocketMessage::BuildFinished(res), e));
    }
    if let Some(j0) = match_lit(s, n, i, "{\"BuildStage\":") {
        let (st, j1) = match p_stage(s, n, j0) {
            Some(x) => x,
            None => {
                return None;
            },
        };
        let e = match match_lit(s, n, j1, "}") {
            Some(j) => j,
            None => {
                return None;
            },
        };
        return Some((SocketMessage::BuildStage(st), e));
    }
    if let Some(j0) = match_lit(s, n, i, "{\"BuildDiagnostic\":") {
        let (d, j1) = match p_diag(s, n, j0) {
            Some(x) => x,
            None => {
                return None;
            },
        };
        let e = match match_lit(s, n, j1, "}") {
            Some(j) => j,
            None => {
                return None;
            },
        };
        return Some((SocketMessage::BuildDiagnostic(d), e));
    }
    if let Some(j0) = match_lit(s, n, i, "{\"QueuePosition\":") {
        let (q, j1) = match p_usize(s, n, j0) {
            Some(x) => x,
            None => {
                return None;
            },
        };
        let e = match match_lit(s, n, j1, "}") {
            Some(j) => j,
            None => {
                return None;
            },
        };
        return Some((SocketMessage::QueuePosition(q), e));
    }
    match match_lit(s, n, i, "\"AlreadyConnected\"") {
        Some(e) => Some((SocketMessage::AlreadyConnected, e)),
        None => None,
    }
}

impl SocketMessage {
    /// Decodes one frame of wire text into a message.
    ///
    /// Succeeds exactly on the texts the wire grammar accepts; any other
    /// text — not structured data, a missing field, an unknown
    /// discriminant, a trailing remainder — yields the structured-decode
    /// error, never a panic and never a partial value.
    pub fn try_from(value: String) -> (r: Result<SocketMessage, SocketError>)
        ensures
            match r {
                Ok(m) => sp_msg_full(value@) == Some(m@) && m.wf(),
                Err(e) => sp_msg_full(value@) is None && e == SocketError::ParseJson,
            },
    {
        let s = value.as_str();
        let n = s.unicode_len();
        match p_msg(s, n, 0) {
            Some((m, j)) => {
                if j == n {
                    Ok(m)
                } else {
                    Err(SocketError::ParseJson)
                }
            },
            None => Err(SocketError::ParseJson),
        }
    }

    /// Decodes a frame received as raw bytes: first the text-decoding step,
    /// then the structured decoding.
    ///
    /// Bytes that are not valid UTF-8 yield the text-decoding error,
    /// distinct from the structured-decode error that malformed text
    /// yields.
    pub fn from_utf8_bytes(bytes: Vec<u8>) -> (r: Result<SocketMessage, SocketError>)
        ensures
            match r {
                Ok(m) => vstd::utf8::valid_utf8(bytes@) && sp_msg_full(
                    vstd::utf8::decode_utf8(bytes@),
                ) == Some(m@) && m.wf(),
                Err(e) => match e {
                    SocketError::ParseJson => vstd::utf8::valid_utf8(bytes@) && sp_msg_full(
                        vstd::utf8::decode_utf8(bytes@),
                    ) is None,
                    SocketError::Utf8Decode { valid_up_to } => !vstd::utf8::valid_utf8(bytes@)
                        && valid_up_to <= bytes@.len(),
                },
            },
    {
        match string_from_utf8(bytes) {
            Ok(t) => SocketMessage::try_from(t),
            Err(valid_up_to) => Err(SocketError::Utf8Decode { valid_up_to }),
        }
    }
}

} // verus!
