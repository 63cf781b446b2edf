//! The round-trip law: reading back an encoded message yields that very
//! message. Stated over the wire grammar's two directions, whose exec
//! encoder and decoder are proved against them, so the law carries over to
//! the executable codec.

use vstd::prelude::*;

use crate::digits::lemma_dec_val_enc_dec;
use crate::digits::lemma_enc_dec_digits;
use crate::digits::lemma_enc_dec_first_nonzero;
use crate::digits::lemma_hex_char_val;
use crate::digits::lemma_run_end_eq;
use crate::model::CargoLevel;
use crate::model::DiagModel;
use crate::model::MsgModel;
use crate::model::SpanModel;
use crate::model::StageModel;
use crate::reader::dec_val;
use crate::reader::is_digit;
use crate::reader::sp_bool;
use crate::reader::sp_escape;
use crate::reader::sp_hex_byte;
use crate::reader::sp_hex_run;
use crate::reader::sp_label;
use crate::reader::sp_level;
use crate::reader::sp_lit;
use crate::reader::sp_num;
use crate::reader::sp_diag;
use crate::reader::sp_span;
use crate::reader::sp_span_tail;
use crate::reader::sp_spans;
use crate::reader::sp_stage;
use crate::reader::sp_str;
use crate::reader::sp_str_body;
use crate::reader::sp_usize;
use crate::reader::sp_uuid;
use crate::wire::enc_bool;
use crate::wire::enc_dec;
use crate::wire::enc_hex_byte;
use crate::wire::enc_hex_run;
use crate::wire::enc_label;
use crate::wire::enc_level;
use crate::wire::enc_diag;
use crate::wire::enc_span;
use crate::wire::enc_span_tail;
use crate::wire::enc_spans;
use crate::wire::enc_stage;
use crate::wire::enc_str;
use crate::wire::enc_uuid;
use crate::wire::esc;
use crate::wire::esc_char;
use crate::wire::hex_char;

verus! {

/// A subrange equal to a concatenation splits into subranges equal to the
/// parts.
proof fn lemma_split(s: Seq<char>, i: int, a: Seq<char>, b: Seq<char>)
    requires
        0 <= i,
        i + a.len() + b.len() <= s.len(),
        s.subrange(i, i + a.len() + b.len()) == a + b,
    ensures
        s.subrange(i, i + a.len()) == a,
        s.subrange(i + a.len(), i + a.len() + b.len()) == b,
{
    assert forall|t: int| 0 <= t < a.len() implies s.subrange(i, i + a.len())[t] == a[t] by {
        assert((a + b)[t] == s.subrange(i, i + a.len() + b.len())[t]);
    }
    assert(s.subrange(i, i + a.len()) =~= a);
    assert forall|t: int| 0 <= t < b.len() implies s.subrange(
        i + a.len(),
        i + a.len() + b.len(),
    )[t] == b[t] by {
        assert((a + b)[a.len() + t] == b[t]);
        assert(s.subrange(i, i + a.len() + b.len())[a.len() + t] == s[i + a.len() + t]);
        assert(s.subrange(i + a.len(), i + a.len() + b.len())[t] == s[i + a.len() + t]);
    }
    assert(s.subrange(i + a.len(), i + a.len() + b.len()) =~= b);
}

/// A literal whose `k`-th character differs from the text does not match.
proof fn lemma_lit_mismatch(s: Seq<char>, i: int, lit: Seq<char>, k: int)
    requires
        0 <= i,
        0 <= k < lit.len(),
        i + k < s.len(),
        s[i + k] != lit[k],
    ensures
        sp_lit(s, i, lit) is None,
{
    if i + lit.len() <= s.len() {
        if s.subrange(i, i + lit.len()) == lit {
            assert(s.subrange(i, i + lit.len())[k] == s[i + k]);
        }
    }
}

/// Reading back an encoded boolean yields it.
proof fn lemma_rt_bool(s: Seq<char>, i: int, b: bool)
    requires
        0 <= i,
        i + enc_bool(b).len() <= s.len(),
        s.subrange(i, i + enc_bool(b).len()) == enc_bool(b),
    ensures
        sp_bool(s, i) == Some((b, i + enc_bool(b).len())),
{
    reveal_strlit("true");
    reveal_strlit("false");
    if b {
        assert(sp_lit(s, i, "true"@) == Some(i + 4));
    } else {
        assert(s[i] == s.subrange(i, i + 5)[0]);
        lemma_lit_mismatch(s, i, "true"@, 0);
        assert(sp_lit(s, i, "false"@) == Some(i + 5));
    }
}

/// Reading back an encoded severity yields it.
proof fn lemma_rt_level(s: Seq<char>, i: int, l: CargoLevel)
    requires
        0 <= i,
        i + enc_level(l).len() <= s.len(),
        s.subrange(i, i + enc_level(l).len()) == enc_level(l),
    ensures
        sp_level(s, i) == Some((l, i + enc_level(l).len())),
{
    reveal_strlit("\"Error\"");
    reveal_strlit("\"Warning\"");
    match l {
        CargoLevel::Error => {
            assert(sp_lit(s, i, "\"Error\""@) == Some(i + 7));
        },
        CargoLevel::Warning => {
            assert(s[i + 1] == s.subrange(i, i + 9)[1]);
            lemma_lit_mismatch(s, i, "\"Error\""@, 1);
            assert(sp_lit(s, i, "\"Warning\""@) == Some(i + 9));
        },
    }
}

/// Reading back an encoded number, up to a non-digit boundary, yields it.
proof fn lemma_rt_usize(s: Seq<char>, i: int, v: int)
    requires
        0 <= v <= usize::MAX as int,
        0 <= i,
        i + enc_dec(v).len() <= s.len(),
        s.subrange(i, i + enc_dec(v).len()) == enc_dec(v),
        i + enc_dec(v).len() == s.len() || !is_digit(s[i + enc_dec(v).len()]),
    ensures
        sp_usize(s, i) == Some((v, i + enc_dec(v).len())),
{
    let enc = enc_dec(v);
    let e = i + enc.len();
    lemma_enc_dec_digits(v);
    assert forall|t: int| i <= t < e implies is_digit(#[trigger] s[t]) by {
        assert(s.subrange(i, e)[t - i] == s[t]);
    }
    assert(s[i] == s.subrange(i, e)[0]);
    if v == 0 {
        assert(enc == seq![hex_char(0)]);
        assert(s[i] == '0');
        assert(sp_num(s, i) == Some((0int, i + 1)));
    } else {
        lemma_enc_dec_first_nonzero(v);
        assert(s[i] != '0');
        lemma_run_end_eq(s, i, e);
        assert(s.subrange(i, e) == enc);
        lemma_dec_val_enc_dec(v);
        assert(dec_val(s.subrange(i, e)) == v);
        assert(sp_num(s, i) == Some((v, e)));
    }
}

/// The hexadecimal run of a byte sequence is two characters per byte.
proof fn lemma_enc_hex_run_len(bs: Seq<u8>)
    ensures
        enc_hex_run(bs).len() == 2 * bs.len(),
    decreases bs.len(),
{
    if bs.len() > 0 {
        lemma_enc_hex_run_len(bs.drop_first());
    }
}

/// Reading back an encoded run of hexadecimal bytes yields it.
proof fn lemma_rt_hex_run(s: Seq<char>, i: int, bs: Seq<u8>)
    requires
        0 <= i,
        i + enc_hex_run(bs).len() <= s.len(),
        s.subrange(i, i + enc_hex_run(bs).len()) == enc_hex_run(bs),
    ensures
        sp_hex_run(s, i, bs.len() as nat) == Some((bs, i + enc_hex_run(bs).len())),
    decreases bs.len(),
{
    if bs.len() == 0 {
        assert(bs =~= Seq::<u8>::empty());
    } else {
        let b = bs[0];
        let rest = bs.drop_first();
        assert(enc_hex_run(bs) == enc_hex_byte(b) + enc_hex_run(rest));
        lemma_split(s, i, enc_hex_byte(b), enc_hex_run(rest));
        assert(s[i] == s.subrange(i, i + 2)[0]);
        assert(s[i + 1] == s.subrange(i, i + 2)[1]);
        assert(s[i] == hex_char(b as int / 16));
        assert(s[i + 1] == hex_char(b as int % 16));
        lemma_hex_char_val(b as int / 16);
        lemma_hex_char_val(b as int % 16);
        assert(sp_hex_byte(s, i) == Some((b, i + 2)));
        lemma_rt_hex_run(s, i + 2, rest);
        assert(seq![b] + rest =~= bs);
    }
}

/// Reading back an encoded job id yields its sixteen bytes.
proof fn lemma_rt_uuid(s: Seq<char>, i: int, bs: Seq<u8>)
    requires
        bs.len() == 16,
        0 <= i,
        i + enc_uuid(bs).len() <= s.len(),
        s.subrange(i, i + enc_uuid(bs).len()) == enc_uuid(bs),
    ensures
        sp_uuid(s, i) == Some((bs, i + enc_uuid(bs).len())),
{
    let g0 = bs.subrange(0, 4);
    let g1 = bs.subrange(4, 6);
    let g2 = bs.subrange(6, 8);
    let g3 = bs.subrange(8, 10);
    let g4 = bs.subrange(10, 16);
    let h = "-"@;
    let r0 = enc_hex_run(g0);
    let r1 = enc_hex_run(g1);
    let r2 = enc_hex_run(g2);
    let r3 = enc_hex_run(g3);
    let r4 = enc_hex_run(g4);
    let p7 = r0 + h + r1 + h + r2 + h + r3 + h;
    lemma_split(s, i, p7, r4);
    let p6 = r0 + h + r1 + h + r2 + h + r3;
    lemma_split(s, i, p6, h);
    let p5 = r0 + h + r1 + h + r2 + h;
    lemma_split(s, i, p5, r3);
    let p4 = r0 + h + r1 + h + r2;
    lemma_split(s, i, p4, h);
    let p3 = r0 + h + r1 + h;
    lemma_split(s, i, p3, r2);
    let p2 = r0 + h + r1;
    lemma_split(s, i, p2, h);
    let p1 = r0 + h;
    lemma_split(s, i, p1, r1);
    lemma_split(s, i, r0, h);
    lemma_rt_hex_run(s, i, g0);
    lemma_rt_hex_run(s, i + p1.len(), g1);
    lemma_rt_hex_run(s, i + p3.len(), g2);
    lemma_rt_hex_run(s, i + p5.len(), g3);
    lemma_rt_hex_run(s, i + p7.len(), g4);
    assert(g0 + g1 + g2 + g3 + g4 =~= bs);
}

/// Reading back the escaped characters and closing quote of a string
/// yields its characters.
proof fn lemma_rt_str_body(s: Seq<char>, i: int, t: Seq<char>)
    requires
        0 <= i,
        i + esc(t).len() + 1 <= s.len(),
        s.subrange(i, i + esc(t).len() + 1) == esc(t) + seq!['"'],
    ensures
        sp_str_body(s, i) == Some((t, i + esc(t).len() + 1)),
    decreases t.len(),
{
    broadcast use vstd::utf8::char_u32_cast;

    if t.len() == 0 {
        assert(s[i] == s.subrange(i, i + 1)[0]);
        assert(s[i] == '"');
        assert(t =~= Seq::<char>::empty());
    } else {
        let c = t[0];
        let a = esc_char(c);
        let rest = esc(t.drop_first()) + seq!['"'];
        assert(esc(t) == esc_char(c) + esc(t.drop_first()));
        assert((esc_char(c) + esc(t.drop_first())) + seq!['"'] =~= a + rest);
        lemma_split(s, i, a, rest);
        assert forall|u: int| 0 <= u < a.len() implies s[i + u] == a[u] by {
            assert(s.subrange(i, i + a.len())[u] == s[i + u]);
        }
        if c == '"' || c == '\\' || c == '\n' || c == '\r' || c == '\t' {
            assert(s[i] == '\\');
            assert(sp_escape(s, i + 1) == Some((c, i + 2)));
            lemma_rt_str_body(s, i + 2, t.drop_first());
            assert(seq![c] + t.drop_first() =~= t);
        } else if (c as u32) < 32 {
            assert(s[i] == '\\');
            assert(s[i + 1] == 'u');
            assert(s[i + 2] == '0');
            assert(s[i + 3] == '0');
            assert(s[i + 4] == hex_char(c as u32 as int / 16));
            assert(s[i + 5] == hex_char(c as u32 as int % 16));
            lemma_hex_char_val(c as u32 as int / 16);
            lemma_hex_char_val(c as u32 as int % 16);
            let v = crate::reader::hex_val(s[i + 4]) * 16 + crate::reader::hex_val(s[i + 5]);
            assert(v == c as u32 as int);
            let ch = (v as u8) as char;
            assert(ch as u32 == (v as u8) as u32);
            assert((v as u8) as u32 == c as u32);
            vstd::utf8::char_u32_cast(ch, ch as u32);
            vstd::utf8::char_u32_cast(c, c as u32);
            assert(ch == c);
            assert(sp_escape(s, i + 1) == Some((c, i + 6)));
            lemma_rt_str_body(s, i + 6, t.drop_first());
            assert(seq![c] + t.drop_first() =~= t);
        } else {
            assert(a == seq![c]);
            assert(s.subrange(i, i + a.len())[0] == s[i]);
            assert(a[0] == c);
            assert(s[i] == c);
            assert(c as u32 >= 32);
            lemma_rt_str_body(s, i + 1, t.drop_first());
            assert(seq![c] + t.drop_first() =~= t);
        }
    }
}

/// Reading back an encoded string value yields its characters.
proof fn lemma_rt_str(s: Seq<char>, i: int, t: Seq<char>)
    requires
        0 <= i,
        i + enc_str(t).len() <= s.len(),
        s.subrange(i, i + enc_str(t).len()) == enc_str(t),
    ensures
        sp_str(s, i) == Some((t, i + enc_str(t).len())),
{
    let total = enc_str(t).len();
    assert(s[i] == s.subrange(i, i + total)[0]);
    assert(s[i] == '"');
    assert forall|u: int| 0 <= u < esc(t).len() + 1 implies s.subrange(i + 1, i + total)[u] == (
    esc(t) + seq!['"'])[u] by {
        assert(s.subrange(i, i + total)[u + 1] == s[i + 1 + u]);
        assert(s.subrange(i + 1, i + total)[u] == s[i + 1 + u]);
    }
    assert(s.subrange(i + 1, i + total) =~= esc(t) + seq!['"']);
    lemma_rt_str_body(s, i + 1, t);
}

/// Reading back an encoded optional label yields it.
proof fn lemma_rt_label(s: Seq<char>, i: int, l: Option<Seq<char>>)
    requires
        0 <= i,
        i + enc_label(l).len() <= s.len(),
        s.subrange(i, i + enc_label(l).len()) == enc_label(l),
    ensures
        sp_label(s, i) == Some((l, i + enc_label(l).len())),
{
    reveal_strlit("null");
    match l {
        None => {
            assert(sp_lit(s, i, "null"@) == Some(i + 4));
        },
        Some(t) => {
            assert(s[i] == s.subrange(i, i + enc_str(t).len())[0]);
            assert(s[i] == '"');
            lemma_lit_mismatch(s, i, "null"@, 0);
            lemma_rt_str(s, i, t);
        },
    }
}

/// Reading back an encoded span yields it.
proof fn lemma_rt_span(s: Seq<char>, i: int, sp: SpanModel)
    requires
        sp.wf(),
        0 <= i,
        i + enc_span(sp).len() <= s.len(),
        s.subrange(i, i + enc_span(sp).len()) == enc_span(sp),
    ensures
        sp_span(s, i) == Some((sp, i + enc_span(sp).len())),
{
    reveal_strlit(",\"line_end\":");
    reveal_strlit(",\"column_start\":");
    reveal_strlit(",\"column_end\":");
    reveal_strlit(",\"label\":");
    let l1 = "{\"is_primary\":"@;
    let a = enc_bool(sp.is_primary);
    let l2 = ",\"line_start\":"@;
    let b = enc_dec(sp.line_start);
    let l3 = ",\"line_end\":"@;
    let c = enc_dec(sp.line_end);
    let l4 = ",\"column_start\":"@;
    let d = enc_dec(sp.column_start);
    let l5 = ",\"column_end\":"@;
    let e = enc_dec(sp.column_end);
    let l6 = ",\"label\":"@;
    let f = enc_label(sp.label);
    let l7 = "}"@;
    let q12 = l1 + a + l2 + b + l3 + c + l4 + d + l5 + e + l6 + f;
    let q11 = l1 + a + l2 + b + l3 + c + l4 + d + l5 + e + l6;
    let q10 = l1 + a + l2 + b + l3 + c + l4 + d + l5 + e;
    let q9 = l1 + a + l2 + b + l3 + c + l4 + d + l5;
    let q8 = l1 + a + l2 + b + l3 + c + l4 + d;
    let q7 = l1 + a + l2 + b + l3 + c + l4;
    let q6 = l1 + a + l2 + b + l3 + c;
    let q5 = l1 + a + l2 + b + l3;
    let q4 = l1 + a + l2 + b;
    let q3 = l1 + a + l2;
    let q2 = l1 + a;
    lemma_split(s, i, q12, l7);
    lemma_split(s, i, q11, f);
    lemma_split(s, i, q10, l6);
    lemma_split(s, i, q9, e);
    lemma_split(s, i, q8, l5);
    lemma_split(s, i, q7, d);
    lemma_split(s, i, q6, l4);
    lemma_split(s, i, q5, c);
    lemma_split(s, i, q4, l3);
    lemma_split(s, i, q3, b);
    lemma_split(s, i, q2, l2);
    lemma_split(s, i, l1, a);
    lemma_rt_bool(s, i + l1.len(), sp.is_primary);
    assert(s[i + q3.len()] == s.subrange(i + q3.len(), i + q4.len())[0]);
    assert(!is_digit(s[i + q4.len()])) by {
        assert(s[i + q4.len()] == s.subrange(i + q4.len(), i + q5.len())[0]);
    }
    lemma_rt_usize(s, i + q3.len(), sp.line_start);
    assert(!is_digit(s[i + q6.len()])) by {
        assert(s[i + q6.len()] == s.subrange(i + q6.len(), i + q7.len())[0]);
    }
    lemma_rt_usize(s, i + q5.len(), sp.line_end);
    assert(!is_digit(s[i + q8.len()])) by {
        assert(s[i + q8.len()] == s.subrange(i + q8.len(), i + q9.len())[0]);
    }
    lemma_rt_usize(s, i + q7.len(), sp.column_start);
    assert(!is_digit(s[i + q10.len()])) by {
        assert(s[i + q10.len()] == s.subrange(i + q10.len(), i + q11.len())[0]);
    }
    lemma_rt_usize(s, i + q9.len(), sp.column_end);
    lemma_rt_label(s, i + q11.len(), sp.label);
    assert(sp_span(s, i) == Some((sp, i + enc_span(sp).len())));
}

/// Reading back the encoded spans after the first, with the closing
/// bracket, yields them.
proof fn lemma_rt_span_tail(s: Seq<char>, i: int, sps: Seq<SpanModel>)
    requires
        forall|t: int| 0 <= t < sps.len() ==> (#[trigger] sps[t]).wf(),
        0 <= i,
        i + enc_span_tail(sps).len() + 1 <= s.len(),
        s.subrange(i, i + enc_span_tail(sps).len() + 1) == enc_span_tail(sps) + seq![']'],
    ensures
        sp_span_tail(s, i) == Some((sps, i + enc_span_tail(sps).len() + 1)),
    decreases sps.len(),
{
    reveal_strlit(",");
    if sps.len() == 0 {
        assert(s[i] == s.subrange(i, i + 1)[0]);
        assert(s[i] == ']');
        assert(sps =~= Seq::<SpanModel>::empty());
    } else {
        let sp0 = sps[0];
        let rest = sps.drop_first();
        let x = enc_span(sp0) + (enc_span_tail(rest) + seq![']']);
        assert((","@ + enc_span(sp0) + enc_span_tail(rest)) + seq![']'] =~= ","@ + x);
        assert(s.subrange(i, i + ","@.len() + x.len()) == ","@ + x);
        lemma_split(s, i, ","@, x);
        assert(s[i] == s.subrange(i, i + 1)[0]);
        assert(s[i] == ',');
        lemma_split(s, i + 1, enc_span(sp0), enc_span_tail(rest) + seq![']']);
        lemma_rt_span(s, i + 1, sp0);
        let j = i + 1 + enc_span(sp0).len();
        assert forall|t: int| 0 <= t < rest.len() implies (#[trigger] rest[t]).wf() by {
            assert(rest[t] == sps[t + 1]);
        }
        lemma_rt_span_tail(s, j, rest);
        assert(seq![sp0] + rest =~= sps);
    }
}

/// Reading back an encoded span sequence yields it.
#[verifier::rlimit(100)]
proof fn lemma_rt_spans(s: Seq<char>, i: int, sps: Seq<SpanModel>)
    requires
        forall|t: int| 0 <= t < sps.len() ==> (#[trigger] sps[t]).wf(),
        0 <= i,
        i + enc_spans(sps).len() <= s.len(),
        s.subrange(i, i + enc_spans(sps).len()) == enc_spans(sps),
    ensures
        sp_spans(s, i) == Some((sps, i + enc_spans(sps).len())),
{
    reveal_strlit("[]");
    reveal_strlit("[");
    reveal_strlit("]");
    reveal_strlit("{\"is_primary\":");
    if sps.len() == 0 {
        assert(s[i] == s.subrange(i, i + 2)[0]);
        assert(s[i + 1] == s.subrange(i, i + 2)[1]);
        assert(s[i] == '[' && s[i + 1] == ']');
        assert(sps =~= Seq::<SpanModel>::empty());
    } else {
        let sp0 = sps[0];
        let rest = sps.drop_first();
        assert("]"@ =~= seq![']']);
        let x = enc_span(sp0) + (enc_span_tail(rest) + seq![']']);
        assert(("["@ + enc_span(sp0) + enc_span_tail(rest)) + "]"@ =~= "["@ + x);
        assert(s.subrange(i, i + "["@.len() + x.len()) == "["@ + x);
        lemma_split(s, i, "["@, x);
        assert(s[i] == s.subrange(i, i + 1)[0]);
        assert(s[i] == '[');
        lemma_split(s, i + 1, enc_span(sp0), enc_span_tail(rest) + seq![']']);
        lemma_rt_span(s, i + 1, sp0);
        assert(s[i + 1] == s.subrange(i + 1, i + 1 + enc_span(sp0).len())[0]);
        assert(s[i + 1] == '{');
        let j = i + 1 + enc_span(sp0).len();
        assert forall|t: int| 0 <= t < rest.len() implies (#[trigger] rest[t]).wf() by {
            assert(rest[t] == sps[t + 1]);
        }
        lemma_rt_span_tail(s, j, rest);
        assert(seq![sp0] + rest =~= sps);
    }
}

/// Reading back an encoded diagnostic yields it.
#[verifier::rlimit(100)]
proof fn lemma_rt_diag(s: Seq<char>, i: int, d: DiagModel)
    requires
        d.wf(),
        0 <= i,
        i + enc_diag(d).len() <= s.len(),
        s.subrange(i, i + enc_diag(d).len()) == enc_diag(d),
    ensures
        sp_diag(s, i) == Some((d, i + enc_diag(d).len())),
{
    let l1 = "{\"target_crate\":"@;
    let a = enc_str(d.target_crate);
    let l2 = ",\"level\":"@;
    let b = enc_level(d.level);
    let l3 = ",\"message\":"@;
    let c = enc_str(d.message);
    let l4 = ",\"spans\":"@;
    let e = enc_spans(d.spans);
    let l5 = "}"@;
    let q8 = l1 + a + l2 + b + l3 + c + l4 + e;
    let q7 = l1 + a + l2 + b + l3 + c + l4;
    let q6 = l1 + a + l2 + b + l3 + c;
    let q5 = l1 + a + l2 + b + l3;
    let q4 = l1 + a + l2 + b;
    let q3 = l1 + a + l2;
    let q2 = l1 + a;
    lemma_split(s, i, q8, l5);
    lemma_split(s, i, q7, e);
    lemma_split(s, i, q6, l4);
    lemma_split(s, i, q5, c);
    lemma_split(s, i, q4, l3);
    lemma_split(s, i, q3, b);
    lemma_split(s, i, q2, l2);
    lemma_split(s, i, l1, a);
    lemma_rt_str(s, i + l1.len(), d.target_crate);
    lemma_rt_level(s, i + q3.len(), d.level);
    lemma_rt_str(s, i + q5.len(), d.message);
    lemma_rt_spans(s, i + q7.len(), d.spans);
    assert(sp_diag(s, i) == Some((d, i + enc_diag(d).len())));
}

/// Reading back an encoded build stage yields it.
proof fn lemma_rt_stage(s: Seq<char>, i: int, st: StageModel)
    requires
        st.wf(),
        0 <= i,
        i + enc_stage(st).len() <= s.len(),
        s.subrange(i, i + enc_stage(st).len()) == enc_stage(st),
    ensures
        sp_stage(s, i) == Some((st, i + enc_stage(st).len())),
{
    reveal_strlit("\"RunningBindgen\"");
    reveal_strlit("\"Other\"");
    reveal_strlit("{\"Compiling\":{\"crates_compiled\":");
    reveal_strlit(",\"total_crates\":");
    reveal_strlit(",\"current_crate\":");
    match st {
        StageModel::RunningBindgen => {
            assert(sp_lit(s, i, "\"RunningBindgen\""@) == Some(i + 16));
        },
        StageModel::Other => {
            assert(s[i + 1] == s.subrange(i, i + 7)[1]);
            lemma_lit_mismatch(s, i, "\"RunningBindgen\""@, 1);
            assert(sp_lit(s, i, "\"Other\""@) == Some(i + 7));
        },
        StageModel::Compiling { crates_compiled: cc, total_crates: tc, current_crate: name } => {
            let l1 = "{\"Compiling\":{\"crates_compiled\":"@;
            let a = enc_dec(cc);
            let l2 = ",\"total_crates\":"@;
            let b = enc_dec(tc);
            let l3 = ",\"current_crate\":"@;
            let c = enc_str(name);
            let l4 = "}}"@;
            let q6 = l1 + a + l2 + b + l3 + c;
            let q5 = l1 + a + l2 + b + l3;
            let q4 = l1 + a + l2 + b;
            let q3 = l1 + a + l2;
            let q2 = l1 + a;
            lemma_split(s, i, q6, l4);
            lemma_split(s, i, q5, c);
            lemma_split(s, i, q4, l3);
            lemma_split(s, i, q3, b);
            lemma_split(s, i, q2, l2);
            lemma_split(s, i, l1, a);
            assert(s[i] == s.subrange(i, i + l1.len())[0]);
            lemma_lit_mismatch(s, i, "\"RunningBindgen\""@, 0);
            lemma_lit_mismatch(s, i, "\"Other\""@, 0);
            assert(!is_digit(s[i + q2.len()])) by {
                assert(s[i + q2.len()] == s.subrange(i + q2.len(), i + q3.len())[0]);
            }
            lemma_rt_usize(s, i + l1.len(), cc);
            assert(!is_digit(s[i + q4.len()])) by {
                assert(s[i + q4.len()] == s.subrange(i + q4.len(), i + q5.len())[0]);
            }
            lemma_rt_usize(s, i + q3.len(), tc);
            lemma_rt_str(s, i + q5.len(), name);
            assert(sp_stage(s, i) == Some((st, i + enc_stage(st).len())));
        },
    }
}

/// Reading back an encoded build result yields it.
proof fn lemma_rt_result(s: Seq<char>, i: int, r: Result<Seq<u8>, Seq<char>>)
    requires
        r matches Ok(id) ==> id.len() == 16,
        0 <= i,
        i + crate::wire::enc_result(r).len() <= s.len(),
        s.subrange(i, i + crate::wire::enc_result(r).len()) == crate::wire::enc_result(r),
    ensures
        crate::reader::sp_result(s, i) == Some((r, i + crate::wire::enc_result(r).len())),
{
    reveal_strlit("{\"Ok\":\"");
    reveal_strlit("{\"Err\":");
    reveal_strlit("\"}");
    reveal_strlit("}");
    match r {
        Ok(id) => {
            let l1 = "{\"Ok\":\""@;
            let a = enc_uuid(id);
            let l2 = "\"}"@;
            let q2 = l1 + a;
            lemma_split(s, i, q2, l2);
            lemma_split(s, i, l1, a);
            lemma_rt_uuid(s, i + l1.len(), id);
            assert(crate::reader::sp_result(s, i) == Some(
                (Ok::<Seq<u8>, Seq<char>>(id), i + crate::wire::enc_result(r).len()),
            ));
        },
        Err(m) => {
            let l1 = "{\"Err\":"@;
            let a = enc_str(m);
            let l2 = "}"@;
            let q2 = l1 + a;
            lemma_split(s, i, q2, l2);
            lemma_split(s, i, l1, a);
            assert(s[i + 2] == s.subrange(i, i + l1.len())[2]);
            lemma_lit_mismatch(s, i, "{\"Ok\":\""@, 2);
            lemma_rt_str(s, i + l1.len(), m);
            assert(crate::reader::sp_result(s, i) == Some(
                (Err::<Seq<u8>, Seq<char>>(m), i + crate::wire::enc_result(r).len()),
            ));
        },
    }
}

/// Reading back one encoded message frame yields it.
#[verifier::rlimit(100)]
proof fn lemma_rt_msg(s: Seq<char>, i: int, m: MsgModel)
    requires
        m.wf(),
        0 <= i,
        i + crate::wire::enc_msg(m).len() <= s.len(),
        s.subrange(i, i + crate::wire::enc_msg(m).len()) == crate::wire::enc_msg(m),
    ensures
        crate::reader::sp_msg(s, i) == Some((m, i + crate::wire::enc_msg(m).len())),
{
    reveal_strlit("{\"BuildRequest\":");
    reveal_strlit("{\"BuildFinished\":");
    reveal_strlit("{\"BuildStage\":");
    reveal_strlit("{\"BuildDiagnostic\":");
    reveal_strlit("{\"QueuePosition\":");
    reveal_strlit("\"AlreadyConnected\"");
    reveal_strlit("}");
    let total = crate::wire::enc_msg(m).len();
    match m {
        MsgModel::BuildRequest(t) => {
            let l1 = "{\"BuildRequest\":"@;
            let a = enc_str(t);
            let l2 = "}"@;
            lemma_split(s, i, l1 + a, l2);
            lemma_split(s, i, l1, a);
            lemma_rt_str(s, i + l1.len(), t);
            assert(crate::reader::sp_msg(s, i) == Some((m, i + total)));
        },
        MsgModel::BuildFinished(r) => {
            let l1 = "{\"BuildFinished\":"@;
            let a = crate::wire::enc_result(r);
            let l2 = "}"@;
            lemma_split(s, i, l1 + a, l2);
            lemma_split(s, i, l1, a);
            assert(s[i + 7] == s.subrange(i, i + l1.len())[7]);
            lemma_lit_mismatch(s, i, "{\"BuildRequest\":"@, 7);
            lemma_rt_result(s, i + l1.len(), r);
            assert(crate::reader::sp_msg(s, i) == Some((m, i + total)));
        },
        MsgModel::BuildStage(st) => {
            let l1 = "{\"BuildStage\":"@;
            let a = crate::wire::enc_stage(st);
            let l2 = "}"@;
            lemma_split(s, i, l1 + a, l2);
            lemma_split(s, i, l1, a);
            assert(s[i + 7] == s.subrange(i, i + l1.len())[7]);
            lemma_lit_mismatch(s, i, "{\"BuildRequest\":"@, 7);
            lemma_lit_mismatch(s, i, "{\"BuildFinished\":"@, 7);
            lemma_rt_stage(s, i + l1.len(), st);
            assert(crate::reader::sp_msg(s, i) == Some((m, i + total)));
        },
        MsgModel::BuildDiagnostic(d) => {
            let l1 = "{\"BuildDiagnostic\":"@;
            let a = enc_diag(d);
            let l2 = "}"@;
            lemma_split(s, i, l1 + a, l2);
            lemma_split(s, i, l1, a);
            assert(s[i + 7] == s.subrange(i, i + l1.len())[7]);
            lemma_lit_mismatch(s, i, "{\"BuildRequest\":"@, 7);
            lemma_lit_mismatch(s, i, "{\"BuildFinished\":"@, 7);
            lemma_lit_mismatch(s, i, "{\"BuildStage\":"@, 7);
            lemma_rt_diag(s, i + l1.len(), d);
            assert(crate::reader::sp_msg(s, i) == Some((m, i + total)));
        },
        MsgModel::QueuePosition(n) => {
            let l1 = "{\"QueuePosition\":"@;
            let a = enc_dec(n);
            let l2 = "}"@;
            lemma_split(s, i, l1 + a, l2);
            lemma_split(s, i, l1, a);
            assert(s[i + 2] == s.subrange(i, i + l1.len())[2]);
            lemma_lit_mismatch(s, i, "{\"BuildRequest\":"@, 2);
            lemma_lit_mismatch(s, i, "{\"BuildFinished\":"@, 2);
            lemma_lit_mismatch(s, i, "{\"BuildStage\":"@, 2);
            lemma_lit_mismatch(s, i, "{\"BuildDiagnostic\":"@, 2);
            assert(!is_digit(s[i + (l1 + a).len()])) by {
                assert(s[i + (l1 + a).len()] == s.subrange(i + (l1 + a).len(), i + total)[0]);
            }
            lemma_rt_usize(s, i + l1.len(), n);
            assert(crate::reader::sp_msg(s, i) == Some((m, i + total)));
        },
        MsgModel::AlreadyConnected => {
            let l1 = "\"AlreadyConnected\""@;
            assert(s[i] == s.subrange(i, i + l1.len())[0]);
            lemma_lit_mismatch(s, i, "{\"BuildRequest\":"@, 0);
            lemma_lit_mismatch(s, i, "{\"BuildFinished\":"@, 0);
            lemma_lit_mismatch(s, i, "{\"BuildStage\":"@, 0);
            lemma_lit_mismatch(s, i, "{\"BuildDiagnostic\":"@, 0);
            lemma_lit_mismatch(s, i, "{\"QueuePosition\":"@, 0);
            assert(sp_lit(s, i, l1) == Some(i + l1.len()));
            assert(crate::reader::sp_msg(s, i) == Some((m, i + total)));
        },
    }
}

/// The round-trip law: decoding the encoding of any well-formed message
/// model yields exactly that model — for all six variants, both arms of
/// the embedded build result included.
pub proof fn lemma_round_trip(m: MsgModel)
    requires
        m.wf(),
    ensures
        crate::reader::sp_msg_full(crate::wire::enc_msg(m)) == Some(m),
{
    let s = crate::wire::enc_msg(m);
    assert(s.subrange(0, s.len() as int) =~= s);
    lemma_rt_msg(s, 0, m);
}

} // verus!
