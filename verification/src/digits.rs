//! Facts about digit runs, decimal values, and hexadecimal digits that tie
//! the two directions of the wire grammar together.

use vstd::prelude::*;

use crate::reader::dec_val;
use crate::reader::dig_val;
use crate::reader::digit_run_end;
use crate::reader::hex_val;
use crate::reader::is_digit;
use crate::reader::is_hex_lc;
use crate::wire::enc_dec;
use crate::wire::hex_char;

verus! {

/// Every character of a digit run is a digit, the run ends inside the text
/// or at its end, and the character after the run (if any) is not a digit.
pub proof fn lemma_digit_run(s: Seq<char>, i: int)
    requires
        0 <= i <= s.len(),
    ensures
        i <= digit_run_end(s, i) <= s.len(),
        forall|t: int| i <= t < digit_run_end(s, i) ==> is_digit(#[trigger] s[t]),
        digit_run_end(s, i) < s.len() ==> !is_digit(s[digit_run_end(s, i)]),
    decreases s.len() - i,
{
    if i < s.len() && is_digit(s[i]) {
        lemma_digit_run(s, i + 1);
    }
}

/// A digit run that is followed by a non-digit ends exactly there.
pub proof fn lemma_run_end_eq(s: Seq<char>, i: int, e: int)
    requires
        0 <= i <= e <= s.len(),
        forall|t: int| i <= t < e ==> is_digit(#[trigger] s[t]),
        e == s.len() || !is_digit(s[e]),
    ensures
        digit_run_end(s, i) == e,
    decreases e - i,
{
    if i < e {
        assert(is_digit(s[i]));
        lemma_run_end_eq(s, i + 1, e);
    }
}

/// The value of an all-digit sequence is non-negative.
pub proof fn lemma_dec_val_nonneg(ds: Seq<char>)
    requires
        forall|t: int| 0 <= t < ds.len() ==> is_digit(#[trigger] ds[t]),
    ensures
        dec_val(ds) >= 0,
    decreases ds.len(),
{
    if ds.len() > 0 {
        lemma_dec_val_nonneg(ds.drop_last());
    }
}

/// A prefix of an all-digit sequence is worth no more than the whole.
pub proof fn lemma_dec_val_prefix_le(ds: Seq<char>, m: int)
    requires
        forall|t: int| 0 <= t < ds.len() ==> is_digit(#[trigger] ds[t]),
        0 <= m <= ds.len(),
    ensures
        dec_val(ds.subrange(0, m)) <= dec_val(ds),
    decreases ds.len() - m,
{
    if m == ds.len() {
        assert(ds.subrange(0, m) =~= ds);
    } else {
        lemma_dec_val_prefix_le(ds, m + 1);
        let p = ds.subrange(0, m + 1);
        assert(p.drop_last() =~= ds.subrange(0, m));
        assert(p.last() == ds[m]);
        lemma_dec_val_nonneg(ds.subrange(0, m));
        assert(dec_val(ds.subrange(0, m)) <= dec_val(p));
    }
}

/// Every character of a decimal encoding is a digit.
pub proof fn lemma_enc_dec_digits(n: int)
    requires
        n >= 0,
    ensures
        enc_dec(n).len() >= 1,
        forall|t: int| 0 <= t < enc_dec(n).len() ==> is_digit(#[trigger] enc_dec(n)[t]),
    decreases n,
{
    if n < 10 {
        assert(is_digit(enc_dec(n)[0]));
    } else {
        lemma_enc_dec_digits(n / 10);
        assert forall|t: int| 0 <= t < enc_dec(n).len() implies is_digit(
            #[trigger] enc_dec(n)[t],
        ) by {
            if t < enc_dec(n / 10).len() {
                assert(enc_dec(n)[t] == enc_dec(n / 10)[t]);
            } else {
                assert(enc_dec(n)[t] == hex_char(n % 10));
            }
        }
    }
}

/// A positive number's decimal encoding does not start with a zero.
pub proof fn lemma_enc_dec_first_nonzero(n: int)
    requires
        n >= 1,
    ensures
        enc_dec(n)[0] != '0',
    decreases n,
{
    if n >= 10 {
        lemma_enc_dec_first_nonzero(n / 10);
        assert(enc_dec(n)[0] == enc_dec(n / 10)[0]);
    }
}

/// Reading back a decimal encoding yields the encoded number.
pub proof fn lemma_dec_val_enc_dec(n: int)
    requires
        n >= 0,
    ensures
        dec_val(enc_dec(n)) == n,
    decreases n,
{
    if n < 10 {
        assert(enc_dec(n).drop_last() =~= Seq::<char>::empty());
        assert(enc_dec(n).last() == hex_char(n));
        assert(dec_val(Seq::<char>::empty()) == 0);
        assert(dig_val(hex_char(n)) == n);
        assert(dec_val(enc_dec(n)) == dec_val(enc_dec(n).drop_last()) * 10 + dig_val(
            enc_dec(n).last(),
        ));
    } else {
        lemma_dec_val_enc_dec(n / 10);
        let whole = enc_dec(n / 10) + seq![hex_char(n % 10)];
        assert(whole.drop_last() =~= enc_dec(n / 10));
        assert(whole.last() == hex_char(n % 10));
        assert(dig_val(hex_char(n % 10)) == n % 10);
        assert(dec_val(whole) == (n / 10) * 10 + n % 10);
    }
}

/// The hexadecimal digit characters read back as their values.
pub proof fn lemma_hex_char_val(v: int)
    requires
        0 <= v < 16,
    ensures
        is_hex_lc(hex_char(v)),
        hex_val(hex_char(v)) == v,
{
}

} // verus!
