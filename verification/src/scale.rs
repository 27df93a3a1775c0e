//! Exact decimal scaling of raw amounts: the text of `amount / 10^decimals`.

use vstd::prelude::*;

use crate::token::{hex_digit_char, Amount};

verus! {

/// `10^n`.
pub open spec fn pow10(n: nat) -> nat
    decreases n,
{
    if n == 0 {
        1
    } else {
        10 * pow10((n - 1) as nat)
    }
}

/// The decimal digits of `n`, most significant first, `"0"` for zero.
pub open spec fn dec_chars(n: nat) -> Seq<char>
    decreases n,
{
    if n < 10 {
        seq![hex_digit_char(n)]
    } else {
        dec_chars(n / 10) + seq![hex_digit_char(n % 10)]
    }
}

/// The numeric worth of one decimal digit character.
pub open spec fn digit_val(c: char) -> nat {
    if c == '0' {
        0
    } else if c == '1' {
        1
    } else if c == '2' {
        2
    } else if c == '3' {
        3
    } else if c == '4' {
        4
    } else if c == '5' {
        5
    } else if c == '6' {
        6
    } else if c == '7' {
        7
    } else if c == '8' {
        8
    } else {
        9
    }
}

/// The number a sequence of decimal digit characters denotes.
pub open spec fn dec_val(s: Seq<char>) -> nat
    decreases s.len(),
{
    if s.len() == 0 {
        0
    } else {
        dec_val(s.drop_last()) * 10 + digit_val(s.last())
    }
}

/// `s` left-padded with `'0'` to at least `width` characters.
pub open spec fn pad_left_zeros(s: Seq<char>, width: nat) -> Seq<char> {
    if s.len() >= width {
        s
    } else {
        Seq::new((width - s.len()) as nat, |i: int| '0') + s
    }
}

/// The decimal text of `amount / 10^decimals`, full precision: the digits of
/// the integer part, a separator, and the digits of the remainder left-padded
/// with zeros to `decimals` places.
pub open spec fn scaled_chars(amount: nat, decimals: nat) -> Seq<char> {
    dec_chars(amount / pow10(decimals)) + seq!['.'] + pad_left_zeros(
        dec_chars(amount % pow10(decimals)),
        decimals,
    )
}

/// The largest exponent the scaler supports: `10^78` no longer fits the
/// 256-bit intermediate, and the formatter refuses it.
pub const MAX_SCALE_DECIMALS: u32 = 77;

/// Relies on `ethers_core::utils::format_units` (with `U256` amounts and a
/// plain `u32` exponent below 78): it returns `Ok` of the decimal digits of
/// `amount / 10^decimals`, then `'.'`, then the digits of
/// `amount mod 10^decimals` left-padded with `'0'` to `decimals` places.
#[verifier::external_body]
fn format_units_exec(amount: &Amount, decimals: u32) -> (r: String)
    requires
        decimals <= MAX_SCALE_DECIMALS,
    ensures
        r@ == scaled_chars(amount@, decimals as nat),
{
    let value = ethers_core::types::U256(amount.limbs);
    ethers_core::utils::format_units(value, decimals).unwrap()
}

/// Scale a raw amount down by `decimals` places, keeping full precision:
/// the returned text denotes exactly `amount / 10^decimals`.
pub fn scale(amount: &Amount, decimals: u32) -> (r: String)
    requires
        decimals <= MAX_SCALE_DECIMALS,
    ensures
        r@ == scaled_chars(amount@, decimals as nat),
{
    format_units_exec(amount, decimals)
}

/// Total form of [`scale`]: `None` exactly where the exponent is beyond the
/// supported range.
pub fn scale_checked(amount: &Amount, decimals: u32) -> (r: Option<String>)
    ensures
        decimals <= MAX_SCALE_DECIMALS ==> (r matches Some(s) && s@ == scaled_chars(
            amount@,
            decimals as nat,
        )),
        decimals > MAX_SCALE_DECIMALS ==> r is None,
{
    if decimals <= MAX_SCALE_DECIMALS {
        Some(scale(amount, decimals))
    } else {
        None
    }
}

/// `10^n` is positive.
pub proof fn lemma_pow10_pos(n: nat)
    ensures
        pow10(n) >= 1,
    decreases n,
{
    if n > 0 {
        lemma_pow10_pos((n - 1) as nat);
    }
}

/// Reading back the decimal digits of `n` yields `n`.
pub proof fn lemma_dec_val_of_dec_chars(n: nat)
    ensures
        dec_val(dec_chars(n)) == n,
    decreases n,
{
    if n < 10 {
        let s = seq![hex_digit_char(n)];
        assert(dec_chars(n) == s);
        assert(s.len() == 1);
        assert(s.last() == hex_digit_char(n));
        assert(s.drop_last() =~= Seq::<char>::empty());
        assert(dec_val(s.drop_last()) == 0);
        assert(dec_val(s) == dec_val(s.drop_last()) * 10 + digit_val(s.last()));
        assert(digit_val(hex_digit_char(n)) == n);
    } else {
        lemma_dec_val_of_dec_chars(n / 10);
        let s = dec_chars(n);
        assert(s.drop_last() =~= dec_chars(n / 10));
        assert(s.last() == hex_digit_char(n % 10));
        assert(digit_val(hex_digit_char(n % 10)) == n % 10);
    }
}

/// A leading zero does not change what the digits denote.
proof fn lemma_dec_val_prepend_zero(s: Seq<char>)
    ensures
        dec_val(seq!['0'] + s) == dec_val(s),
    decreases s.len(),
{
    let t = seq!['0'] + s;
    if s.len() == 0 {
        assert(t =~= seq!['0']);
        assert(t.last() == '0');
        assert(t.drop_last() =~= Seq::<char>::empty());
        assert(dec_val(t) == dec_val(t.drop_last()) * 10 + digit_val(t.last()));
    } else {
        lemma_dec_val_prepend_zero(s.drop_last());
        assert(t.drop_last() =~= seq!['0'] + s.drop_last());
        assert(t.last() == s.last());
        assert(dec_val(t) == dec_val(t.drop_last()) * 10 + digit_val(t.last()));
        assert(dec_val(s) == dec_val(s.drop_last()) * 10 + digit_val(s.last()));
    }
}

/// Zero-padding on the left does not change what the digits denote.
pub proof fn lemma_dec_val_pad(s: Seq<char>, width: nat)
    ensures
        dec_val(pad_left_zeros(s, width)) == dec_val(s),
    decreases width,
{
    if s.len() < width {
        lemma_dec_val_pad(s, (width - 1) as nat);
        assert(pad_left_zeros(s, width) =~= seq!['0'] + pad_left_zeros(s, (width - 1) as nat));
        lemma_dec_val_prepend_zero(pad_left_zeros(s, (width - 1) as nat));
    }
}

/// The scaled text of an amount denotes it exactly: the digits before the
/// separator are worth `amount / 10^decimals`, those after it
/// `amount mod 10^decimals`, and together they recover the amount whole.
pub proof fn lemma_scaled_value(amount: nat, decimals: nat)
    ensures
        dec_val(dec_chars(amount / pow10(decimals))) == amount / pow10(decimals),
        dec_val(pad_left_zeros(dec_chars(amount % pow10(decimals)), decimals)) == amount % pow10(
            decimals,
        ),
        dec_val(dec_chars(amount / pow10(decimals))) * pow10(decimals) + dec_val(
            pad_left_zeros(dec_chars(amount % pow10(decimals)), decimals),
        ) == amount,
{
    lemma_pow10_pos(decimals);
    let p = pow10(decimals);
    lemma_dec_val_of_dec_chars(amount / p);
    lemma_dec_val_of_dec_chars(amount % p);
    lemma_dec_val_pad(dec_chars(amount % p), decimals);
    vstd::arithmetic::div_mod::lemma_fundamental_div_mod(amount as int, p as int);
}

} // verus!
