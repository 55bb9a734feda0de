//! The torrent manager's texts: data sizes, the summary of all transfers, and each row's state.
use vstd::prelude::*;
use crate::text::{chars_of, decimal, decimal_chars, digit_char, extend_chars, same_chars, string_of};

verus! {

/// `n / d` rounded to the nearest whole number, ties to the even one.
pub open spec fn round_half_even(n: nat, d: nat) -> nat
    recommends
        d > 0,
{
    let q = n / d;
    let r = n % d;
    if 2 * r > d || (2 * r == d && q % 2 == 1) {
        q + 1
    } else {
        q
    }
}

/// The spacing of 64-bit floating-point numbers around `v`, found by doubling `p` from a
/// spacing of one at most `11 - k` more times: the smallest power of two `p` with
/// `v < 2^53 · p`.
pub open spec fn float_spacing(v: nat, p: nat, k: nat) -> nat
    decreases 11 - k,
{
    if k >= 11 || v < 9_007_199_254_740_992 * p {
        p
    } else {
        float_spacing(v, 2 * p, k + 1)
    }
}

/// `v` as the nearest 64-bit floating-point number, ties to an even significand, as an `as`
/// conversion gives it; below 2^53 every whole number is kept exactly.
pub open spec fn as_float(v: nat) -> nat {
    let p = float_spacing(v, 1, 0);
    round_half_even(v, p) * p
}

/// Whole numbers below 2^53 convert to floating point exactly.
pub proof fn lemma_small_floats_exact(v: nat)
    requires
        v < 9_007_199_254_740_992,
    ensures
        as_float(v) == v,
{
    assert(float_spacing(v, 1, 0) == 1);
    assert(v / 1 == v && v % 1 == 0) by (nonlinear_arith);
}

/// Converting to floating point moves a value by less than 2048 downwards: the spacing of
/// doubles below 2^64 is at most 2048, and rounding to the nearest multiple does not go below
/// the multiple under the value.
pub proof fn lemma_float_close(v: nat)
    ensures
        as_float(v) + 2048 >= v,
{
    let sp = float_spacing(v, 1, 0);
    assert(sp == 1 || sp == 2 || sp == 4 || sp == 8 || sp == 16 || sp == 32 || sp == 64 || sp == 128
        || sp == 256 || sp == 512 || sp == 1024 || sp == 2048) by {
        reveal_with_fuel(float_spacing, 12);
    }
    vstd::arithmetic::div_mod::lemma_fundamental_div_mod(v as int, sp as int);
    let q = v / sp;
    assert(round_half_even(v, sp) >= q);
    assert(round_half_even(v, sp) * sp >= q * sp) by (nonlinear_arith)
        requires round_half_even(v, sp) >= q, sp >= 1;
}

/// A data size as the torrent manager writes it: whole KiB below one MiB, else MiB or GiB
/// with one decimal, rounded as `{:.1}` rounds the floating-point quotient.
pub open spec fn size_text(v: u64) -> Seq<char> {
    if v >= 1_073_741_824 {
        let t = round_half_even(as_float(v as nat) * 10, 1_073_741_824);
        decimal(t / 10) + "."@ + seq![digit_char(t % 10)] + " GiB"@
    } else if v >= 1_048_576 {
        let t = round_half_even(v as nat * 10, 1_048_576);
        decimal(t / 10) + "."@ + seq![digit_char(t % 10)] + " MiB"@
    } else {
        decimal(round_half_even(v as nat, 1024)) + " KiB"@
    }
}

fn rounded(n: u128, d: u128) -> (r: u128)
    requires
        d > 0,
        n < u128::MAX / 2,
        d < u128::MAX / 2,
    ensures
        r == round_half_even(n as nat, d as nat),
        r <= n / d + 1,
{
    let q = n / d;
    let r = n % d;
    if 2 * r > d || (2 * r == d && q % 2 == 1) {
        q + 1
    } else {
        q
    }
}

pub(crate) fn float_value(v: u64) -> (f: u128)
    ensures
        f == as_float(v as nat),
        f <= 18_446_744_073_709_551_616,
{
    let mut p: u128 = 1;
    let mut k: u32 = 0;
    proof {
        vstd::arithmetic::power2::lemma2_to64();
    }
    while k < 11 && (v as u128) >= 9_007_199_254_740_992 * p
        invariant
            k <= 11,
            1 <= p <= 2048,
            p == vstd::arithmetic::power2::pow2(k as nat),
            float_spacing(v as nat, 1, 0) == float_spacing(v as nat, p as nat, k as nat),
        decreases 11 - k,
    {
        proof {
            vstd::arithmetic::power2::lemma_pow2_unfold((k + 1) as nat);
            vstd::arithmetic::power2::lemma2_to64();
            if k + 1 < 11 {
                vstd::arithmetic::power2::lemma_pow2_strictly_increases((k + 1) as nat, 11);
            }
        }
        p = p * 2;
        k = k + 1;
    }
    assert(v < 9_007_199_254_740_992 * p) by {
        if k == 11 {
            vstd::arithmetic::power2::lemma2_to64();
        }
    }
    let q = rounded(v as u128, p);
    assert((v as u128) / p < 9_007_199_254_740_992) by (nonlinear_arith)
        requires
            v < 9_007_199_254_740_992 * p,
            p >= 1,
    ;
    assert(q * p <= 9_007_199_254_740_992 * 2048) by (nonlinear_arith)
        requires
            q <= 9_007_199_254_740_992,
            1 <= p <= 2048,
    ;
    q * p
}

/// Write a data size for the torrent manager.
pub fn bytes(value: u64) -> (r: String)
    ensures
        r@ == size_text(value),
{
    let (t, unit) = if value >= 1_073_741_824 {
        let f = float_value(value);
        proof {
            vstd::arithmetic::div_mod::lemma_div_is_ordered((f * 10) as int, 184_467_440_737_095_516_160, 1_073_741_824);
        }
        (rounded(f * 10, 1_073_741_824), " GiB")
    } else if value >= 1_048_576 {
        proof {
            vstd::arithmetic::div_mod::lemma_div_is_ordered((value * 10) as int, 10_737_418_240, 1_048_576);
        }
        (rounded(value as u128 * 10, 1_048_576), " MiB")
    } else {
        proof {
            vstd::arithmetic::div_mod::lemma_div_is_ordered(value as int, 1_048_576, 1024);
        }
        (rounded(value as u128, 1024), " KiB")
    };
    assert(t <= 171_798_691_841);
    proof {
        reveal_strlit(".");
    }
    let mut out: Vec<char> = Vec::new();
    if value >= 1_048_576 {
        let whole = (t / 10) as u64;
        out = decimal_chars(whole);
        out.push('.');
        let d = (t % 10) as u64;
        out.push(digit(d));
    } else {
        out = decimal_chars(t as u64);
    }
    extend_chars(&mut out, chars_of(unit).as_slice());
    string_of(out.as_slice())
}

fn digit(d: u64) -> (c: char)
    requires
        d < 10,
    ensures
        c == digit_char(d as nat),
{
    ((d as u8) + 48) as char
}

/// The summary above the torrent list: how many torrents, how many downloading, how many
/// seeding.
pub open spec fn count_state(states: Seq<String>, state: Seq<char>) -> nat
    decreases states.len(),
{
    if states.len() == 0 {
        0
    } else {
        count_state(states.drop_last(), state) + if states.last()@ == state { 1nat } else { 0nat }
    }
}

/// The summary of the torrents in the given states.
pub fn transfer_summary(states: &Vec<String>) -> (r: String)
    ensures
        r@ == decimal(states@.len()) + " torrents · "@ + decimal(count_state(states@, "Downloading"@))
            + " downloading · "@ + decimal(count_state(states@, "Seeding"@)) + " seeding"@,
{
    let mut active: u64 = 0;
    let mut seeding: u64 = 0;
    let mut i: usize = 0;
    while i < states.len()
        invariant
            i <= states@.len(),
            active == count_state(states@.subrange(0, i as int), "Downloading"@),
            seeding == count_state(states@.subrange(0, i as int), "Seeding"@),
            active <= i,
            seeding <= i,
        decreases states@.len() - i,
    {
        assert(states@.subrange(0, i + 1).drop_last() =~= states@.subrange(0, i as int));
        let s = chars_of(states[i].as_str());
        if same_chars(s.as_slice(), "Downloading") {
            active = active + 1;
        }
        if same_chars(s.as_slice(), "Seeding") {
            seeding = seeding + 1;
        }
        i = i + 1;
    }
    assert(states@.subrange(0, states@.len() as int) =~= states@);
    let mut out = decimal_chars(states.len() as u64);
    extend_chars(&mut out, chars_of(" torrents · ").as_slice());
    extend_chars(&mut out, decimal_chars(active).as_slice());
    extend_chars(&mut out, chars_of(" downloading · ").as_slice());
    extend_chars(&mut out, decimal_chars(seeding).as_slice());
    extend_chars(&mut out, chars_of(" seeding").as_slice());
    string_of(out.as_slice())
}

/// How a torrent row shows its state.
#[derive(Clone, Copy, Debug, PartialEq, Eq)]
pub struct RowState {
    pub paused: bool,
    pub seeding: bool,
    pub failed: bool,
    /// The icon of the pause button.
    pub icon: &'static str,
    /// What the pause button does.
    pub action: &'static str,
}

/// The row state for a torrent state name: paused torrents offer to resume, others to pause.
pub fn row_state(state: &str) -> (r: RowState)
    ensures
        r.paused == (state@ == "Paused"@),
        r.seeding == (state@ == "Seeding"@),
        r.failed == (state@ == "Error"@),
        r.icon@ == if state@ == "Paused"@ { "media-playback-start-symbolic"@ } else { "media-playback-pause-symbolic"@ },
        r.action@ == if state@ == "Paused"@ { "Resume torrent"@ } else { "Pause torrent"@ },
{
    let s = chars_of(state);
    let paused = same_chars(s.as_slice(), "Paused");
    RowState {
        paused,
        seeding: same_chars(s.as_slice(), "Seeding"),
        failed: same_chars(s.as_slice(), "Error"),
        icon: if paused { "media-playback-start-symbolic" } else { "media-playback-pause-symbolic" },
        action: if paused { "Resume torrent" } else { "Pause torrent" },
    }
}

} // verus!
