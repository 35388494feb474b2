//! Token metering: a deterministic heuristic and a calibrated variant.
//!
//! The heuristic weighs an ASCII character at 0.28 token and any other
//! character (CJK and the like) at one token, plus one token of floor per
//! text, so Chinese text is never under-estimated by its byte length.
//! Arithmetic is integral: 0.28 is `7 / 25`.
use vstd::prelude::*;
use crate::text::chars_of;

verus! {

/// Number of ASCII characters in `s`.
pub open spec fn ascii_count(s: Seq<char>) -> nat
    decreases s.len(),
{
    if s.len() == 0 {
        0
    } else {
        ascii_count(s.drop_last()) + if (s.last() as u32) < 0x80 {
            1nat
        } else {
            0nat
        }
    }
}

pub proof fn lemma_ascii_count_le(s: Seq<char>)
    ensures
        ascii_count(s) <= s.len(),
    decreases s.len(),
{
    if s.len() > 0 {
        lemma_ascii_count_le(s.drop_last());
    }
}

/// Heuristic token estimate of `s`: `⌊7·ascii / 25⌋ + other + 1`.
pub open spec fn heuristic_tokens(s: Seq<char>) -> nat {
    (7 * ascii_count(s)) / 25 + (s.len() - ascii_count(s)) as nat + 1
}

/// Something that meters text in tokens.
pub trait Tokenizer {
    /// What `count` returns for the characters `s`.
    spec fn spec_count(&self, s: Seq<char>) -> nat;

    /// Token count of `v[lo..hi]`.
    fn count_range(&self, v: &Vec<char>, lo: usize, hi: usize) -> (n: usize)
        requires
            lo <= hi <= v.len(),
            v.len() <= isize::MAX,
        ensures
            n == self.spec_count(v@.subrange(lo as int, hi as int)),
    ;
}

/// Deterministic heuristic meter (no calibration state): the same text
/// always meters the same.
#[derive(Clone, Copy)]
pub struct HeuristicTokenizer;

/// ASCII and non-ASCII counts of `v[lo..hi]`.
fn split_counts(v: &Vec<char>, lo: usize, hi: usize) -> (r: (usize, usize))
    requires
        lo <= hi <= v.len(),
    ensures
        r.0 == ascii_count(v@.subrange(lo as int, hi as int)),
        r.0 + r.1 == hi - lo,
{
    let mut a: usize = 0;
    let mut i = lo;
    while i < hi
        invariant
            lo <= i <= hi <= v.len(),
            a == ascii_count(v@.subrange(lo as int, i as int)),
            a <= i - lo,
        decreases hi - i,
    {
        proof {
            assert(v@.subrange(lo as int, i + 1 as int).drop_last() =~= v@.subrange(
                lo as int,
                i as int,
            ));
        }
        if (v[i] as u32) < 0x80 {
            a = a + 1;
        }
        i = i + 1;
    }
    (a, (hi - lo) - a)
}

/// `⌊7·a / 25⌋` without overflow.
fn seven_twentyfifths(a: usize) -> (r: usize)
    ensures
        r == (7 * a) / 25,
        r <= a,
{
    let q = a / 25;
    let m = a % 25;
    proof {
        assert(a == 25 * q + m) by (nonlinear_arith)
            requires
                q == a / 25,
                m == a % 25,
        ;
        assert((7 * a) / 25 == 7 * q + (7 * m) / 25) by (nonlinear_arith)
            requires
                a == 25 * q + m,
                0 <= m < 25,
        ;
        assert(7 * q <= a - m) by (nonlinear_arith)
            requires
                a == 25 * q + m,
                q >= 0,
        ;
        assert((7 * m) / 25 <= m) by (nonlinear_arith)
            requires
                0 <= m < 25,
        ;
    }
    7 * q + (7 * m) / 25
}

impl Tokenizer for HeuristicTokenizer {
    open spec fn spec_count(&self, s: Seq<char>) -> nat {
        heuristic_tokens(s)
    }

    fn count_range(&self, v: &Vec<char>, lo: usize, hi: usize) -> (n: usize) {
        let (a, b) = split_counts(v, lo, hi);
        let w = seven_twentyfifths(a);
        // w + b <= hi - lo <= v.len(), so one more token of floor still fits
        w + b + 1
    }
}

impl HeuristicTokenizer {
    /// Token estimate of `text`.
    pub fn count(&self, text: &str) -> (n: usize)
        ensures
            n == heuristic_tokens(text@),
    {
        let v = chars_of(text);
        let n = self.count_range(&v, 0, v.len());
        proof {
            assert(v@.subrange(0, v@.len() as int) =~= text@);
        }
        n
    }
}

/// The process meter: the deterministic heuristic.
pub fn default_tokenizer() -> (t: HeuristicTokenizer)
    ensures
        t == HeuristicTokenizer,
{
    HeuristicTokenizer
}

/// A meter that has had no usage fed back (ratio one) counts exactly as the
/// heuristic does, so the process meter before any feedback is the
/// heuristic.
pub proof fn lemma_uncalibrated_is_heuristic(s: Seq<char>)
    requires
        heuristic_tokens(s) <= usize::MAX,
    ensures
        scaled(heuristic_tokens(s), 1000) == heuristic_tokens(s),
{
    let v = heuristic_tokens(s);
    assert(v * 1000 / 1000 == v) by (nonlinear_arith);
}

/// Lower and upper bounds of the calibration ratio, in thousandths.
pub const RATIO_MIN_PERMILLE: u64 = 250;
pub const RATIO_MAX_PERMILLE: u64 = 4000;

/// A heuristic meter scaled by a ratio learned from real usage.
///
/// `feedback` moves the ratio a quarter of the way toward `actual / raw`,
/// where `raw` is the **uncalibrated** estimate of the same text (feeding
/// back the calibrated count would converge to the square root of the
/// true ratio).
pub struct CalibratedTokenizer {
    ratio_permille: u64,
}

/// `v` scaled by a ratio in thousandths, capped to `usize::MAX`.
pub open spec fn scaled(v: nat, ratio_permille: nat) -> nat {
    let x = v * ratio_permille / 1000;
    if x > usize::MAX {
        usize::MAX as nat
    } else {
        x
    }
}

/// The calibration target `actual / raw` in thousandths, clamped.
pub open spec fn target_ratio(actual: nat, raw: nat) -> nat {
    let t = actual * 1000 / raw;
    if t < RATIO_MIN_PERMILLE {
        RATIO_MIN_PERMILLE as nat
    } else if t > RATIO_MAX_PERMILLE {
        RATIO_MAX_PERMILLE as nat
    } else {
        t
    }
}

/// The calibration target is the measured ratio `actual / raw` in
/// thousandths, held to the ratio bounds: inside them it is exactly that
/// quotient (so an over-estimate lowers the target below one and an
/// under-estimate does not lower it), below them the lower bound, above them
/// the upper bound.
pub proof fn lemma_target_is_measured_ratio(actual: nat, raw: nat)
    requires
        raw > 0,
    ensures
        RATIO_MIN_PERMILLE <= target_ratio(actual, raw) <= RATIO_MAX_PERMILLE,
        RATIO_MIN_PERMILLE <= actual * 1000 / raw <= RATIO_MAX_PERMILLE ==> target_ratio(actual, raw)
            == actual * 1000 / raw,
        actual * 1000 / raw < RATIO_MIN_PERMILLE ==> target_ratio(actual, raw) == RATIO_MIN_PERMILLE,
        actual * 1000 / raw > RATIO_MAX_PERMILLE ==> target_ratio(actual, raw) == RATIO_MAX_PERMILLE,
        actual < raw ==> target_ratio(actual, raw) < 1000,
        actual >= raw ==> target_ratio(actual, raw) >= 1000,
        actual == raw ==> target_ratio(actual, raw) == 1000,
{
    let t = actual * 1000 / raw;
    if actual < raw {
        assert(actual * 1000 < raw * 1000) by (nonlinear_arith)
            requires
                actual < raw,
        ;
        assert(t < 1000) by (nonlinear_arith)
            requires
                t == actual * 1000 / raw,
                actual * 1000 < raw * 1000,
                raw > 0,
        ;
    }
    if actual >= raw {
        assert(actual * 1000 >= raw * 1000) by (nonlinear_arith)
            requires
                actual >= raw,
        ;
        assert(t >= 1000) by (nonlinear_arith)
            requires
                t == actual * 1000 / raw,
                actual * 1000 >= raw * 1000,
                raw > 0,
        ;
    }
    if actual == raw {
        assert(t == 1000) by (nonlinear_arith)
            requires
                t == actual * 1000 / raw,
                actual == raw,
                raw > 0,
        ;
    }
}

impl CalibratedTokenizer {
    /// The calibration ratio, in thousandths.
    pub closed spec fn ratio(&self) -> nat {
        self.ratio_permille as nat
    }

    pub closed spec fn wf(&self) -> bool {
        RATIO_MIN_PERMILLE <= self.ratio_permille <= RATIO_MAX_PERMILLE
    }

    /// A fresh meter with ratio one.
    pub fn new() -> (t: Self)
        ensures
            t.wf(),
            t.ratio() == 1000,
    {
        CalibratedTokenizer { ratio_permille: 1000 }
    }

    /// Uncalibrated (heuristic) estimate of `text`.
    pub fn count_raw(&self, text: &str) -> (n: usize)
        ensures
            n == heuristic_tokens(text@),
    {
        HeuristicTokenizer.count(text)
    }

    /// Calibrated estimate of `text`.
    pub fn count(&self, text: &str) -> (n: usize)
        requires
            self.wf(),
        ensures
            n == scaled(heuristic_tokens(text@), self.ratio()),
    {
        let raw = HeuristicTokenizer.count(text);
        proof {
            assert((raw as u128) * (self.ratio_permille as u128) <= (usize::MAX as u128) * 4000)
                by (nonlinear_arith)
                requires
                    raw <= usize::MAX,
                    self.ratio_permille <= 4000,
            ;
        }
        let x: u128 = (raw as u128) * (self.ratio_permille as u128) / 1000;
        if x > usize::MAX as u128 {
            usize::MAX
        } else {
            x as usize
        }
    }

    /// Learn from a real usage report: the provider metered `actual` tokens
    /// for text whose raw estimate was `raw_estimate`. A zero estimate
    /// carries no information and leaves the ratio unchanged.
    pub fn feedback(&mut self, actual: usize, raw_estimate: usize)
        requires
            old(self).wf(),
        ensures
            final(self).wf(),
            raw_estimate == 0 ==> final(self).ratio() == old(self).ratio(),
            raw_estimate > 0 ==> final(self).ratio() == (3 * old(self).ratio() + target_ratio(
                actual as nat,
                raw_estimate as nat,
            )) / 4,
            ({
                let measured = (actual as nat) * 1000 / (raw_estimate as nat);
                &&& raw_estimate > 0 && RATIO_MIN_PERMILLE <= measured <= RATIO_MAX_PERMILLE
                    ==> final(self).ratio() == (3 * old(self).ratio() + measured) / 4
                &&& raw_estimate > 0 && measured < RATIO_MIN_PERMILLE ==> final(self).ratio() == (3
                    * old(self).ratio() + RATIO_MIN_PERMILLE) / 4
                &&& raw_estimate > 0 && measured > RATIO_MAX_PERMILLE ==> final(self).ratio() == (3
                    * old(self).ratio() + RATIO_MAX_PERMILLE) / 4
                &&& raw_estimate > 0 && measured < old(self).ratio() ==> final(self).ratio() <= old(
                    self,
                ).ratio()
                &&& raw_estimate > 0 && measured > old(self).ratio() ==> final(self).ratio() >= old(
                    self,
                ).ratio()
                &&& raw_estimate > 0 && measured < old(self).ratio() && RATIO_MIN_PERMILLE < old(
                    self,
                ).ratio() ==> final(self).ratio() < old(self).ratio()
            }),
    {
        proof {
            if raw_estimate > 0 {
                lemma_target_is_measured_ratio(actual as nat, raw_estimate as nat);
            }
        }
        if raw_estimate == 0 {
            return ;
        }
        proof {
            assert((actual as u128) * 1000 <= (usize::MAX as u128) * 1000) by (nonlinear_arith)
                requires
                    actual <= usize::MAX,
            ;
        }
        let t: u128 = (actual as u128) * 1000 / (raw_estimate as u128);
        let target: u64 = if t < RATIO_MIN_PERMILLE as u128 {
            RATIO_MIN_PERMILLE
        } else if t > RATIO_MAX_PERMILLE as u128 {
            RATIO_MAX_PERMILLE
        } else {
            t as u64
        };
        self.ratio_permille = (3 * self.ratio_permille + target) / 4;
    }
}

} // verus!
