//! Head/tail splitting under a token budget — the one mechanism behind the
//! tool-result guard and the request-view fading.
//!
//! Mechanism, not policy: metering, greedy line accumulation, the
//! `tokens × 2 → characters` conversion and the character fallback for a
//! single over-long line (the head keeps the line start, the tail keeps the
//! line end, both marked with `…`). Budgets, ratios and placeholder wording
//! belong to the callers.
use vstd::prelude::*;
use crate::text::{chars_of, join_nl, line_bounds, lines, nl_terminated, push_range, slice_vec, string_of};
use crate::tokenizer::Tokenizer;

verus! {

/// Characters per token of budget (a rough CJK-friendly rate).
pub const CHARS_PER_TOKEN: usize = 2;

/// `token_budget × 2`, saturating.
pub open spec fn char_cap(token_budget: nat) -> nat {
    if token_budget * 2 > usize::MAX {
        usize::MAX as nat
    } else {
        token_budget * 2
    }
}

/// The first `char_cap(budget)` characters of `s`.
pub open spec fn head_chars(s: Seq<char>, token_budget: nat) -> Seq<char> {
    if s.len() <= char_cap(token_budget) {
        s
    } else {
        s.take(char_cap(token_budget) as int)
    }
}

/// The last `char_cap(budget)` characters of `s`.
pub open spec fn tail_chars(s: Seq<char>, token_budget: nat) -> Seq<char> {
    if s.len() <= char_cap(token_budget) {
        s
    } else {
        s.skip(s.len() - char_cap(token_budget))
    }
}

/// `s` unchanged when it fits the character cap; otherwise its head plus `…`.
pub open spec fn head_chars_if_over(s: Seq<char>, token_budget: nat) -> Seq<char> {
    if s.len() <= char_cap(token_budget) {
        s
    } else {
        s.take(char_cap(token_budget) as int).push('…')
    }
}

fn cap_of(token_budget: usize) -> (c: usize)
    ensures
        c == char_cap(token_budget as nat),
{
    if token_budget > usize::MAX / 2 {
        usize::MAX
    } else {
        token_budget * 2
    }
}

/// Head fallback: keep the first `token_budget × 2` characters (characters,
/// not bytes, so multi-byte text is cut safely).
pub fn truncate_head_chars(text: &str, token_budget: usize) -> (r: String)
    ensures
        r@ == head_chars(text@, token_budget as nat),
{
    let v = chars_of(text);
    let cap = cap_of(token_budget);
    let n = if v.len() <= cap { v.len() } else { cap };
    let out = slice_vec(&v, 0, n);
    proof {
        assert(v@.subrange(0, v@.len() as int) =~= v@);
        assert(v@.subrange(0, n as int) =~= v@.take(n as int));
    }
    string_of(out.as_slice())
}

/// Tail fallback: keep the last `token_budget × 2` characters (conclusions
/// and errors are usually at the end).
pub fn truncate_tail_chars(text: &str, token_budget: usize) -> (r: String)
    ensures
        r@ == tail_chars(text@, token_budget as nat),
{
    let v = chars_of(text);
    let cap = cap_of(token_budget);
    let skip = if v.len() <= cap { 0 } else { v.len() - cap };
    let out = slice_vec(&v, skip, v.len());
    proof {
        assert(v@.subrange(0, v@.len() as int) =~= v@);
        assert(v@.subrange(skip as int, v@.len() as int) =~= v@.skip(skip as int));
    }
    string_of(out.as_slice())
}

/// Over the cap: keep the head and append `…`; within it: unchanged, with
/// no ellipsis.
pub fn truncate_head_chars_if_over(text: &str, token_budget: usize) -> (r: String)
    ensures
        r@ == head_chars_if_over(text@, token_budget as nat),
{
    let v = chars_of(text);
    let cap = cap_of(token_budget);
    if v.len() <= cap {
        let out = slice_vec(&v, 0, v.len());
        proof {
            assert(v@.subrange(0, v@.len() as int) =~= v@);
        }
        string_of(out.as_slice())
    } else {
        let mut out = slice_vec(&v, 0, cap);
        out.push('…');
        proof {
            assert(v@.subrange(0, cap as int) =~= v@.take(cap as int));
        }
        string_of(out.as_slice())
    }
}

/// Truncate `text` to a token budget: unchanged when within it, otherwise the
/// head plus `…` (the name used by single-line summaries).
pub fn truncate_tokens(text: &str, token_budget: usize) -> (r: String)
    ensures
        r@ == head_chars_if_over(text@, token_budget as nat),
{
    truncate_head_chars_if_over(text, token_budget)
}

/// Result of [`split_head_tail`].
pub struct HeadTailSplit {
    /// Kept head (every line ends with `'\n'`; a character-truncated first
    /// line ends with `"…\n"`).
    pub head: String,
    /// Kept tail (lines joined by `'\n'`, no trailing newline; a
    /// character-truncated last line starts with `…`).
    pub tail: String,
}

/// Cost of one line: the line plus its newline.
pub open spec fn line_cost<T: Tokenizer>(tok: T, l: Seq<char>) -> nat {
    tok.spec_count(l) + tok.spec_count(seq!['\n'])
}

/// Total cost of the first `k` lines.
pub open spec fn cost_prefix<T: Tokenizer>(tok: T, ls: Seq<Seq<char>>, k: int) -> nat
    decreases k,
{
    if k <= 0 {
        0
    } else {
        cost_prefix(tok, ls, k - 1) + line_cost(tok, ls[k - 1])
    }
}

/// Greedy head: lines are taken from the front while their total cost stays
/// within `budget`.
pub open spec fn head_count_from<T: Tokenizer>(
    tok: T,
    ls: Seq<Seq<char>>,
    budget: nat,
    k: int,
) -> int
    decreases ls.len() - k,
{
    if 0 <= k < ls.len() && cost_prefix(tok, ls, k + 1) <= budget {
        head_count_from(tok, ls, budget, k + 1)
    } else {
        k
    }
}

/// Total cost of the last `t` lines.
pub open spec fn cost_suffix<T: Tokenizer>(tok: T, ls: Seq<Seq<char>>, t: int) -> nat
    decreases t,
{
    if t <= 0 {
        0
    } else {
        cost_suffix(tok, ls, t - 1) + line_cost(tok, ls[ls.len() - t])
    }
}

/// Greedy tail: lines are taken from the back while their total cost stays
/// within `budget`.
pub open spec fn tail_count_from<T: Tokenizer>(
    tok: T,
    ls: Seq<Seq<char>>,
    budget: nat,
    t: int,
) -> int
    decreases ls.len() - t,
{
    if 0 <= t < ls.len() && cost_suffix(tok, ls, t + 1) <= budget {
        tail_count_from(tok, ls, budget, t + 1)
    } else {
        t
    }
}

/// Number of lines kept whole in the head.
pub open spec fn head_count<T: Tokenizer>(tok: T, ls: Seq<Seq<char>>, budget: nat) -> int {
    head_count_from(tok, ls, budget, 0)
}

/// The head of `ls` under `head_budget`.
pub open spec fn split_head<T: Tokenizer>(tok: T, ls: Seq<Seq<char>>, head_budget: nat) -> Seq<
    char,
> {
    let j = head_count(tok, ls, head_budget);
    if ls.len() > 0 && j == 0 {
        head_chars(ls[0], head_budget) + seq!['…', '\n']
    } else {
        nl_terminated(ls.take(j))
    }
}

/// The tail of `ls` under `tail_budget`, taken only from the lines the head
/// did not keep.
pub open spec fn split_tail<T: Tokenizer>(
    tok: T,
    ls: Seq<Seq<char>>,
    head_budget: nat,
    tail_budget: nat,
) -> Seq<char> {
    let rest = ls.skip(head_count(tok, ls, head_budget));
    let t = tail_count_from(tok, rest, tail_budget, 0);
    if rest.len() > 0 && t == 0 {
        seq!['…'] + tail_chars(rest.last(), tail_budget)
    } else {
        join_nl(rest.skip(rest.len() - t))
    }
}

proof fn lemma_head_count_bounds<T: Tokenizer>(tok: T, ls: Seq<Seq<char>>, budget: nat, k: int)
    requires
        0 <= k <= ls.len(),
    ensures
        k <= head_count_from(tok, ls, budget, k) <= ls.len(),
    decreases ls.len() - k,
{
    if 0 <= k < ls.len() && cost_prefix(tok, ls, k + 1) <= budget {
        lemma_head_count_bounds(tok, ls, budget, k + 1);
    }
}

proof fn lemma_tail_count_bounds<T: Tokenizer>(tok: T, ls: Seq<Seq<char>>, budget: nat, t: int)
    requires
        0 <= t <= ls.len(),
    ensures
        t <= tail_count_from(tok, ls, budget, t) <= ls.len(),
    decreases ls.len() - t,
{
    if 0 <= t < ls.len() && cost_suffix(tok, ls, t + 1) <= budget {
        lemma_tail_count_bounds(tok, ls, budget, t + 1);
    }
}

/// Split `text` into a head under `head_budget` and a tail under
/// `tail_budget` tokens, line by line (structured output is never cut inside
/// a line); a single over-budget line falls back to character truncation.
/// The tail only draws from lines the head did not take, so the two never
/// overlap.
pub fn split_head_tail<T: Tokenizer>(
    text: &str,
    head_budget: usize,
    tail_budget: usize,
    tok: &T,
) -> (r: HeadTailSplit)
    ensures
        r.head@ == split_head(*tok, lines(text@), head_budget as nat),
        r.tail@ == split_tail(*tok, lines(text@), head_budget as nat, tail_budget as nat),
{
    let v = chars_of(text);
    let bounds = line_bounds(&v);
    let ghost ls = lines(v@);
    let nl: Vec<char> = vec!['\n'];
    proof {
        assert(nl@.subrange(0, 1) =~= seq!['\n']);
    }
    let nl_cost = tok.count_range(&nl, 0, 1);
    let nlines = bounds.len();

    // ---- head: front to back while the budget holds
    let mut head: Vec<char> = Vec::new();
    let mut used: usize = 0;
    let mut j: usize = 0;
    let mut stopped = false;
    while j < nlines && !stopped
        invariant
            nlines == bounds@.len() == ls.len(),
            v@.len() <= isize::MAX,
            nl_cost == tok.spec_count(seq!['\n']),
            forall|k: int|
                0 <= k < bounds@.len() ==> {
                    &&& (#[trigger] bounds@[k]).0 <= bounds@[k].1 <= v@.len()
                    &&& v@.subrange(bounds@[k].0 as int, bounds@[k].1 as int) == ls[k]
                },
            j <= nlines,
            used == cost_prefix(*tok, ls, j as int),
            used <= head_budget,
            head_count(*tok, ls, head_budget as nat) == head_count_from(
                *tok,
                ls,
                head_budget as nat,
                j as int,
            ),
            stopped ==> head_count(*tok, ls, head_budget as nat) == j,
            !stopped ==> head@ == nl_terminated(ls.take(j as int)),
            stopped ==> head@ == split_head(*tok, ls, head_budget as nat),
        decreases 2 * (nlines - j) + (if stopped { 0int } else { 1int }),
    {
        let (a, b) = bounds[j];
        let c0 = tok.count_range(&v, a, b);
        let room = head_budget - used;
        if c0 > room || nl_cost > room - c0 {
            // the j-th line does not fit
            proof {
                assert(cost_prefix(*tok, ls, j + 1) > head_budget);
            }
            if j == 0 {
                // first line over budget: keep its start, never let it through whole
                let cap = cap_of(head_budget);
                let n = if b - a <= cap { b - a } else { cap };
                push_range(&mut head, &v, a, a + n);
                head.push('…');
                head.push('\n');
                proof {
                    assert(v@.subrange(a as int, (a + n) as int) =~= head_chars(
                        ls[0],
                        head_budget as nat,
                    ));
                    assert(head@ =~= head_chars(ls[0], head_budget as nat) + seq!['…', '\n']);
                }
            } else {
                proof {
                    assert(j > 0);
                }
            }
            stopped = true;
        } else {
            used = used + c0 + nl_cost;
            push_range(&mut head, &v, a, b);
            head.push('\n');
            proof {
                assert(ls.take(j + 1 as int).drop_last() =~= ls.take(j as int));
                assert(head@ =~= nl_terminated(ls.take(j + 1 as int)));
            }
            j = j + 1;
        }
    }
    proof {
        if !stopped {
            assert(j == nlines);
            assert(ls.take(j as int) =~= ls);
        }
    }
    let hj = j;
    assert(head_count(*tok, ls, head_budget as nat) == hj);
    assert(head@ == split_head(*tok, ls, head_budget as nat));

    // ---- tail: back to front over the lines the head left
    let ghost rest = ls.skip(hj as int);
    let m = nlines - hj;
    let mut tail: Vec<char> = Vec::new();
    let mut used_t: usize = 0;
    let mut t: usize = 0;
    let mut over_first = false;
    let mut done = false;
    while t < m && !done
        invariant
            nlines == bounds@.len() == ls.len(),
            hj <= nlines,
            m == nlines - hj,
            rest == ls.skip(hj as int),
            v@.len() <= isize::MAX,
            nl_cost == tok.spec_count(seq!['\n']),
            forall|k: int|
                0 <= k < bounds@.len() ==> {
                    &&& (#[trigger] bounds@[k]).0 <= bounds@[k].1 <= v@.len()
                    &&& v@.subrange(bounds@[k].0 as int, bounds@[k].1 as int) == ls[k]
                },
            t <= m,
            used_t == cost_suffix(*tok, rest, t as int),
            used_t <= tail_budget,
            tail_count_from(*tok, rest, tail_budget as nat, 0) == tail_count_from(
                *tok,
                rest,
                tail_budget as nat,
                t as int,
            ),
            done ==> tail_count_from(*tok, rest, tail_budget as nat, 0) == t,
            over_first ==> done && t == 0 && m > 0,
            !over_first ==> tail@ == Seq::<char>::empty(),
            done && t == 0 ==> over_first,
            rest.len() == m,
            over_first ==> tail@ == seq!['…'] + tail_chars(rest.last(), tail_budget as nat),
        decreases 2 * (m - t) + (if done { 0int } else { 1int }),
    {
        let idx = nlines - 1 - t;
        let (a, b) = bounds[idx];
        proof {
            assert(rest[rest.len() - (t + 1)] == ls[idx as int]);
        }
        let c0 = tok.count_range(&v, a, b);
        let room = tail_budget - used_t;
        if c0 > room || nl_cost > room - c0 {
            if t == 0 {
                let cap = cap_of(tail_budget);
                let skip = if b - a <= cap { 0 } else { (b - a) - cap };
                tail.push('…');
                push_range(&mut tail, &v, a + skip, b);
                over_first = true;
                proof {
                    assert(rest.last() == ls[idx as int]);
                    assert(v@.subrange((a + skip) as int, b as int) =~= tail_chars(
                        ls[idx as int],
                        tail_budget as nat,
                    ));
                    assert(tail@ =~= seq!['…'] + tail_chars(rest.last(), tail_budget as nat));
                }
            }
            done = true;
        } else {
            used_t = used_t + c0 + nl_cost;
            t = t + 1;
        }
    }
    assert(tail_count_from(*tok, rest, tail_budget as nat, 0) == t);
    if !over_first {
        // join the last t lines, in order
        let start = nlines - t;
        let mut k = start;
        proof {
            assert(ls.subrange(start as int, start as int) =~= Seq::<Seq<char>>::empty());
        }
        while k < nlines
            invariant
                nlines == bounds@.len() == ls.len(),
                hj <= start <= k <= nlines,
                start == nlines - t,
                forall|q: int|
                    0 <= q < bounds@.len() ==> {
                        &&& (#[trigger] bounds@[q]).0 <= bounds@[q].1 <= v@.len()
                        &&& v@.subrange(bounds@[q].0 as int, bounds@[q].1 as int) == ls[q]
                    },
                tail@ == join_nl(ls.subrange(start as int, k as int)),
            decreases nlines - k,
        {
            let (a, b) = bounds[k];
            if k > start {
                tail.push('\n');
            }
            push_range(&mut tail, &v, a, b);
            proof {
                let s2 = ls.subrange(start as int, k + 1 as int);
                assert(s2.drop_last() =~= ls.subrange(start as int, k as int));
                assert(s2.last() == ls[k as int]);
                if k == start {
                    assert(s2.len() == 1);
                    assert(tail@ =~= join_nl(s2));
                } else {
                    assert(tail@ =~= join_nl(s2));
                }
            }
            k = k + 1;
        }
        proof {
            assert(rest.skip(rest.len() - t) =~= ls.subrange(start as int, nlines as int));
            lemma_tail_count_bounds(*tok, rest, tail_budget as nat, 0);
            if rest.len() > 0 && t == 0 {
                // the loop only ends with t == 0 by overflowing on the first line
                assert(done);
            }
        }
    }
    proof {
        lemma_tail_count_bounds(*tok, rest, tail_budget as nat, 0);
        assert(split_tail(*tok, ls, head_budget as nat, tail_budget as nat) == tail@);
    }
    HeadTailSplit { head: string_of(head.as_slice()), tail: string_of(tail.as_slice()) }
}

} // verus!
