//! The guard of a single tool result.
//!
//! A tool result over its token budget is cut to a head/tail summary (60% of
//! the budget to the head, 40% to the tail, where conclusions and errors
//! usually are), with a placeholder in the middle saying how much was left
//! out and where the full text was archived.
//!
//! Writing the archive and pruning the archive directory are I/O; the
//! library decides the file name, the summary and which files to prune.
use vstd::prelude::*;
use crate::text::{chars_of, dec, lines, push_decimal, push_str_chars, string_of};
use crate::text_split::{split_head, split_head_tail, split_tail, HeadTailSplit};
use crate::tokenizer::{default_tokenizer, heuristic_tokens, HeuristicTokenizer};
use crate::paths::RETRIEVAL_HINT;
use vstd::string::StringSliceAdditionalSpecFns;

verus! {

/// Default token budget of one tool result (about 32 KB of text).
pub const DEFAULT_TOOL_RESULT_TOKEN_CAP: usize = 8192;

/// Number of newest archive files kept per session.
pub const TOOL_ARCHIVE_KEEP: usize = 20;

/// The result of the guard.
pub struct GuardedResult {
    /// The text that goes into the context.
    pub text: String,
    /// Whether the text was cut.
    pub truncated: bool,
    /// Token estimate of the original text.
    pub original_tokens: usize,
    /// Where the full text was archived, if it was.
    pub archive_path: Option<String>,
}

/// FNV-1a 64-bit offset basis and prime.
pub const FNV_OFFSET: u64 = 0xcbf29ce484222325u64;
pub const FNV_PRIME: u64 = 0x100000001b3u64;

/// One FNV-1a step.
pub open spec fn fnv_step(h: u64, b: u8) -> u64 {
    (((h ^ (b as u64)) as nat * FNV_PRIME as nat) % 0x1_0000_0000_0000_0000nat) as u64
}

/// FNV-1a 64 of a byte string.
pub open spec fn fnv1a(bytes: Seq<u8>) -> u64
    decreases bytes.len(),
{
    if bytes.len() == 0 {
        FNV_OFFSET
    } else {
        fnv_step(fnv1a(bytes.drop_last()), bytes.last())
    }
}

/// The lowercase hexadecimal digit of `d` (`0 <= d < 16`).
pub open spec fn hex_char(d: nat) -> char {
    if d < 10 {
        crate::text::digit_char(d as int)
    } else if d == 10 {
        'a'
    } else if d == 11 {
        'b'
    } else if d == 12 {
        'c'
    } else if d == 13 {
        'd'
    } else if d == 14 {
        'e'
    } else {
        'f'
    }
}

/// The last `width` hexadecimal digits of `n`, zero-padded.
pub open spec fn hex_pad(n: nat, width: nat) -> Seq<char>
    decreases width,
{
    if width == 0 {
        Seq::empty()
    } else {
        hex_pad(n / 16, (width - 1) as nat).push(hex_char(n % 16))
    }
}

/// The fingerprint of a text: the high 32 bits of FNV-1a 64 over its UTF-8
/// bytes, as eight lowercase hexadecimal digits.
pub open spec fn fingerprint_spec(text: &str) -> Seq<char> {
    hex_pad((fnv1a(text.spec_bytes()) / 0x1_0000_0000u64) as nat, 8)
}

fn hex_digit(d: u64) -> (c: char)
    requires
        d < 16,
    ensures
        c == hex_char(d as nat),
{
    if d < 10 {
        crate::text::digit_char_exec(d)
    } else if d == 10 {
        'a'
    } else if d == 11 {
        'b'
    } else if d == 12 {
        'c'
    } else if d == 13 {
        'd'
    } else if d == 14 {
        'e'
    } else {
        'f'
    }
}

fn push_hex_pad(out: &mut Vec<char>, n: u64, width: u64)
    ensures
        final(out)@ == old(out)@ + hex_pad(n as nat, width as nat),
    decreases width,
{
    if width > 0 {
        push_hex_pad(out, n / 16, width - 1);
        out.push(hex_digit(n % 16));
    }
}

/// The content fingerprint of a text (see [`fingerprint_spec`]): equal texts
/// share it, different texts almost never do.
pub fn content_fingerprint(text: &str) -> (r: String)
    ensures
        r@ == fingerprint_spec(text),
{
    let bytes = text.as_bytes();
    let mut h: u64 = FNV_OFFSET;
    let mut i: usize = 0;
    while i < bytes.len()
        invariant
            i <= bytes@.len(),
            bytes@ == text.spec_bytes(),
            h == fnv1a(bytes@.take(i as int)),
        decreases bytes@.len() - i,
    {
        assert(bytes@.take(i + 1 as int).drop_last() =~= bytes@.take(i as int));
        h = h ^ (bytes[i] as u64);
        h = h.wrapping_mul(FNV_PRIME);
        i = i + 1;
    }
    assert(bytes@.take(bytes@.len() as int) =~= bytes@);
    let mut v: Vec<char> = Vec::new();
    push_hex_pad(&mut v, h / 0x1_0000_0000u64, 8);
    assert(v@ =~= fingerprint_spec(text));
    string_of(v.as_slice())
}

/// `tool_<ms>_<tokens>_<fingerprint>.txt`.
pub open spec fn archive_file_name_spec(now_ms: u64, token_count: usize, text: &str) -> Seq<char> {
    "tool_"@ + dec(now_ms as nat) + "_"@ + dec(token_count as nat) + "_"@ + fingerprint_spec(text)
        + ".txt"@
}

/// The archive file name of a text written at `now_ms`: the milliseconds,
/// the token count and the content fingerprint, so two different results of
/// one millisecond and one size do not overwrite each other.
pub fn archive_file_name(now_ms: u64, token_count: usize, text: &str) -> (r: String)
    ensures
        r@ == archive_file_name_spec(now_ms, token_count, text),
{
    let mut v: Vec<char> = Vec::new();
    push_str_chars(&mut v, "tool_");
    push_decimal(&mut v, now_ms);
    push_str_chars(&mut v, "_");
    push_decimal(&mut v, token_count as u64);
    push_str_chars(&mut v, "_");
    let fp = content_fingerprint(text);
    push_str_chars(&mut v, fp.as_str());
    push_str_chars(&mut v, ".txt");
    assert(v@ =~= archive_file_name_spec(now_ms, token_count, text));
    string_of(v.as_slice())
}

/// Rank of file `i` from the newest: the files with a later time, plus the
/// earlier-listed files with the same time.
pub open spec fn newer_count(times: Seq<u64>, i: int) -> nat {
    (times.take(i).filter(|t: u64| t >= times[i]).len() + times.skip(i + 1).filter(
        |t: u64| t > times[i],
    ).len()) as nat
}

/// Which archive files to delete, given their modification times in
/// listing order: nothing while there are at most `keep` files; otherwise
/// every file outside the `keep` newest (ties keep listing order).
pub open spec fn prune_victim(times: Seq<u64>, keep: nat, i: int) -> bool {
    times.len() > keep && newer_count(times, i) >= keep
}

/// Counts the files before `i` that are at least as new, and those after
/// `i` that are strictly newer.
fn count_newer(times: &Vec<u64>, i: usize) -> (n: usize)
    requires
        i < times.len(),
    ensures
        n == newer_count(times@, i as int),
{
    let ghost ti = times@[i as int];
    let mut before: usize = 0;
    let mut k: usize = 0;
    while k < i
        invariant
            k <= i < times.len(),
            ti == times@[i as int],
            before == times@.take(k as int).filter(|t: u64| t >= ti).len(),
            before <= k,
        decreases i - k,
    {
        assert(times@.take(k + 1 as int).drop_last() =~= times@.take(k as int));
        reveal(Seq::filter);
        if times[k] >= times[i] {
            before = before + 1;
        }
        k = k + 1;
    }
    let mut after: usize = 0;
    let mut k: usize = i + 1;
    let ghost rest = times@.skip(i + 1);
    while k < times.len()
        invariant
            i < k <= times.len(),
            ti == times@[i as int],
            rest == times@.skip(i + 1),
            before <= i,
            after == rest.take(k - i - 1).filter(|t: u64| t > ti).len(),
            after <= k - i - 1,
        decreases times.len() - k,
    {
        assert(rest.take(k - i as int).drop_last() =~= rest.take(k - i - 1));
        assert(rest.take(k - i as int).last() == times@[k as int]);
        reveal(Seq::filter);
        if times[k] > times[i] {
            after = after + 1;
        }
        k = k + 1;
    }
    assert(rest.take(rest.len() as int) =~= rest);
    before + after
}

/// The archive files to delete (see [`prune_victim`]).
pub fn prune_victims(times: &Vec<u64>, keep: usize) -> (r: Vec<bool>)
    ensures
        r@.len() == times@.len(),
        forall|i: int| 0 <= i < times@.len() ==> r@[i] == prune_victim(times@, keep as nat, i),
{
    let mut r: Vec<bool> = Vec::new();
    let mut i: usize = 0;
    while i < times.len()
        invariant
            i <= times.len(),
            r@.len() == i,
            forall|j: int| 0 <= j < i ==> r@[j] == prune_victim(times@, keep as nat, j),
        decreases times.len() - i,
    {
        let victim = times.len() > keep && count_newer(times, i) >= keep;
        r.push(victim);
        i = i + 1;
    }
    r
}

} // verus!

verus! {

/// The head's share of a budget: 60%, rounded down.
pub open spec fn head_share(budget: nat) -> nat {
    budget * 3 / 5
}

fn head_share_of(budget: usize) -> (h: usize)
    ensures
        h == head_share(budget as nat),
        h <= budget,
{
    let h = budget / 5 * 3 + (budget % 5) * 3 / 5;
    assert(h == budget * 3 / 5) by (nonlinear_arith)
        requires
            h == budget / 5 * 3 + (budget % 5) * 3 / 5,
    ;
    h
}

/// The head, the placeholder and the tail of `text` under `budget` tokens
/// (60% head, 40% tail).
pub open spec fn head_tail_summary(text: Seq<char>, budget: nat, placeholder: Seq<char>) -> Seq<
    char,
> {
    let tok = HeuristicTokenizer;
    let hb = head_share(budget);
    split_head(tok, lines(text), hb) + placeholder + split_tail(
        tok,
        lines(text),
        hb,
        (budget - hb) as nat,
    )
}

/// `\n[... 已省略约 <omit> tokens 的中间内容。`
pub open spec fn omit_prefix(omit: nat) -> Seq<char> {
    "\n[... 已省略约 "@ + dec(omit) + " tokens 的中间内容。"@
}

/// The opening of every head/tail placeholder, with the number of tokens
/// left out.
pub fn omit_placeholder_prefix(omit: usize) -> (r: String)
    ensures
        r@ == omit_prefix(omit as nat),
{
    let mut v: Vec<char> = Vec::new();
    push_str_chars(&mut v, "\n[... 已省略约 ");
    push_decimal(&mut v, omit as u64);
    push_str_chars(&mut v, " tokens 的中间内容。");
    assert(v@ =~= omit_prefix(omit as nat));
    string_of(v.as_slice())
}

/// Head, placeholder and tail (see [`head_tail_summary`]).
pub fn assemble_head_tail_summary(text: &str, budget_tokens: usize, placeholder: String) -> (r: String)
    ensures
        r@ == head_tail_summary(text@, budget_tokens as nat, placeholder@),
{
    let head_budget = head_share_of(budget_tokens);
    let tail_budget = budget_tokens - head_budget;
    let tok = default_tokenizer();
    let HeadTailSplit { head, tail } = split_head_tail(text, head_budget, tail_budget, &tok);
    let mut out = head;
    out.append(placeholder.as_str());
    out.append(tail.as_str());
    out
}

/// What the guard's placeholder says about the archive.
pub open spec fn archive_hint(archive_path: Option<String>) -> Seq<char> {
    match archive_path {
        Some(p) => "完整输出已存档至: "@ + p@ + RETRIEVAL_HINT@,
        None => "完整输出未存档（存档目录不可写）"@,
    }
}

/// The guard's placeholder.
pub open spec fn guard_placeholder(omit: nat, archive_path: Option<String>) -> Seq<char> {
    omit_prefix(omit) + " "@ + archive_hint(archive_path) + " ...]"@
}

/// Guards one tool result. Within `budget_tokens` it passes unchanged;
/// over it, the text becomes its head/tail summary whose placeholder tells
/// how many tokens were left out and where the full text was archived
/// (`archive_path`: the archive written for it, `None` when writing failed).
pub fn guard_tool_result(text: &str, budget_tokens: usize, archive_path: Option<String>) -> (g:
    GuardedResult)
    ensures
        g.original_tokens == heuristic_tokens(text@),
        heuristic_tokens(text@) <= budget_tokens ==> {
            &&& g.text@ == text@
            &&& !g.truncated
            &&& g.archive_path is None
        },
        heuristic_tokens(text@) > budget_tokens ==> {
            &&& g.truncated
            &&& g.archive_path == archive_path
            &&& g.text@ == head_tail_summary(
                text@,
                budget_tokens as nat,
                guard_placeholder((heuristic_tokens(text@) - budget_tokens) as nat, archive_path),
            )
        },
{
    let tok = default_tokenizer();
    let n = tok.count(text);
    if n <= budget_tokens {
        return GuardedResult {
            text: string_of(chars_of(text).as_slice()),
            truncated: false,
            original_tokens: n,
            archive_path: None,
        };
    }
    let omit = n - budget_tokens;
    let mut v: Vec<char> = Vec::new();
    let prefix = omit_placeholder_prefix(omit);
    push_str_chars(&mut v, prefix.as_str());
    push_str_chars(&mut v, " ");
    match &archive_path {
        Some(p) => {
            push_str_chars(&mut v, "完整输出已存档至: ");
            push_str_chars(&mut v, p.as_str());
            push_str_chars(&mut v, RETRIEVAL_HINT);
        },
        None => {
            push_str_chars(&mut v, "完整输出未存档（存档目录不可写）");
        },
    }
    push_str_chars(&mut v, " ...]");
    assert(v@ =~= guard_placeholder(omit as nat, archive_path));
    let placeholder = string_of(v.as_slice());
    let out = assemble_head_tail_summary(text, budget_tokens, placeholder);
    GuardedResult { text: out, truncated: true, original_tokens: n, archive_path }
}

/// The placeholder of a view-level summary.
pub open spec fn summary_placeholder(omit: nat, omit_note: Seq<char>) -> Seq<char> {
    omit_prefix(omit) + " "@ + omit_note + " ...]"@
}

/// A view-level head/tail summary (no archive): over `budget_tokens`, the
/// middle is replaced by a placeholder ending with `omit_note`.
pub fn summarize_head_tail(text: &str, budget_tokens: usize, omit_note: &str) -> (r: String)
    ensures
        heuristic_tokens(text@) <= budget_tokens ==> r@ == text@,
        heuristic_tokens(text@) > budget_tokens ==> r@ == head_tail_summary(
            text@,
            budget_tokens as nat,
            summary_placeholder((heuristic_tokens(text@) - budget_tokens) as nat, omit_note@),
        ),
{
    let tok = default_tokenizer();
    let n = tok.count(text);
    if n <= budget_tokens {
        return string_of(chars_of(text).as_slice());
    }
    let omit = n - budget_tokens;
    let mut v: Vec<char> = Vec::new();
    let prefix = omit_placeholder_prefix(omit);
    push_str_chars(&mut v, prefix.as_str());
    push_str_chars(&mut v, " ");
    push_str_chars(&mut v, omit_note);
    push_str_chars(&mut v, " ...]");
    assert(v@ =~= summary_placeholder(omit as nat, omit_note@));
    let placeholder = string_of(v.as_slice());
    assemble_head_tail_summary(text, budget_tokens, placeholder)
}

/// The note of a faded tool result.
pub const FADE_NOTE: &'static str = "历史轮次结果已淡化以控制上下文长度，如需完整输出请重新运行该工具。";

/// The view-level summary of a tool result of an earlier round (no
/// archive; the stored copy keeps the full text).
pub fn summarize_tool_result(text: &str, budget_tokens: usize) -> (r: String)
    ensures
        heuristic_tokens(text@) <= budget_tokens ==> r@ == text@,
        heuristic_tokens(text@) > budget_tokens ==> r@ == head_tail_summary(
            text@,
            budget_tokens as nat,
            summary_placeholder((heuristic_tokens(text@) - budget_tokens) as nat, FADE_NOTE@),
        ),
{
    summarize_head_tail(text, budget_tokens, FADE_NOTE)
}

} // verus!
