//! Convergence of a turn that ended abnormally: every node of the turn gets
//! a final state, in storage and in the live transcript, so that no node
//! is left "running".
//!
//! The I/O (reading and replacing the stored transcript, delivering the
//! state frames) is done by the caller; this module decides what changes.
use vstd::prelude::*;
use crate::message::{ChatMessage, MessageStatus, MessageType};
use crate::text::chars_of;

verus! {

/// A status that is not final: absent, pending or streaming.
pub open spec fn inflight(s: Option<MessageStatus>) -> bool {
    s is None || s == Some(MessageStatus::Pending) || s == Some(MessageStatus::Streaming)
}

/// Whether a status is not final.
pub fn is_inflight(status: &Option<MessageStatus>) -> (b: bool)
    ensures
        b == inflight(*status),
{
    match status {
        None => true,
        Some(MessageStatus::Pending) => true,
        Some(MessageStatus::Streaming) => true,
        _ => false,
    }
}

/// A root turn (a turn without a parent).
pub open spec fn is_root_turn(m: ChatMessage) -> bool {
    m.msg_type == Some(MessageType::Turn) && m.parent_id is None
}

/// The final state of an in-flight node when the user aborts: the root
/// turn is aborted, every other node completed.
pub open spec fn abort_terminal(m: ChatMessage) -> MessageStatus {
    if is_root_turn(m) {
        MessageStatus::Aborted
    } else {
        MessageStatus::Completed
    }
}

/// The final state of a node on abort (see [`abort_terminal`]).
pub fn abort_terminal_of(m: &ChatMessage) -> (s: MessageStatus)
    ensures
        s == abort_terminal(*m),
{
    if matches!(m.msg_type, Some(MessageType::Turn)) && m.parent_id.is_none() {
        MessageStatus::Aborted
    } else {
        MessageStatus::Completed
    }
}

/// Whether `id` is `root` or descends from it within `k` parent links.
pub open spec fn in_reach(ms: Seq<ChatMessage>, root: Seq<char>, id: Seq<char>, k: nat) -> bool
    decreases k,
{
    id == root || (k > 0 && exists|t: int|
        0 <= t < ms.len() && (#[trigger] ms[t]).id@ == id && ms[t].parent_id is Some && in_reach(
            ms,
            root,
            ms[t].parent_id->0@,
            (k - 1) as nat,
        ))
}

/// The subtree of `root`: itself and everything below it (a chain of
/// parent links among `ms` visits each id at most once, so `ms.len()`
/// links reach every descendant).
pub open spec fn in_subtree(ms: Seq<ChatMessage>, root: Seq<char>, id: Seq<char>) -> bool {
    in_reach(ms, root, id, ms.len())
}

pub proof fn lemma_reach_mono(ms: Seq<ChatMessage>, root: Seq<char>, id: Seq<char>, k: nat)
    requires
        in_reach(ms, root, id, k),
    ensures
        in_reach(ms, root, id, k + 1),
    decreases k,
{
    if id != root {
        let t = choose|t: int|
            0 <= t < ms.len() && (#[trigger] ms[t]).id@ == id && ms[t].parent_id is Some && in_reach(
                ms,
                root,
                ms[t].parent_id->0@,
                (k - 1) as nat,
            );
        lemma_reach_mono(ms, root, ms[t].parent_id->0@, (k - 1) as nat);
    }
}

/// Whether one of the first `n` messages is `x` hanging under a member of
/// `pv`.
pub open spec fn added_upto(ms: Seq<ChatMessage>, pv: Seq<String>, x: Seq<char>, n: int) -> bool {
    exists|t: int|
        0 <= t < n && (#[trigger] ms[t]).id@ == x && ms[t].parent_id is Some && has_str(
            pv,
            ms[t].parent_id->0@,
        )
}

/// Whether some string of `v` has the characters `x`.
pub open spec fn has_str(v: Seq<String>, x: Seq<char>) -> bool {
    exists|i: int| 0 <= i < v.len() && (#[trigger] v[i])@ == x
}

pub fn contains_str(v: &Vec<String>, x: &str) -> (b: bool)
    ensures
        b == has_str(v@, x@),
{
    let mut i: usize = 0;
    while i < v.len()
        invariant
            i <= v.len(),
            forall|t: int| 0 <= t < i ==> v@[t]@ != x@,
        decreases v.len() - i,
    {
        if crate::json::str_eq(v[i].as_str(), x) {
            return true;
        }
        i = i + 1;
    }
    false
}

/// The ids of the subtree of `root` among `messages` (see [`in_subtree`]).
pub fn subtree_of(messages: &Vec<ChatMessage>, root: &str) -> (r: Vec<String>)
    ensures
        forall|x: Seq<char>| has_str(r@, x) <==> in_subtree(messages@, root@, x),
{
    let ms = messages;
    let mut s: Vec<String> = Vec::new();
    s.push(crate::text::string_of(chars_of(root).as_slice()));
    proof {
        assert forall|x: Seq<char>| has_str(s@, x) <==> in_reach(ms@, root@, x, 0) by {
            if has_str(s@, x) {
                let i = choose|i: int| 0 <= i < s@.len() && (#[trigger] s@[i])@ == x;
                assert(i == 0);
            }
            if x == root@ {
                assert(s@[0]@ == x);
            }
        }
    }
    let mut k: usize = 0;
    while k < ms.len()
        invariant
            k <= ms@.len(),
            forall|x: Seq<char>| has_str(s@, x) <==> in_reach(ms@, root@, x, k as nat),
        decreases ms@.len() - k,
    {
        let prev = s.clone();
        let ghost pv = prev@;
        assert(pv == s@);
        let mut j: usize = 0;
        while j < ms.len()
            invariant
                j <= ms@.len(),
                pv == prev@,
                forall|x: Seq<char>| has_str(pv, x) <==> in_reach(ms@, root@, x, k as nat),
                forall|x: Seq<char>|
                    #[trigger] has_str(s@, x) <==> (has_str(pv, x) || added_upto(ms@, pv, x, j as int)),
            decreases ms@.len() - j,
        {
            let m = &ms[j];
            let add = match &m.parent_id {
                Some(p) => contains_str(&prev, p.as_str()) && !contains_str(&s, m.id.as_str()),
                None => false,
            };
            let ghost s0 = s@;
            if add {
                s.push(m.id.clone());
            }
            proof {
                let mj = ms@[j as int];
                assert forall|x: Seq<char>|
                    #[trigger] has_str(s@, x) <==> (has_str(pv, x) || added_upto(ms@, pv, x, j + 1)) by {
                    let old_rhs = has_str(pv, x) || added_upto(ms@, pv, x, j as int);
                    let jhit = mj.id@ == x && mj.parent_id is Some && has_str(pv, mj.parent_id->0@);
                    assert(has_str(s0, x) == old_rhs);
                    if has_str(s@, x) {
                        let i = choose|i: int| 0 <= i < s@.len() && (#[trigger] s@[i])@ == x;
                        if i < s0.len() {
                            assert(s0[i] == s@[i]);
                            assert(has_str(s0, x));
                            if !has_str(pv, x) {
                                let t = choose|t: int|
                                    0 <= t < j && (#[trigger] ms@[t]).id@ == x && ms@[t].parent_id is Some
                                        && has_str(pv, ms@[t].parent_id->0@);
                                assert(0 <= t < j + 1);
                            }
                        } else {
                            assert(add);
                            assert(jhit);
                        }
                    }
                    if has_str(s0, x) {
                        let i = choose|i: int| 0 <= i < s0.len() && (#[trigger] s0[i])@ == x;
                        assert(s@[i] == s0[i]);
                        assert(has_str(s@, x));
                    }
                    if added_upto(ms@, pv, x, j + 1) {
                        let t = choose|t: int|
                            0 <= t < j + 1 && (#[trigger] ms@[t]).id@ == x && ms@[t].parent_id is Some
                                && has_str(pv, ms@[t].parent_id->0@);
                        if t < j {
                            assert(old_rhs);
                            assert(has_str(s0, x));
                        } else {
                            if !has_str(s0, x) {
                                assert(add);
                                assert(s@[s0.len() as int]@ == x);
                            }
                        }
                        assert(has_str(s@, x));
                    }
                }
            }
            j = j + 1;
        }
        proof {
            assert forall|x: Seq<char>| has_str(s@, x) <==> in_reach(ms@, root@, x, (k + 1) as nat) by {
                assert(has_str(s@, x) <==> (has_str(pv, x) || added_upto(ms@, pv, x, ms@.len() as int)));
                if has_str(pv, x) {
                    lemma_reach_mono(ms@, root@, x, k as nat);
                }
                if in_reach(ms@, root@, x, (k + 1) as nat) && x != root@ {
                    let t = choose|t: int|
                        0 <= t < ms@.len() && (#[trigger] ms@[t]).id@ == x && ms@[t].parent_id is Some
                            && in_reach(ms@, root@, ms@[t].parent_id->0@, k as nat);
                    assert(has_str(pv, ms@[t].parent_id->0@));
                }
                if x == root@ {
                    assert(in_reach(ms@, root@, x, k as nat));
                }
            }
        }
        k = k + 1;
    }
    s
}

} // verus!

verus! {

/// The last root turn of the live transcript: the turn that failed.
pub open spec fn last_root_turn(ms: Seq<ChatMessage>) -> int
    decreases ms.len(),
{
    if ms.len() == 0 {
        -1
    } else if is_root_turn(ms.last()) {
        ms.len() - 1
    } else {
        last_root_turn(ms.drop_last())
    }
}

/// Whether some message has id `id`.
pub open spec fn has_id(ms: Seq<ChatMessage>, id: Seq<char>) -> bool {
    exists|t: int| 0 <= t < ms.len() && (#[trigger] ms[t]).id@ == id
}

fn has_id_exec(ms: &Vec<ChatMessage>, id: &str) -> (b: bool)
    ensures
        b == has_id(ms@, id@),
{
    let mut i: usize = 0;
    while i < ms.len()
        invariant
            i <= ms.len(),
            forall|t: int| 0 <= t < i ==> ms@[t].id@ != id@,
        decreases ms.len() - i,
    {
        if crate::json::str_eq(ms[i].id.as_str(), id) {
            return true;
        }
        i = i + 1;
    }
    false
}

/// A stored node of the failed turn, converged: the turn itself takes the
/// final status (and the error when it had none); any other node still in
/// flight is completed. `None`: nothing to change.
pub open spec fn fix_stored(e: ChatMessage, is_turn: bool, terminal: MessageStatus, want: Option<String>) -> Option<ChatMessage> {
    if is_turn {
        if e.status != Some(terminal) || (want is Some && e.error is None) {
            Some(
                ChatMessage {
                    status: Some(terminal),
                    error: if e.error is None {
                        want
                    } else {
                        e.error
                    },
                    ..e
                },
            )
        } else {
            None
        }
    } else if inflight(e.status) {
        Some(ChatMessage { status: Some(MessageStatus::Completed), error: None, ..e })
    } else {
        None
    }
}

/// A live node of the failed turn missing from storage: the turn is added
/// with the final status; any other node is added completed when its parent
/// is stored (or it has none). `None`: not added.
pub open spec fn add_missing(c: ChatMessage, is_turn: bool, terminal: MessageStatus, want: Option<String>, all: Seq<ChatMessage>) -> Option<ChatMessage> {
    if is_turn {
        Some(ChatMessage { status: Some(terminal), error: want, ..c })
    } else if c.parent_id is None || has_id(all, c.parent_id->0@) {
        Some(ChatMessage { status: Some(MessageStatus::Completed), error: None, ..c })
    } else {
        None
    }
}

/// Stored transcript and changed nodes after the first `n` live nodes.
pub open spec fn persist_fold(
    stored: Seq<ChatMessage>,
    live: Seq<ChatMessage>,
    turn: Seq<char>,
    terminal: MessageStatus,
    want: Option<String>,
    n: int,
) -> (Seq<ChatMessage>, Seq<ChatMessage>)
    decreases n,
{
    if n <= 0 {
        (stored, Seq::empty())
    } else {
        let (all, changed) = persist_fold(stored, live, turn, terminal, want, n - 1);
        let c = live[n - 1];
        if !in_subtree(live, turn, c.id@) {
            (all, changed)
        } else {
            let is_turn = c.id@ == turn;
            let i = crate::nodes::first_with_id(all, c.id@);
            if i >= 0 {
                match fix_stored(all[i], is_turn, terminal, want) {
                    Some(e2) => (all.update(i, e2), changed.push(e2)),
                    None => (all, changed),
                }
            } else {
                match add_missing(c, is_turn, terminal, want, all) {
                    Some(n2) => (all.push(n2), changed.push(n2)),
                    None => (all, changed),
                }
            }
        }
    }
}

/// The error recorded on a turn that failed (only a failed turn carries it).
pub open spec fn wanted_error(terminal: MessageStatus, error: Seq<char>, want: Option<String>) -> bool {
    if terminal == MessageStatus::Failed {
        want matches Some(w) && w@ == error
    } else {
        want is None
    }
}

/// The plan of converging a failed turn.
pub struct FailurePlan {
    /// The stored transcript to write back.
    pub all: Vec<ChatMessage>,
    /// The nodes that changed, in order, to deliver as state frames.
    pub changed: Vec<ChatMessage>,
}

/// Converges the failed turn (the last root turn of the live transcript)
/// and its subtree into the stored transcript: the turn takes `terminal`
/// (and `error` when it failed), its other in-flight nodes are completed,
/// and live nodes missing from storage are added (see [`persist_fold`]).
/// `None` when no turn is in flight (the error came before the turn).
pub fn plan_persist_failure(
    live: &Vec<ChatMessage>,
    stored: Vec<ChatMessage>,
    error: &str,
    terminal: MessageStatus,
) -> (r: Option<FailurePlan>)
    ensures
        last_root_turn(live@) < 0 ==> r is None,
        last_root_turn(live@) >= 0 ==> (r matches Some(p) && exists|want: Option<String>|
            wanted_error(terminal, error@, want) && (p.all@, p.changed@) == persist_fold(
                stored@,
                live@,
                live@[last_root_turn(live@)].id@,
                terminal,
                want,
                live@.len() as int,
            )),
{
    let mut n = live.len();
    assert(live@.take(n as int) =~= live@);
    while n > 0 && !root_turn_exec(&live[n - 1])
        invariant
            n <= live@.len(),
            last_root_turn(live@) == last_root_turn(live@.take(n as int)),
        decreases n,
    {
        assert(live@.take(n as int).last() == live@[n - 1]);
        assert(live@.take(n as int).drop_last() =~= live@.take(n - 1));
        n = n - 1;
    }
    if n == 0 {
        assert(live@.take(0).len() == 0);
        return None;
    }
    assert(live@.take(n as int).last() == live@[n - 1]);
    assert(last_root_turn(live@) == n - 1);
    let turn = live[n - 1].id.clone();
    let want: Option<String> = if matches!(terminal, MessageStatus::Failed) {
        Some(crate::text::string_of(chars_of(error).as_slice()))
    } else {
        None
    };
    let sub = subtree_of(live, turn.as_str());
    let mut all = stored;
    let ghost st = all@;
    let mut changed: Vec<ChatMessage> = Vec::new();
    let mut j: usize = 0;
    while j < live.len()
        invariant
            j <= live@.len(),
            forall|x: Seq<char>| has_str(sub@, x) <==> in_subtree(live@, turn@, x),
            (all@, changed@) == persist_fold(st, live@, turn@, terminal, want, j as int),
        decreases live@.len() - j,
    {
        let c = &live[j];
        if contains_str(&sub, c.id.as_str()) {
            let is_turn = crate::json::str_eq(c.id.as_str(), turn.as_str());
            let i = crate::nodes::first_with_id_exec(&all, c.id.as_str());
            if i < all.len() {
                let e = all[i].copy();
                let fix: Option<ChatMessage> = if is_turn {
                    if !status_is(&e.status, terminal) || (want.is_some() && e.error.is_none()) {
                        let mut e2 = e;
                        e2.status = Some(terminal);
                        if e2.error.is_none() {
                            e2.error = crate::message::copy_opt_string(&want);
                        }
                        Some(e2)
                    } else {
                        None
                    }
                } else if is_inflight(&e.status) {
                    let mut e2 = e;
                    e2.status = Some(MessageStatus::Completed);
                    e2.error = None;
                    Some(e2)
                } else {
                    None
                };
                match fix {
                    Some(e2) => {
                        all.set(i, e2.copy());
                        changed.push(e2);
                    },
                    None => {},
                }
            } else {
                let add: Option<ChatMessage> = if is_turn {
                    let mut n2 = c.copy();
                    n2.status = Some(terminal);
                    n2.error = crate::message::copy_opt_string(&want);
                    Some(n2)
                } else {
                    let parent_ok = match &c.parent_id {
                        Some(pid) => has_id_exec(&all, pid.as_str()),
                        None => true,
                    };
                    if parent_ok {
                        let mut n2 = c.copy();
                        n2.status = Some(MessageStatus::Completed);
                        n2.error = None;
                        Some(n2)
                    } else {
                        None
                    }
                };
                match add {
                    Some(n2) => {
                        all.push(n2.copy());
                        changed.push(n2);
                    },
                    None => {},
                }
            }
        }
        j = j + 1;
    }
    assert(wanted_error(terminal, error@, want));
    assert(turn@ == live@[last_root_turn(live@)].id@);
    Some(FailurePlan { all, changed })
}

fn root_turn_exec(m: &ChatMessage) -> (b: bool)
    ensures
        b == is_root_turn(*m),
{
    matches!(m.msg_type, Some(MessageType::Turn)) && m.parent_id.is_none()
}

fn status_is(s: &Option<MessageStatus>, t: MessageStatus) -> (b: bool)
    ensures
        b == (*s == Some(t)),
{
    match s {
        Some(x) => *x == t,
        None => false,
    }
}

} // verus!

verus! {

/// Every node the failure convergence changes ends in a final state: the
/// failed turn in `terminal`, every other node completed.
pub proof fn lemma_persist_changes_are_final(
    stored: Seq<ChatMessage>,
    live: Seq<ChatMessage>,
    turn: Seq<char>,
    terminal: MessageStatus,
    want: Option<String>,
    n: int,
)
    requires
        !inflight(Some(terminal)),
    ensures
        forall|t: int|
            0 <= t < persist_fold(stored, live, turn, terminal, want, n).1.len() ==> !inflight(
                (#[trigger] persist_fold(stored, live, turn, terminal, want, n).1[t]).status,
            ),
    decreases n,
{
    if n > 0 {
        lemma_persist_changes_are_final(stored, live, turn, terminal, want, n - 1);
        let (all, changed) = persist_fold(stored, live, turn, terminal, want, n - 1);
        let r = persist_fold(stored, live, turn, terminal, want, n);
        assert forall|t: int| 0 <= t < r.1.len() implies !inflight((#[trigger] r.1[t]).status) by {
            if t < changed.len() {
                assert(r.1[t] == changed[t]);
            }
        }
    }
}

/// A stored node once a failed turn has converged: a node of the turn's
/// subtree that the first `n` live nodes hold is fixed by [`fix_stored`];
/// any other node is left as it was.
pub open spec fn converged_stored(
    e: ChatMessage,
    live: Seq<ChatMessage>,
    n: int,
    turn: Seq<char>,
    terminal: MessageStatus,
    want: Option<String>,
) -> ChatMessage {
    if has_id(live.take(n), e.id@) && in_subtree(live, turn, e.id@) {
        match fix_stored(e, e.id@ == turn, terminal, want) {
            Some(e2) => e2,
            None => e,
        }
    } else {
        e
    }
}

/// `all[j]` is a live node of the subtree missing from storage, added by
/// [`add_missing`] against the nodes before it.
pub open spec fn added_missing(
    all: Seq<ChatMessage>,
    j: int,
    stored: Seq<ChatMessage>,
    live: Seq<ChatMessage>,
    n: int,
    turn: Seq<char>,
    terminal: MessageStatus,
    want: Option<String>,
) -> bool {
    exists|k: int|
        0 <= k < n && (#[trigger] live[k]).id@ == all[j].id@ && in_subtree(live, turn, live[k].id@)
            && !has_id(stored, live[k].id@) && add_missing(
            live[k],
            live[k].id@ == turn,
            terminal,
            want,
            all.take(j),
        ) == Some(all[j])
}

proof fn lemma_first_with_id_none(ms: Seq<ChatMessage>, id: Seq<char>)
    requires
        forall|t: int| 0 <= t < ms.len() ==> (#[trigger] ms[t]).id@ != id,
    ensures
        crate::nodes::first_with_id(ms, id) == -1,
    decreases ms.len(),
{
    if ms.len() > 0 {
        assert(ms[0].id@ != id);
        assert forall|t: int| 0 <= t < ms.drop_first().len() implies (
        #[trigger] ms.drop_first()[t]).id@ != id by {
            assert(ms.drop_first()[t] == ms[t + 1]);
        }
        lemma_first_with_id_none(ms.drop_first(), id);
    }
}

proof fn lemma_first_with_id_is(ms: Seq<ChatMessage>, id: Seq<char>, s: int)
    requires
        0 <= s < ms.len(),
        ms[s].id@ == id,
        forall|t: int| 0 <= t < s ==> (#[trigger] ms[t]).id@ != id,
    ensures
        crate::nodes::first_with_id(ms, id) == s,
    decreases s,
{
    if s > 0 {
        assert(ms[0].id@ != id);
        assert forall|t: int| 0 <= t < s - 1 implies (#[trigger] ms.drop_first()[t]).id@ != id by {
            assert(ms.drop_first()[t] == ms[t + 1]);
        }
        assert(ms.drop_first()[s - 1] == ms[s]);
        lemma_first_with_id_is(ms.drop_first(), id, s - 1);
    }
}

proof fn lemma_has_id_same_ids(a: Seq<ChatMessage>, b: Seq<ChatMessage>, x: Seq<char>)
    requires
        a.len() == b.len(),
        forall|t: int| 0 <= t < a.len() ==> (#[trigger] a[t]).id@ == b[t].id@,
    ensures
        has_id(a, x) == has_id(b, x),
{
    if has_id(a, x) {
        let t = choose|t: int| 0 <= t < a.len() && (#[trigger] a[t]).id@ == x;
        assert(b[t].id@ == x);
    }
    if has_id(b, x) {
        let t = choose|t: int| 0 <= t < b.len() && (#[trigger] b[t]).id@ == x;
        assert(a[t].id@ == x);
    }
}

proof fn lemma_has_id_take(ms: Seq<ChatMessage>, n: int, x: Seq<char>)
    requires
        0 < n <= ms.len(),
    ensures
        has_id(ms.take(n), x) <==> (has_id(ms.take(n - 1), x) || ms[n - 1].id@ == x),
{
    if has_id(ms.take(n), x) {
        let t = choose|t: int| 0 <= t < n && (#[trigger] ms.take(n)[t]).id@ == x;
        if t < n - 1 {
            assert(ms.take(n - 1)[t] == ms[t]);
        }
    }
    if has_id(ms.take(n - 1), x) {
        let t = choose|t: int| 0 <= t < n - 1 && (#[trigger] ms.take(n - 1)[t]).id@ == x;
        assert(ms.take(n)[t] == ms[t]);
    }
    if ms[n - 1].id@ == x {
        assert(ms.take(n)[n - 1] == ms[n - 1]);
    }
}

proof fn lemma_persist_fold_nodes(
    stored: Seq<ChatMessage>,
    live: Seq<ChatMessage>,
    turn: Seq<char>,
    terminal: MessageStatus,
    want: Option<String>,
    n: int,
)
    requires
        0 <= n <= live.len(),
        crate::nodes::ids_unique(stored),
        crate::nodes::ids_unique(live),
    ensures
        ({
            let all = persist_fold(stored, live, turn, terminal, want, n).0;
            &&& all.len() >= stored.len()
            &&& forall|i: int|
                0 <= i < stored.len() ==> #[trigger] all[i] == converged_stored(
                    stored[i],
                    live,
                    n,
                    turn,
                    terminal,
                    want,
                )
            &&& forall|j: int|
                stored.len() <= j < all.len() ==> #[trigger] added_missing(
                    all,
                    j,
                    stored,
                    live,
                    n,
                    turn,
                    terminal,
                    want,
                )
        }),
    decreases n,
{
    if n == 0 {
        let all = persist_fold(stored, live, turn, terminal, want, n).0;
        assert forall|i: int| 0 <= i < stored.len() implies #[trigger] all[i] == converged_stored(
            stored[i],
            live,
            n,
            turn,
            terminal,
            want,
        ) by {
            assert(!has_id(live.take(0), stored[i].id@));
        }
    } else {
        lemma_persist_fold_nodes(stored, live, turn, terminal, want, n - 1);
        let (all, changed) = persist_fold(stored, live, turn, terminal, want, n - 1);
        let all2 = persist_fold(stored, live, turn, terminal, want, n).0;
        let c = live[n - 1];
        let is_turn = c.id@ == turn;
        assert forall|x: Seq<char>| #[trigger] has_id(live.take(n), x) <==> (has_id(live.take(n - 1), x)
            || c.id@ == x) by {
            lemma_has_id_take(live, n, x);
        }
        assert(!has_id(live.take(n - 1), c.id@)) by {
            if has_id(live.take(n - 1), c.id@) {
                let t = choose|t: int| 0 <= t < n - 1 && (#[trigger] live.take(n - 1)[t]).id@ == c.id@;
                assert(live[t].id@ == live[n - 1].id@);
            }
        }
        assert forall|t: int| 0 <= t < stored.len() implies (#[trigger] all[t]).id@ == stored[t].id@ by {
            assert(all[t] == converged_stored(stored[t], live, n - 1, turn, terminal, want));
        }
        if !in_subtree(live, turn, c.id@) {
            assert(all2 == all);
            assert forall|i: int| 0 <= i < stored.len() implies #[trigger] all2[i] == converged_stored(
                stored[i],
                live,
                n,
                turn,
                terminal,
                want,
            ) by {
                assert(all[i] == converged_stored(stored[i], live, n - 1, turn, terminal, want));
            }
            assert forall|j: int| stored.len() <= j < all2.len() implies #[trigger] added_missing(
                all2,
                j,
                stored,
                live,
                n,
                turn,
                terminal,
                want,
            ) by {
                assert(added_missing(all, j, stored, live, n - 1, turn, terminal, want));
                let k = choose|k: int|
                    0 <= k < n - 1 && (#[trigger] live[k]).id@ == all[j].id@ && in_subtree(
                        live,
                        turn,
                        live[k].id@,
                    ) && !has_id(stored, live[k].id@) && add_missing(
                        live[k],
                        live[k].id@ == turn,
                        terminal,
                        want,
                        all.take(j),
                    ) == Some(all[j]);
                assert(live[k].id@ == all2[j].id@);
            }
        } else if has_id(stored, c.id@) {
            let s = choose|s: int| 0 <= s < stored.len() && (#[trigger] stored[s]).id@ == c.id@;
            assert forall|t: int| 0 <= t < s implies (#[trigger] all[t]).id@ != c.id@ by {
                assert(all[t].id@ == stored[t].id@);
            }
            lemma_first_with_id_is(all, c.id@, s);
            assert(all[s] == stored[s]);
            let fixed = fix_stored(all[s], is_turn, terminal, want);
            let all_n = match fixed {
                Some(e2) => all.update(s, e2),
                None => all,
            };
            assert(all2 == all_n);
            assert forall|t: int| 0 <= t < all.len() implies (#[trigger] all2[t]).id@ == all[t].id@ by {}
            assert forall|i: int| 0 <= i < stored.len() implies #[trigger] all2[i] == converged_stored(
                stored[i],
                live,
                n,
                turn,
                terminal,
                want,
            ) by {
                assert(all[i] == converged_stored(stored[i], live, n - 1, turn, terminal, want));
                if i != s {
                    assert(stored[i].id@ != c.id@);
                }
            }
            assert forall|j: int| stored.len() <= j < all2.len() implies #[trigger] added_missing(
                all2,
                j,
                stored,
                live,
                n,
                turn,
                terminal,
                want,
            ) by {
                assert(added_missing(all, j, stored, live, n - 1, turn, terminal, want));
                let k = choose|k: int|
                    0 <= k < n - 1 && (#[trigger] live[k]).id@ == all[j].id@ && in_subtree(
                        live,
                        turn,
                        live[k].id@,
                    ) && !has_id(stored, live[k].id@) && add_missing(
                        live[k],
                        live[k].id@ == turn,
                        terminal,
                        want,
                        all.take(j),
                    ) == Some(all[j]);
                assert(all2[j] == all[j]);
                assert forall|t: int| 0 <= t < j implies (#[trigger] all2.take(j)[t]).id@ == all.take(
                    j,
                )[t].id@ by {}
                if live[k].parent_id is Some {
                    lemma_has_id_same_ids(all2.take(j), all.take(j), live[k].parent_id->0@);
                }
            }
        } else {
            assert forall|t: int| 0 <= t < all.len() implies (#[trigger] all[t]).id@ != c.id@ by {
                if t < stored.len() {
                    assert(all[t].id@ == stored[t].id@);
                } else {
                    assert(added_missing(all, t, stored, live, n - 1, turn, terminal, want));
                    let k = choose|k: int|
                        0 <= k < n - 1 && (#[trigger] live[k]).id@ == all[t].id@ && in_subtree(
                            live,
                            turn,
                            live[k].id@,
                        ) && !has_id(stored, live[k].id@) && add_missing(
                            live[k],
                            live[k].id@ == turn,
                            terminal,
                            want,
                            all.take(t),
                        ) == Some(all[t]);
                    assert(live[k].id@ != live[n - 1].id@);
                }
            }
            lemma_first_with_id_none(all, c.id@);
            assert forall|i: int| 0 <= i < stored.len() implies #[trigger] all2[i] == converged_stored(
                stored[i],
                live,
                n,
                turn,
                terminal,
                want,
            ) by {
                assert(all[i] == converged_stored(stored[i], live, n - 1, turn, terminal, want));
                assert(stored[i].id@ != c.id@);
                match add_missing(c, is_turn, terminal, want, all) {
                    Some(n2) => {
                        assert(all2 == all.push(n2));
                        assert(all2[i] == all[i]);
                    },
                    None => {},
                }
            }
            assert forall|j: int| stored.len() <= j < all2.len() implies #[trigger] added_missing(
                all2,
                j,
                stored,
                live,
                n,
                turn,
                terminal,
                want,
            ) by {
                match add_missing(c, is_turn, terminal, want, all) {
                    Some(n2) => {
                        assert(all2 == all.push(n2));
                        if j < all.len() {
                            assert(added_missing(all, j, stored, live, n - 1, turn, terminal, want));
                            let k = choose|k: int|
                                0 <= k < n - 1 && (#[trigger] live[k]).id@ == all[j].id@ && in_subtree(
                                    live,
                                    turn,
                                    live[k].id@,
                                ) && !has_id(stored, live[k].id@) && add_missing(
                                    live[k],
                                    live[k].id@ == turn,
                                    terminal,
                                    want,
                                    all.take(j),
                                ) == Some(all[j]);
                            assert(all2.take(j) =~= all.take(j));
                            assert(all2[j] == all[j]);
                            assert(live[k].id@ == all2[j].id@);
                        } else {
                            assert(all2.take(j) =~= all);
                            assert(all2[j] == n2);
                            assert(live[n - 1].id@ == all2[j].id@);
                        }
                    },
                    None => {
                        assert(all2 == all);
                        assert(added_missing(all, j, stored, live, n - 1, turn, terminal, want));
                        let k = choose|k: int|
                            0 <= k < n - 1 && (#[trigger] live[k]).id@ == all[j].id@ && in_subtree(
                                live,
                                turn,
                                live[k].id@,
                            ) && !has_id(stored, live[k].id@) && add_missing(
                                live[k],
                                live[k].id@ == turn,
                                terminal,
                                want,
                                all.take(j),
                            ) == Some(all[j]);
                        assert(live[k].id@ == all2[j].id@);
                    },
                }
            }
        }
    }
}

/// Converging a failed turn, node by node: each stored node of the turn's
/// subtree that the live transcript holds is fixed by [`fix_stored`], every
/// other stored node stays as it was, and each node after the stored ones
/// is a live node of the subtree missing from storage, added by
/// [`add_missing`] against the nodes before it.
pub proof fn lemma_persist_converges_each_node(
    stored: Seq<ChatMessage>,
    live: Seq<ChatMessage>,
    turn: Seq<char>,
    terminal: MessageStatus,
    want: Option<String>,
)
    requires
        crate::nodes::ids_unique(stored),
        crate::nodes::ids_unique(live),
    ensures
        ({
            let all = persist_fold(stored, live, turn, terminal, want, live.len() as int).0;
            &&& all.len() >= stored.len()
            &&& forall|i: int|
                0 <= i < stored.len() ==> #[trigger] all[i] == converged_stored(
                    stored[i],
                    live,
                    live.len() as int,
                    turn,
                    terminal,
                    want,
                )
            &&& forall|j: int|
                stored.len() <= j < all.len() ==> #[trigger] added_missing(
                    all,
                    j,
                    stored,
                    live,
                    live.len() as int,
                    turn,
                    terminal,
                    want,
                )
        }),
{
    lemma_persist_fold_nodes(stored, live, turn, terminal, want, live.len() as int);
}

/// Stored transcript and changed nodes after the first `n` live nodes of
/// an aborted turn: a live node still in flight and missing from storage
/// is added in its abort state when its parent is stored (or it has none).
pub open spec fn converge_fold(stored: Seq<ChatMessage>, live: Seq<ChatMessage>, n: int) -> (Seq<ChatMessage>, Seq<ChatMessage>)
    decreases n,
{
    if n <= 0 {
        (stored, Seq::empty())
    } else {
        let (all, changed) = converge_fold(stored, live, n - 1);
        let l = live[n - 1];
        if !inflight(l.status) || has_id(all, l.id@) {
            (all, changed)
        } else if !(l.parent_id is None || has_id(all, l.parent_id->0@)) {
            (all, changed)
        } else {
            let m = ChatMessage { status: Some(abort_terminal(l)), error: None, ..l };
            (all.push(m), changed.push(m))
        }
    }
}

/// Converges an aborted turn (see [`converge_fold`]).
pub fn plan_converge_inflight(live: &Vec<ChatMessage>, stored: Vec<ChatMessage>) -> (r: FailurePlan)
    ensures
        (r.all@, r.changed@) == converge_fold(stored@, live@, live@.len() as int),
{
    let mut all = stored;
    let ghost st = all@;
    let mut changed: Vec<ChatMessage> = Vec::new();
    let mut j: usize = 0;
    while j < live.len()
        invariant
            j <= live@.len(),
            (all@, changed@) == converge_fold(st, live@, j as int),
        decreases live@.len() - j,
    {
        let l = &live[j];
        if is_inflight(&l.status) && !has_id_exec(&all, l.id.as_str()) {
            let parent_ok = match &l.parent_id {
                Some(pid) => has_id_exec(&all, pid.as_str()),
                None => true,
            };
            if parent_ok {
                let mut m = l.copy();
                m.status = Some(abort_terminal_of(l));
                m.error = None;
                all.push(m.copy());
                changed.push(m);
            }
        }
        j = j + 1;
    }
    FailurePlan { all, changed }
}

/// `all[j]` is a live node of the first `n` added on abort: in flight,
/// missing from the nodes before it, its parent among them (or none), and
/// put in its abort state.
pub open spec fn added_on_abort(all: Seq<ChatMessage>, j: int, live: Seq<ChatMessage>, n: int) -> bool {
    exists|k: int|
        0 <= k < n && #[trigger] live[k].id == all[j].id && inflight(live[k].status) && !has_id(
            all.take(j),
            live[k].id@,
        ) && (live[k].parent_id is None || has_id(all.take(j), live[k].parent_id->0@)) && all[j]
            == ChatMessage { status: Some(abort_terminal(live[k])), error: None, ..live[k] }
}

proof fn lemma_converge_fold_nodes(stored: Seq<ChatMessage>, live: Seq<ChatMessage>, n: int)
    requires
        0 <= n <= live.len(),
    ensures
        ({
            let (all, changed) = converge_fold(stored, live, n);
            &&& all.len() >= stored.len()
            &&& all.take(stored.len() as int) == stored
            &&& changed == all.skip(stored.len() as int)
            &&& forall|j: int| stored.len() <= j < all.len() ==> #[trigger] added_on_abort(all, j, live, n)
        }),
    decreases n,
{
    if n == 0 {
        assert(stored.take(stored.len() as int) =~= stored);
        assert(stored.skip(stored.len() as int) =~= Seq::<ChatMessage>::empty());
    } else {
        lemma_converge_fold_nodes(stored, live, n - 1);
        let (all, changed) = converge_fold(stored, live, n - 1);
        let (all2, changed2) = converge_fold(stored, live, n);
        let l = live[n - 1];
        if !(!inflight(l.status) || has_id(all, l.id@)) && (l.parent_id is None || has_id(
            all,
            l.parent_id->0@,
        )) {
            let m = ChatMessage { status: Some(abort_terminal(l)), error: None, ..l };
            assert(all2 == all.push(m));
            assert(all2.take(stored.len() as int) =~= all.take(stored.len() as int));
            assert(all2.skip(stored.len() as int) =~= all.skip(stored.len() as int).push(m));
            assert forall|j: int| stored.len() <= j < all2.len() implies #[trigger] added_on_abort(
                all2,
                j,
                live,
                n,
            ) by {
                assert(all2.take(j) =~= if j < all.len() {
                    all.take(j)
                } else {
                    all
                });
                if j < all.len() {
                    assert(added_on_abort(all, j, live, n - 1));
                    let k = choose|k: int|
                        0 <= k < n - 1 && #[trigger] live[k].id == all[j].id && inflight(live[k].status)
                            && !has_id(all.take(j), live[k].id@) && (live[k].parent_id is None || has_id(
                            all.take(j),
                            live[k].parent_id->0@,
                        )) && all[j] == ChatMessage {
                            status: Some(abort_terminal(live[k])),
                            error: None,
                            ..live[k]
                        };
                    assert(all2[j] == all[j]);
                    assert(live[k].id == all2[j].id);
                } else {
                    assert(all2[j] == m);
                    assert(live[n - 1].id == all2[j].id);
                }
            }
        } else {
            assert(all2 == all);
            assert forall|j: int| stored.len() <= j < all2.len() implies #[trigger] added_on_abort(
                all2,
                j,
                live,
                n,
            ) by {
                assert(added_on_abort(all, j, live, n - 1));
                let k = choose|k: int|
                    0 <= k < n - 1 && #[trigger] live[k].id == all[j].id && inflight(live[k].status)
                        && !has_id(all.take(j), live[k].id@) && (live[k].parent_id is None || has_id(
                        all.take(j),
                        live[k].parent_id->0@,
                    )) && all[j] == ChatMessage {
                        status: Some(abort_terminal(live[k])),
                        error: None,
                        ..live[k]
                    };
                assert(live[k].id == all2[j].id);
            }
        }
    }
}

/// Converging an aborted turn, node by node: the stored nodes stay as they
/// were; each node after them is an in-flight live node missing from the
/// nodes before it, whose parent is among them (or who has none), added in
/// its abort state; and those added nodes are exactly the changed ones.
pub proof fn lemma_converge_adds_in_abort_state(stored: Seq<ChatMessage>, live: Seq<ChatMessage>)
    ensures
        ({
            let (all, changed) = converge_fold(stored, live, live.len() as int);
            &&& all.len() >= stored.len()
            &&& all.take(stored.len() as int) == stored
            &&& changed == all.skip(stored.len() as int)
            &&& forall|j: int|
                stored.len() <= j < all.len() ==> #[trigger] added_on_abort(
                    all,
                    j,
                    live,
                    live.len() as int,
                )
        }),
{
    lemma_converge_fold_nodes(stored, live, live.len() as int);
}

/// Every node the abort convergence adds ends in a final state.
pub proof fn lemma_converge_changes_are_final(stored: Seq<ChatMessage>, live: Seq<ChatMessage>, n: int)
    ensures
        forall|t: int|
            0 <= t < converge_fold(stored, live, n).1.len() ==> !inflight(
                (#[trigger] converge_fold(stored, live, n).1[t]).status,
            ),
    decreases n,
{
    if n > 0 {
        lemma_converge_changes_are_final(stored, live, n - 1);
        let (all, changed) = converge_fold(stored, live, n - 1);
        let r = converge_fold(stored, live, n);
        assert forall|t: int| 0 <= t < r.1.len() implies !inflight((#[trigger] r.1[t]).status) by {
            if t < changed.len() {
                assert(r.1[t] == changed[t]);
            }
        }
    }
}

} // verus!
