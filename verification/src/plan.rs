//! Rebase plans: the operations a model proposes on the commits of a range,
//! and the cherry-picks that carry them out.
use vstd::prelude::*;
use vstd::string::*;

use crate::diffs::{parse_usize, parse_usize_exec};
use crate::text::to_chars;

verus! {

/// What to do with a commit.
#[derive(Clone, Copy, PartialEq, Eq, Structural, Debug)]
pub enum PlanOperationKind {
    Pick,
    Reword,
    Squash,
    Drop,
}

/// One operation of a plan.
#[derive(Debug)]
pub struct PlanOperation {
    /// Index of the commit in the logs of the range, oldest first.
    pub commit_index: u32,
    pub operation: PlanOperationKind,
    /// The message for a reword or a squash.
    pub new_message: Option<String>,
    /// Why the model proposes it.
    pub reasoning: String,
}

/// A git operation that carries out a plan.
#[derive(Debug)]
pub enum PlanStep {
    /// Cherry-pick the commit with this hash.
    Pick(String),
    /// Squash the commit with this hash into HEAD, with this message.
    Squash(String, String),
    /// Cherry-pick the commit with this hash under this message.
    Reword(String, String),
}

/// A step as values: kind, hash and message (empty for a pick).
pub type StepView = (PlanOperationKind, Seq<char>, Seq<char>);

/// The step as values.
pub open spec fn step_view(s: PlanStep) -> StepView {
    match s {
        PlanStep::Pick(h) => (PlanOperationKind::Pick, h@, Seq::empty()),
        PlanStep::Squash(h, m) => (PlanOperationKind::Squash, h@, m@),
        PlanStep::Reword(h, m) => (PlanOperationKind::Reword, h@, m@),
    }
}

/// Index at which an operation with `key` goes among `s`: after every
/// operation whose index is not greater.
pub open spec fn insert_at(s: Seq<PlanOperation>, key: u32, i: int) -> int
    decreases s.len() - i,
{
    if i < 0 || i >= s.len() {
        s.len() as int
    } else if s[i].commit_index > key {
        i
    } else {
        insert_at(s, key, i + 1)
    }
}

/// The first `n` operations sorted by commit index, operations on the same
/// commit in their first order (a stable sort).
pub open spec fn sort_ops(s: Seq<PlanOperation>, n: int) -> Seq<PlanOperation>
    decreases n,
{
    if n <= 0 || n > s.len() {
        Seq::empty()
    } else {
        let sorted = sort_ops(s, n - 1);
        sorted.insert(insert_at(sorted, s[n - 1].commit_index, 0), s[n - 1])
    }
}

/// Every operation names a commit of the range.
pub open spec fn indices_in_range(ops: Seq<PlanOperation>, count: nat) -> bool {
    forall|i: int| 0 <= i < ops.len() ==> (#[trigger] ops[i].commit_index) < count
}

/// The error for a reword or squash without a message.
pub open spec fn missing_message(kind: PlanOperationKind) -> Seq<char> {
    if kind == PlanOperationKind::Squash {
        "no message in schema for a squash, not good, bailing"@
    } else {
        "no message in schema for a reword, not good, bailing"@
    }
}

/// The steps of the first `n` sorted operations, and the error that stops
/// them, if any: a drop has no step, and a reword or squash without a message
/// stops the plan.
pub open spec fn steps_of(ops: Seq<PlanOperation>, hashes: Seq<Seq<char>>, n: int) -> (
    Seq<StepView>,
    Option<Seq<char>>,
)
    decreases n,
{
    if n <= 0 || n > ops.len() {
        (Seq::empty(), None)
    } else {
        let (steps, err) = steps_of(ops, hashes, n - 1);
        if err is Some {
            (steps, err)
        } else {
            let op = ops[n - 1];
            let hash = hashes[op.commit_index as int];
            match op.operation {
                PlanOperationKind::Drop => (steps, None),
                PlanOperationKind::Pick => (steps.push((PlanOperationKind::Pick, hash, Seq::empty())), None),
                k => match op.new_message {
                    Some(m) => (steps.push((k, hash, m@)), None),
                    None => (steps, Some(missing_message(k))),
                },
            }
        }
    }
}

/// Sorts the operations by commit index, keeping operations on the same
/// commit in their order.
pub fn sort_operations(ops: Vec<PlanOperation>) -> (r: Vec<PlanOperation>)
    ensures
        r@ == sort_ops(ops@, ops@.len() as int),
{
    let ghost all = ops@;
    let n = ops.len();
    let mut rest = ops;
    let mut sorted: Vec<PlanOperation> = Vec::new();
    let mut k: usize = 0;
    while k < n
        invariant
            k <= n,
            n == all.len(),
            rest@ == all.skip(k as int),
            sorted@ == sort_ops(all, k as int),
        decreases n - k,
    {
        let x = rest.remove(0);
        assert(x == all[k as int]);
        assert(rest@ == all.skip(k + 1));
        let ghost s = sorted@;
        let mut i: usize = 0;
        while i < sorted.len() && sorted[i].commit_index <= x.commit_index
            invariant
                i <= sorted.len(),
                s == sorted@,
                insert_at(s, x.commit_index, 0) == insert_at(s, x.commit_index, i as int),
            decreases sorted.len() - i,
        {
            i = i + 1;
        }
        assert(insert_at(s, x.commit_index, i as int) == i);
        sorted.insert(i, x);
        k = k + 1;
    }
    sorted
}

/// The steps of a plan: the operations sorted by commit index, each turned
/// into the git operation on the commit it names; `hashes` are the hashes of
/// the commits of the range. The steps stop at the first reword or squash
/// without a message, with its error.
pub fn plan_steps(ops: Vec<PlanOperation>, hashes: &Vec<String>) -> (r: (Vec<PlanStep>, Option<String>))
    requires
        indices_in_range(ops@, hashes@.len()),
    ensures
        ({
            let (steps, err) = steps_of(
                sort_ops(ops@, ops@.len() as int),
                hashes@.map_values(|h: String| h@),
                ops@.len() as int,
            );
            &&& r.0@.map_values(|s: PlanStep| step_view(s)) == steps
            &&& match err {
                Some(e) => r.1 matches Some(m) && m@ == e,
                None => r.1 is None,
            }
        }),
{
    let ghost hs = hashes@.map_values(|h: String| h@);
    let sorted = sort_operations(ops);
    proof {
        lemma_sort_keeps_range(ops@, ops@.len() as int, hashes@.len());
        lemma_sort_len(ops@, ops@.len() as int);
    }
    let ghost sv = sorted@;
    let mut steps: Vec<PlanStep> = Vec::new();
    let mut k: usize = 0;
    while k < sorted.len()
        invariant
            k <= sorted.len(),
            sv == sorted@,
            sv == sort_ops(ops@, ops@.len() as int),
            sv.len() == ops@.len(),
            hs == hashes@.map_values(|h: String| h@),
            indices_in_range(sv, hashes@.len()),
            steps@.map_values(|s: PlanStep| step_view(s)) == steps_of(sv, hs, k as int).0,
            steps_of(sv, hs, k as int).1 is None,
        decreases sorted.len() - k,
    {
        let op = &sorted[k];
        assert(op.commit_index < hashes@.len());
        let hash = hashes[op.commit_index as usize].clone();
        assert(hash@ == hs[op.commit_index as int]);
        let ghost before = steps@.map_values(|s: PlanStep| step_view(s));
        match op.operation {
            PlanOperationKind::Drop => {},
            PlanOperationKind::Pick => {
                steps.push(PlanStep::Pick(hash));
                assert(steps@.map_values(|s: PlanStep| step_view(s)) == before.push(
                    (PlanOperationKind::Pick, hs[op.commit_index as int], Seq::empty()),
                ));
            },
            PlanOperationKind::Squash => match &op.new_message {
                Some(m) => {
                    steps.push(PlanStep::Squash(hash, m.clone()));
                    assert(steps@.map_values(|s: PlanStep| step_view(s)) == before.push(
                        (PlanOperationKind::Squash, hs[op.commit_index as int], m@),
                    ));
                },
                None => {
                    proof {
                        lemma_steps_err_stays(sv, hs, k + 1, sv.len() as int);
                    }
                    return (steps, Some(String::from_str("no message in schema for a squash, not good, bailing")));
                },
            },
            PlanOperationKind::Reword => match &op.new_message {
                Some(m) => {
                    steps.push(PlanStep::Reword(hash, m.clone()));
                    assert(steps@.map_values(|s: PlanStep| step_view(s)) == before.push(
                        (PlanOperationKind::Reword, hs[op.commit_index as int], m@),
                    ));
                },
                None => {
                    proof {
                        lemma_steps_err_stays(sv, hs, k + 1, sv.len() as int);
                    }
                    return (steps, Some(String::from_str("no message in schema for a reword, not good, bailing")));
                },
            },
        }
        k = k + 1;
    }
    (steps, None)
}

/// Once a plan stops, later operations add nothing.
proof fn lemma_steps_err_stays(ops: Seq<PlanOperation>, hashes: Seq<Seq<char>>, n: int, m: int)
    requires
        0 < n <= m <= ops.len(),
        steps_of(ops, hashes, n).1 is Some,
    ensures
        steps_of(ops, hashes, m) == steps_of(ops, hashes, n),
    decreases m - n,
{
    if n < m {
        lemma_steps_err_stays(ops, hashes, n, m - 1);
    }
}

/// Sorting keeps the number of operations.
proof fn lemma_sort_len(s: Seq<PlanOperation>, n: int)
    requires
        0 <= n <= s.len(),
    ensures
        sort_ops(s, n).len() == n,
    decreases n,
{
    if n > 0 {
        lemma_sort_len(s, n - 1);
        lemma_insert_at_bound(sort_ops(s, n - 1), s[n - 1].commit_index, 0);
    }
}

/// `insert_at` gives a position within the list.
proof fn lemma_insert_at_bound(s: Seq<PlanOperation>, key: u32, i: int)
    requires
        0 <= i <= s.len(),
    ensures
        i <= insert_at(s, key, i) <= s.len(),
    decreases s.len() - i,
{
    if i < s.len() && s[i].commit_index <= key {
        lemma_insert_at_bound(s, key, i + 1);
    }
}

/// Sorting keeps every operation within the range.
proof fn lemma_sort_keeps_range(s: Seq<PlanOperation>, n: int, count: nat)
    requires
        0 <= n <= s.len(),
        indices_in_range(s, count),
    ensures
        indices_in_range(sort_ops(s, n), count),
    decreases n,
{
    if n > 0 {
        lemma_sort_keeps_range(s, n - 1, count);
        let sorted = sort_ops(s, n - 1);
        let p = insert_at(sorted, s[n - 1].commit_index, 0);
        lemma_insert_at_bound(sorted, s[n - 1].commit_index, 0);
        let r = sorted.insert(p, s[n - 1]);
        assert forall|i: int| 0 <= i < r.len() implies (#[trigger] r[i].commit_index) < count by {
            if i < p {
                assert(r[i] == sorted[i]);
            } else if i == p {
                assert(r[i] == s[n - 1]);
            } else {
                assert(r[i] == sorted[i - 1]);
            }
        }
    }
}

/// Whether the operations are in the order of their commit indices.
pub open spec fn sorted_by_index(s: Seq<PlanOperation>) -> bool {
    forall|i: int, j: int|
        0 <= i < j < s.len() ==> (#[trigger] s[i].commit_index) <= (#[trigger] s[j].commit_index)
}

/// What `insert_at` finds: the operations before it have an index not above
/// `key`, and the one at it, if any, has a greater one.
proof fn lemma_insert_at(s: Seq<PlanOperation>, key: u32, i: int)
    requires
        0 <= i <= s.len(),
    ensures
        i <= insert_at(s, key, i) <= s.len(),
        forall|j: int| i <= j < insert_at(s, key, i) ==> (#[trigger] s[j].commit_index) <= key,
        insert_at(s, key, i) < s.len() ==> s[insert_at(s, key, i)].commit_index > key,
    decreases s.len() - i,
{
    if i < s.len() && s[i].commit_index <= key {
        lemma_insert_at(s, key, i + 1);
    }
}

/// Sorting a plan gives the same operations, in the order of their commit
/// indices.
pub proof fn lemma_sort_ops(s: Seq<PlanOperation>, n: int)
    requires
        0 <= n <= s.len(),
    ensures
        sorted_by_index(sort_ops(s, n)),
        sort_ops(s, n).to_multiset() == s.take(n).to_multiset(),
    decreases n,
{
    broadcast use vstd::seq_lib::to_multiset_insert, vstd::seq_lib::to_multiset_build;
    if n == 0 {
        assert(s.take(0) =~= Seq::<PlanOperation>::empty());
    } else {
        lemma_sort_ops(s, n - 1);
        let prev = sort_ops(s, n - 1);
        let x = s[n - 1];
        let p = insert_at(prev, x.commit_index, 0);
        lemma_insert_at(prev, x.commit_index, 0);
        let r = prev.insert(p, x);
        assert forall|i: int, j: int| 0 <= i < j < r.len() implies (#[trigger] r[i].commit_index)
            <= (#[trigger] r[j].commit_index) by {
            if j < p {
                assert(r[i] == prev[i] && r[j] == prev[j]);
            } else if j == p {
                assert(r[i] == prev[i] && r[j] == x);
            } else if i < p {
                assert(r[i] == prev[i] && r[j] == prev[j - 1]);
                assert(prev[p].commit_index <= prev[j - 1].commit_index || p == j - 1);
            } else if i == p {
                assert(r[i] == x && r[j] == prev[j - 1]);
                assert(prev[p].commit_index <= prev[j - 1].commit_index || p == j - 1);
            } else {
                assert(r[i] == prev[i - 1] && r[j] == prev[j - 1]);
            }
        }
        assert(s.take(n) == s.take(n - 1).push(x));
    }
}

/// The operations on commit `key`, in their order.
pub open spec fn with_index(s: Seq<PlanOperation>, key: u32) -> Seq<PlanOperation>
    decreases s.len(),
{
    if s.len() == 0 {
        Seq::empty()
    } else if s.last().commit_index == key {
        with_index(s.drop_last(), key).push(s.last())
    } else {
        with_index(s.drop_last(), key)
    }
}

/// Picking operations by commit distributes over concatenation.
proof fn lemma_with_index_concat(a: Seq<PlanOperation>, b: Seq<PlanOperation>, key: u32)
    ensures
        with_index(a + b, key) == with_index(a, key) + with_index(b, key),
    decreases b.len(),
{
    if b.len() == 0 {
        assert(a + b == a);
    } else {
        lemma_with_index_concat(a, b.drop_last(), key);
        assert((a + b).drop_last() == a + b.drop_last());
        assert((a + b).last() == b.last());
    }
}

/// No operation is picked where none is on that commit.
proof fn lemma_with_index_none(s: Seq<PlanOperation>, key: u32)
    requires
        forall|j: int| 0 <= j < s.len() ==> (#[trigger] s[j]).commit_index != key,
    ensures
        with_index(s, key) == Seq::<PlanOperation>::empty(),
    decreases s.len(),
{
    if s.len() > 0 {
        lemma_with_index_none(s.drop_last(), key);
    }
}

/// The sort of a plan is stable: the operations on any one commit come out
/// in the order they went in.
pub proof fn lemma_sort_ops_stable(s: Seq<PlanOperation>, n: int, key: u32)
    requires
        0 <= n <= s.len(),
    ensures
        with_index(sort_ops(s, n), key) == with_index(s.take(n), key),
    decreases n,
{
    if n == 0 {
        assert(s.take(0) == Seq::<PlanOperation>::empty());
    } else {
        lemma_sort_ops_stable(s, n - 1, key);
        lemma_sort_ops(s, n - 1);
        let prev = sort_ops(s, n - 1);
        let x = s[n - 1];
        let p = insert_at(prev, x.commit_index, 0);
        lemma_insert_at(prev, x.commit_index, 0);
        let pre = prev.take(p);
        let post = prev.skip(p);
        assert(prev == pre + post);
        assert(prev.insert(p, x) == pre + seq![x] + post);
        lemma_with_index_concat(pre + seq![x], post, key);
        lemma_with_index_concat(pre, seq![x], key);
        lemma_with_index_concat(pre, post, key);
        assert(with_index(seq![x], key) == if x.commit_index == key {
            seq![x]
        } else {
            Seq::<PlanOperation>::empty()
        }) by {
            assert(seq![x].drop_last() == Seq::<PlanOperation>::empty());
            assert(seq![x].last() == x);
            assert(with_index(Seq::<PlanOperation>::empty(), key) == Seq::<PlanOperation>::empty());
            assert(Seq::<PlanOperation>::empty().push(x) == seq![x]);
        }
        if x.commit_index == key {
            assert forall|j: int| 0 <= j < post.len() implies (#[trigger] post[j]).commit_index
                != key by {
                if j > 0 {
                    assert(prev[p].commit_index <= prev[p + j].commit_index);
                }
            }
            lemma_with_index_none(post, key);
        }
        assert(s.take(n).drop_last() == s.take(n - 1));
        assert(s.take(n).last() == x);
    }
}

/// What a typed count of commits is.
#[derive(Clone, Copy, PartialEq, Eq, Structural, Debug)]
pub enum CountInput {
    /// A number of commits, at least 1.
    Count(usize),
    /// 0, which asks for nothing.
    Zero,
    /// Not a number.
    Invalid,
}

/// Reads a count of commits as `str::parse::<usize>` does; 0 is told apart.
pub fn parse_count(input: &str) -> (r: CountInput)
    ensures
        match parse_usize(input@) {
            None => r == CountInput::Invalid,
            Some(n) => if n == 0 {
                r == CountInput::Zero
            } else {
                r == CountInput::Count(n as usize)
            },
        },
{
    let chars = to_chars(input);
    match parse_usize_exec(&chars) {
        None => CountInput::Invalid,
        Some(n) => if n == 0 {
            CountInput::Zero
        } else {
            CountInput::Count(n)
        },
    }
}

/// The cherry-picks that reword the commits of a range: each commit, oldest
/// first, under the message at its position; when there are fewer messages
/// than commits, the picks stop there with "bad index".
pub fn reword_steps(hashes: &Vec<String>, messages: &Vec<String>) -> (r: (Vec<(String, String)>, Option<String>))
    ensures
        r.0@.len() == if messages@.len() < hashes@.len() {
            messages@.len()
        } else {
            hashes@.len()
        },
        forall|i: int|
            0 <= i < r.0@.len() ==> #[trigger] r.0@[i].0@ == hashes@[i]@ && r.0@[i].1@ == messages@[i]@,
        match r.1 {
            Some(e) => messages@.len() < hashes@.len() && e@ == "bad index"@,
            None => messages@.len() >= hashes@.len(),
        },
{
    let mut steps: Vec<(String, String)> = Vec::new();
    let mut i: usize = 0;
    while i < hashes.len()
        invariant
            i <= hashes@.len(),
            i <= messages@.len(),
            steps@.len() == i,
            forall|j: int|
                0 <= j < i ==> #[trigger] steps@[j].0@ == hashes@[j]@ && steps@[j].1@ == messages@[j]@,
        decreases hashes.len() - i,
    {
        if i >= messages.len() {
            return (steps, Some(String::from_str("bad index")));
        }
        steps.push((hashes[i].clone(), messages[i].clone()));
        i = i + 1;
    }
    (steps, None)
}

} // verus!
