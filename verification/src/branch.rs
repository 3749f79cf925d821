//! Branches: what is known of each, where it diverged from HEAD, and the
//! list of branches sorted by name.
use vstd::prelude::*;
use vstd::multiset::Multiset;
use vstd::utf8::{decode_utf8, valid_utf8};

use crate::errors::GitError;
use crate::text::{bytes2string, push_str, str_eq, to_chars};

verus! {

/// A commit id of git2.
#[verifier::external_type_specification]
#[verifier::external_body]
pub struct ExOid(git2::Oid);

/// A local branch.
#[derive(Debug)]
pub struct LocalBranch {
    pub is_head: bool,
    pub has_upstream: bool,
    pub upstream: Option<UpstreamBranch>,
    pub remote: Option<String>,
}

/// The branch a local branch tracks.
#[derive(Debug)]
pub struct UpstreamBranch {
    pub reference: String,
}

/// A remote branch.
#[derive(Debug)]
pub struct RemoteBranch {
    pub has_tracking: bool,
}

/// Local or remote details of a branch.
#[derive(Debug)]
pub enum BranchDetails {
    Local(LocalBranch),
    Remote(RemoteBranch),
}

/// Where a branch and HEAD diverged: their merge base, and how many commits
/// HEAD is ahead of and behind the branch.
#[derive(Debug)]
pub struct BranchDivergence {
    pub merge_base: git2::Oid,
    pub ahead: usize,
    pub behind: usize,
}

/// A summary of a branch.
#[derive(Debug)]
pub struct BranchInfo {
    pub name: String,
    /// The full reference, such as "refs/heads/main".
    pub reference: String,
    pub top_commit_message: String,
    pub details: BranchDetails,
    pub divergence: Option<BranchDivergence>,
}

impl BranchInfo {
    /// The details of a local branch; `None` for a remote one.
    pub fn local_details(&self) -> (r: Option<&LocalBranch>)
        ensures
            match self.details {
                BranchDetails::Local(d) => r == Some(&d),
                BranchDetails::Remote(_) => r is None,
            },
    {
        match &self.details {
            BranchDetails::Local(details) => Some(details),
            BranchDetails::Remote(_) => None,
        }
    }

    /// Whether the branch is local.
    pub fn is_local(&self) -> (r: bool)
        ensures
            r == (self.details is Local),
    {
        match &self.details {
            BranchDetails::Local(_) => true,
            BranchDetails::Remote(_) => false,
        }
    }
}

/// What the repository says of one branch, as read from it.
#[derive(Debug)]
pub struct RawBranch {
    /// The short name, as bytes.
    pub name: Vec<u8>,
    /// The full reference, as bytes.
    pub reference: Vec<u8>,
    /// The summary of the top commit, as bytes (empty when it has none).
    pub summary: Vec<u8>,
    pub is_head: bool,
    /// The reference of the upstream branch, as bytes, when there is one.
    pub upstream: Option<Vec<u8>>,
    /// The remote of the upstream branch, when there is one.
    pub remote: Option<String>,
    /// Whether a remote branch is tracked by a local one.
    pub has_tracking: bool,
    /// The merge base with HEAD and the commits ahead and behind, when the
    /// branch is not HEAD and has a common ancestor with it.
    pub merge: Option<(git2::Oid, usize, usize)>,
}

/// Whether the summary of a branch can be made: its name, reference and top
/// commit summary are UTF-8.
pub open spec fn raw_valid(b: RawBranch) -> bool {
    valid_utf8(b.name@) && valid_utf8(b.reference@) && valid_utf8(b.summary@)
}

/// The divergence recorded for a branch: none for HEAD, else the merge base
/// when there is one.
pub open spec fn spec_divergence(b: RawBranch) -> Option<(git2::Oid, usize, usize)> {
    if b.is_head {
        None
    } else {
        b.merge
    }
}

/// Whether `info` is the summary of `b`, made as a local or a remote branch.
pub open spec fn summarizes(info: BranchInfo, b: RawBranch, local: bool) -> bool {
    &&& info.name@ == decode_utf8(b.name@)
    &&& info.reference@ == decode_utf8(b.reference@)
    &&& info.top_commit_message@ == decode_utf8(b.summary@)
    &&& if local {
        &&& info.details matches BranchDetails::Local(d)
        &&& d.is_head == b.is_head
        &&& d.remote == b.remote
        &&& match b.upstream {
            Some(u) => if valid_utf8(u@) {
                &&& d.has_upstream
                &&& d.upstream matches Some(up)
                &&& up.reference@ == decode_utf8(u@)
            } else {
                !d.has_upstream && d.upstream is None
            },
            None => !d.has_upstream && d.upstream is None,
        }
    } else {
        info.details matches BranchDetails::Remote(r) && r.has_tracking == b.has_tracking
    }
    &&& match spec_divergence(b) {
        Some((base, ahead, behind)) => info.divergence matches Some(d) && d.merge_base == base
            && d.ahead == ahead && d.behind == behind,
        None => info.divergence is None,
    }
}

/// The summary of one branch; `None` when a name is not UTF-8.
pub fn branch_info(b: RawBranch, local: bool) -> (r: Option<BranchInfo>)
    ensures
        r is Some <==> raw_valid(b),
        r matches Some(info) ==> summarizes(info, b, local),
{
    let reference = match bytes2string(&b.reference) {
        Some(s) => s,
        None => return None,
    };
    let details = if local {
        let upstream = match &b.upstream {
            Some(u) => match bytes2string(u) {
                Some(s) => Some(UpstreamBranch { reference: s }),
                None => None,
            },
            None => None,
        };
        BranchDetails::Local(
            LocalBranch {
                is_head: b.is_head,
                has_upstream: upstream.is_some(),
                upstream,
                remote: b.remote,
            },
        )
    } else {
        BranchDetails::Remote(RemoteBranch { has_tracking: b.has_tracking })
    };
    let divergence = if b.is_head {
        None
    } else {
        match b.merge {
            Some((merge_base, ahead, behind)) => Some(BranchDivergence { merge_base, ahead, behind }),
            None => None,
        }
    };
    let name = match bytes2string(&b.name) {
        Some(s) => s,
        None => return None,
    };
    let top_commit_message = match bytes2string(&b.summary) {
        Some(s) => s,
        None => return None,
    };
    Some(BranchInfo { name, reference, top_commit_message, details, divergence })
}

/// Whether `a` comes before `b` or equals it in lexicographic order of
/// characters, which is the order of their UTF-8 bytes.
pub open spec fn name_le(a: Seq<char>, b: Seq<char>) -> bool
    decreases a.len(),
{
    if a.len() == 0 {
        true
    } else if b.len() == 0 {
        false
    } else if a[0] != b[0] {
        a[0] < b[0]
    } else {
        name_le(a.drop_first(), b.drop_first())
    }
}

/// Whether `a` comes before `b` or equals it.
pub fn names_in_order(a: &str, b: &str) -> (r: bool)
    ensures
        r == name_le(a@, b@),
{
    let x = to_chars(a);
    let y = to_chars(b);
    assert(a@.skip(0) == a@);
    assert(b@.skip(0) == b@);
    let mut i: usize = 0;
    while i < x.len() && i < y.len()
        invariant
            i <= x.len(),
            i <= y.len(),
            x@ == a@,
            y@ == b@,
            name_le(a@, b@) == name_le(a@.skip(i as int), b@.skip(i as int)),
        decreases x.len() - i,
    {
        let ghost (p, q) = (a@.skip(i as int), b@.skip(i as int));
        assert(p[0] == x@[i as int] && q[0] == y@[i as int]);
        if x[i] != y[i] {
            return x[i] < y[i];
        }
        assert(p.drop_first() == a@.skip(i + 1));
        assert(q.drop_first() == b@.skip(i + 1));
        i = i + 1;
    }
    i == x.len()
}

/// Index of the first branch whose name comes after `name`.
pub open spec fn first_after(s: Seq<BranchInfo>, name: Seq<char>, i: int) -> int
    decreases s.len() - i,
{
    if i < 0 || i >= s.len() {
        s.len() as int
    } else if !name_le(s[i].name@, name) {
        i
    } else {
        first_after(s, name, i + 1)
    }
}

/// `s` with `x` put before the first branch whose name comes after its own.
pub open spec fn insert_by_name(s: Seq<BranchInfo>, x: BranchInfo) -> Seq<BranchInfo> {
    s.insert(first_after(s, x.name@, 0), x)
}

/// The first `n` branches sorted by name, branches of equal names in their
/// first order (a stable sort).
pub open spec fn sort_by_name(s: Seq<BranchInfo>, n: int) -> Seq<BranchInfo>
    decreases n,
{
    if n <= 0 || n > s.len() {
        Seq::empty()
    } else {
        insert_by_name(sort_by_name(s, n - 1), s[n - 1])
    }
}

/// Puts `x` into the sorted list `v` after every branch whose name does not
/// come after its own.
fn insert_sorted(v: &mut Vec<BranchInfo>, x: BranchInfo)
    ensures
        final(v)@ == insert_by_name(old(v)@, x),
{
    let ghost s = v@;
    let mut i: usize = 0;
    while i < v.len() && names_in_order(v[i].name.as_str(), x.name.as_str())
        invariant
            i <= v.len(),
            s == v@,
            first_after(s, x.name@, 0) == first_after(s, x.name@, i as int),
        decreases v.len() - i,
    {
        i = i + 1;
    }
    assert(first_after(s, x.name@, i as int) == i);
    v.insert(i, x);
}

/// The branches sorted by name, a stable sort.
pub fn sort_branches(branches: Vec<BranchInfo>) -> (r: Vec<BranchInfo>)
    ensures
        r@ == sort_by_name(branches@, branches@.len() as int),
{
    let ghost all = branches@;
    let n = branches.len();
    let mut rest = branches;
    let mut sorted: Vec<BranchInfo> = Vec::new();
    let mut k: usize = 0;
    while rest.len() > 0
        invariant
            n == all.len(),
            k <= all.len(),
            rest@ == all.skip(k as int),
            sorted@ == sort_by_name(all, k as int),
        decreases rest.len(),
    {
        let x = rest.remove(0);
        assert(x == all[k as int]);
        insert_sorted(&mut sorted, x);
        assert(rest@ == all.skip(k + 1));
        k = k + 1;
    }
    assert(k == all.len());
    sorted
}

/// The summaries of the branches as read, sorted by name; `None` when a name
/// of one of them is not UTF-8.
pub fn get_branches_info(raw: Vec<RawBranch>, local: bool) -> (r: Option<Vec<BranchInfo>>)
    ensures
        r is Some <==> (forall|i: int| 0 <= i < raw@.len() ==> raw_valid(#[trigger] raw@[i])),
        r matches Some(v) ==> exists|infos: Seq<BranchInfo>|
            {
                &&& infos.len() == raw@.len()
                &&& (forall|i: int|
                    0 <= i < raw@.len() ==> summarizes(#[trigger] infos[i], raw@[i], local))
                &&& v@ == sort_by_name(infos, infos.len() as int)
            },
{
    let ghost all = raw@;
    let n = raw.len();
    let mut rest = raw;
    let mut infos: Vec<BranchInfo> = Vec::new();
    let mut k: usize = 0;
    while rest.len() > 0
        invariant
            n == all.len(),
            all == raw@,
            k <= all.len(),
            rest@ == all.skip(k as int),
            infos@.len() == k,
            forall|i: int| 0 <= i < k ==> raw_valid(#[trigger] all[i]),
            forall|i: int| 0 <= i < k ==> summarizes(#[trigger] infos@[i], all[i], local),
        decreases rest.len(),
    {
        let b = rest.remove(0);
        assert(b == all[k as int]);
        match branch_info(b, local) {
            Some(info) => {
                infos.push(info);
            },
            None => {
                assert(!raw_valid(all[k as int]));
                return None;
            },
        }
        assert(rest@ == all.skip(k + 1));
        k = k + 1;
    }
    let ghost iv = infos@;
    let sorted = sort_branches(infos);
    assert(forall|i: int| 0 <= i < iv.len() ==> summarizes(#[trigger] iv[i], all[i], local));
    Some(sorted)
}

/// Whether the branches are in the order of their names.
pub open spec fn sorted_by_name(s: Seq<BranchInfo>) -> bool {
    forall|i: int, j: int| 0 <= i < j < s.len() ==> name_le(#[trigger] s[i].name@, #[trigger] s[j].name@)
}

/// Any two names are in order one way or the other.
pub proof fn lemma_name_le_total(a: Seq<char>, b: Seq<char>)
    ensures
        name_le(a, b) || name_le(b, a),
    decreases a.len(),
{
    if a.len() > 0 && b.len() > 0 {
        if a[0] == b[0] {
            lemma_name_le_total(a.drop_first(), b.drop_first());
        }
    }
}

/// The order of names is transitive.
pub proof fn lemma_name_le_trans(a: Seq<char>, b: Seq<char>, c: Seq<char>)
    requires
        name_le(a, b),
        name_le(b, c),
    ensures
        name_le(a, c),
    decreases a.len(),
{
    if a.len() > 0 && b.len() > 0 && c.len() > 0 && a[0] == b[0] && b[0] == c[0] {
        lemma_name_le_trans(a.drop_first(), b.drop_first(), c.drop_first());
    }
}

/// What `first_after` finds: every branch before it has a name in order with
/// `name`, and the branch at it, if any, does not.
proof fn lemma_first_after(s: Seq<BranchInfo>, name: Seq<char>, i: int)
    requires
        0 <= i <= s.len(),
    ensures
        i <= first_after(s, name, i) <= s.len(),
        forall|j: int| i <= j < first_after(s, name, i) ==> name_le(#[trigger] s[j].name@, name),
        first_after(s, name, i) < s.len() ==> !name_le(s[first_after(s, name, i)].name@, name),
    decreases s.len() - i,
{
    if i < s.len() && name_le(s[i].name@, name) {
        lemma_first_after(s, name, i + 1);
    }
}

/// Inserting by name keeps a sorted list sorted.
proof fn lemma_insert_by_name_sorted(s: Seq<BranchInfo>, x: BranchInfo)
    requires
        sorted_by_name(s),
    ensures
        sorted_by_name(insert_by_name(s, x)),
{
    let p = first_after(s, x.name@, 0);
    lemma_first_after(s, x.name@, 0);
    let r = s.insert(p, x);
    assert forall|i: int, j: int| 0 <= i < j < r.len() implies name_le(
        #[trigger] r[i].name@,
        #[trigger] r[j].name@,
    ) by {
        if j < p {
            assert(r[i] == s[i] && r[j] == s[j]);
        } else if j == p {
            assert(r[i] == s[i] && r[j] == x);
        } else if i < p {
            assert(r[i] == s[i] && r[j] == s[j - 1]);
            assert(name_le(s[i].name@, x.name@));
            lemma_name_le_total(s[p].name@, x.name@);
            if p < j - 1 {
                lemma_name_le_trans(x.name@, s[p].name@, s[j - 1].name@);
            }
            lemma_name_le_trans(s[i].name@, x.name@, s[j - 1].name@);
        } else if i == p {
            assert(r[i] == x && r[j] == s[j - 1]);
            lemma_name_le_total(s[p].name@, x.name@);
            if p < j - 1 {
                lemma_name_le_trans(x.name@, s[p].name@, s[j - 1].name@);
            }
        } else {
            assert(r[i] == s[i - 1] && r[j] == s[j - 1]);
        }
    }
}

/// Sorting by name gives the same branches, in the order of their names.
pub proof fn lemma_sort_by_name(s: Seq<BranchInfo>, n: int)
    requires
        0 <= n <= s.len(),
    ensures
        sorted_by_name(sort_by_name(s, n)),
        sort_by_name(s, n).to_multiset() == s.take(n).to_multiset(),
    decreases n,
{
    broadcast use vstd::seq_lib::to_multiset_insert, vstd::seq_lib::to_multiset_build;
    if n == 0 {
        assert(s.take(0) =~= Seq::<BranchInfo>::empty());
    } else {
        lemma_sort_by_name(s, n - 1);
        let prev = sort_by_name(s, n - 1);
        lemma_insert_by_name_sorted(prev, s[n - 1]);
        lemma_first_after(prev, s[n - 1].name@, 0);
        assert(s.take(n) == s.take(n - 1).push(s[n - 1]));
    }
}

/// The branches named `name`, in their order.
pub open spec fn with_name(s: Seq<BranchInfo>, name: Seq<char>) -> Seq<BranchInfo>
    decreases s.len(),
{
    if s.len() == 0 {
        Seq::empty()
    } else if s.last().name@ == name {
        with_name(s.drop_last(), name).push(s.last())
    } else {
        with_name(s.drop_last(), name)
    }
}

/// Picking branches by name distributes over concatenation.
proof fn lemma_with_name_concat(a: Seq<BranchInfo>, b: Seq<BranchInfo>, name: Seq<char>)
    ensures
        with_name(a + b, name) == with_name(a, name) + with_name(b, name),
    decreases b.len(),
{
    if b.len() == 0 {
        assert(a + b == a);
    } else {
        lemma_with_name_concat(a, b.drop_last(), name);
        assert((a + b).drop_last() == a + b.drop_last());
        assert((a + b).last() == b.last());
    }
}

/// No branch is picked where none has the name.
proof fn lemma_with_name_none(s: Seq<BranchInfo>, name: Seq<char>)
    requires
        forall|j: int| 0 <= j < s.len() ==> (#[trigger] s[j]).name@ != name,
    ensures
        with_name(s, name) == Seq::<BranchInfo>::empty(),
    decreases s.len(),
{
    if s.len() > 0 {
        lemma_with_name_none(s.drop_last(), name);
    }
}

/// Every name comes before or equals itself.
proof fn lemma_name_le_refl(a: Seq<char>)
    ensures
        name_le(a, a),
    decreases a.len(),
{
    if a.len() > 0 {
        lemma_name_le_refl(a.drop_first());
    }
}

/// Inserting by name into a sorted list puts the branch after those of the
/// same name and leaves the other names as they were.
proof fn lemma_with_name_insert(s: Seq<BranchInfo>, x: BranchInfo, name: Seq<char>)
    requires
        sorted_by_name(s),
    ensures
        with_name(insert_by_name(s, x), name) == if x.name@ == name {
            with_name(s, name).push(x)
        } else {
            with_name(s, name)
        },
{
    let p = first_after(s, x.name@, 0);
    lemma_first_after(s, x.name@, 0);
    let pre = s.take(p);
    let post = s.skip(p);
    assert(s == pre + post);
    assert(s.insert(p, x) == pre + seq![x] + post);
    lemma_with_name_concat(pre + seq![x], post, name);
    lemma_with_name_concat(pre, seq![x], name);
    lemma_with_name_concat(pre, post, name);
    assert(with_name(seq![x], name) == if x.name@ == name {
        seq![x]
    } else {
        Seq::<BranchInfo>::empty()
    }) by {
        assert(seq![x].drop_last() == Seq::<BranchInfo>::empty());
        assert(seq![x].last() == x);
        assert(with_name(Seq::<BranchInfo>::empty(), name) == Seq::<BranchInfo>::empty());
        assert(Seq::<BranchInfo>::empty().push(x) == seq![x]);
    }
    if x.name@ == name {
        assert forall|j: int| 0 <= j < post.len() implies (#[trigger] post[j]).name@ != name by {
            lemma_name_le_refl(x.name@);
            if post[j].name@ == name {
                if j > 0 {
                    assert(name_le(s[p].name@, s[p + j].name@));
                    lemma_name_le_trans(s[p].name@, s[p + j].name@, x.name@);
                }
            }
        }
        lemma_with_name_none(post, name);
        assert(with_name(post, name) == Seq::<BranchInfo>::empty());
    }
}

/// The sort is stable: the branches of any one name come out in the order
/// they went in.
pub proof fn lemma_sort_by_name_stable(s: Seq<BranchInfo>, n: int, name: Seq<char>)
    requires
        0 <= n <= s.len(),
    ensures
        with_name(sort_by_name(s, n), name) == with_name(s.take(n), name),
    decreases n,
{
    if n == 0 {
        assert(s.take(0) == Seq::<BranchInfo>::empty());
    } else {
        lemma_sort_by_name_stable(s, n - 1, name);
        lemma_sort_by_name(s, n - 1);
        lemma_with_name_insert(sort_by_name(s, n - 1), s[n - 1], name);
        assert(s.take(n).drop_last() == s.take(n - 1));
        assert(s.take(n).last() == s[n - 1]);
    }
}

/// Whether a branch is ahead of where it diverged.
pub open spec fn is_ahead(b: BranchInfo) -> bool {
    b.divergence matches Some(d) && d.ahead > 0
}

/// The branches among the first `n` that are ahead, in order.
pub open spec fn ahead_only(s: Seq<BranchInfo>, n: int) -> Seq<BranchInfo>
    decreases n,
{
    if n <= 0 || n > s.len() {
        Seq::empty()
    } else if is_ahead(s[n - 1]) {
        ahead_only(s, n - 1).push(s[n - 1])
    } else {
        ahead_only(s, n - 1)
    }
}

/// The branches that are ahead of where they diverged from HEAD, in order.
pub fn get_diverged_branches(branches: Vec<BranchInfo>) -> (r: Vec<BranchInfo>)
    ensures
        r@ == ahead_only(branches@, branches@.len() as int),
{
    let ghost all = branches@;
    let n = branches.len();
    let mut rest = branches;
    let mut out: Vec<BranchInfo> = Vec::new();
    let mut k: usize = 0;
    while rest.len() > 0
        invariant
            n == all.len(),
            k <= all.len(),
            rest@ == all.skip(k as int),
            out@ == ahead_only(all, k as int),
        decreases rest.len(),
    {
        let b = rest.remove(0);
        assert(b == all[k as int]);
        let ahead = match &b.divergence {
            Some(d) => d.ahead > 0,
            None => false,
        };
        if ahead {
            out.push(b);
        }
        assert(rest@ == all.skip(k + 1));
        k = k + 1;
    }
    out
}

/// Index of the first branch named `name` that is ahead.
pub open spec fn diverged_index(s: Seq<BranchInfo>, name: Seq<char>, i: int) -> Option<int>
    decreases s.len() - i,
{
    if i < 0 || i >= s.len() {
        None
    } else if s[i].name@ == name && is_ahead(s[i]) {
        Some(i)
    } else {
        diverged_index(s, name, i + 1)
    }
}

/// The first branch named `branch` that is ahead of where it diverged.
pub fn find_diverged_branch(branches: Vec<BranchInfo>, branch: &str) -> (r: Option<BranchInfo>)
    ensures
        match diverged_index(branches@, branch@, 0) {
            Some(i) => r == Some(branches@[i]),
            None => r is None,
        },
{
    let ghost all = branches@;
    let n = branches.len();
    let mut rest = branches;
    let mut k: usize = 0;
    while rest.len() > 0
        invariant
            n == all.len(),
            all == branches@,
            k <= all.len(),
            rest@ == all.skip(k as int),
            diverged_index(all, branch@, 0) == diverged_index(all, branch@, k as int),
        decreases rest.len(),
    {
        let b = rest.remove(0);
        assert(b == all[k as int]);
        let ahead = match &b.divergence {
            Some(d) => d.ahead > 0,
            None => false,
        };
        if ahead && str_eq(b.name.as_str(), branch) {
            assert(diverged_index(all, branch@, k as int) == Some(k as int));
            return Some(b);
        }
        assert(rest@ == all.skip(k + 1));
        k = k + 1;
    }
    None
}

/// The error given when the point a branch diverged at is not an ancestor of
/// HEAD.
pub fn not_ancestor_error(spec: &str) -> (r: GitError)
    ensures
        r matches GitError::Generic(m) && m@ == spec@ + " is not ancestor of HEAD"@,
{
    let mut m = String::from_str(spec);
    push_str(&mut m, " is not ancestor of HEAD");
    GitError::Generic(m)
}

/// The diverged branches are exactly those of the list that are ahead, in
/// their order: each is ahead, and each ahead branch is among them.
pub proof fn lemma_ahead_only(s: Seq<BranchInfo>, n: int)
    requires
        0 <= n <= s.len(),
    ensures
        forall|i: int| 0 <= i < ahead_only(s, n).len() ==> is_ahead(#[trigger] ahead_only(s, n)[i]),
        forall|i: int| 0 <= i < n && is_ahead(#[trigger] s[i]) ==> ahead_only(s, n).contains(s[i]),
    decreases n,
{
    if n > 0 {
        lemma_ahead_only(s, n - 1);
        let prev = ahead_only(s, n - 1);
        if is_ahead(s[n - 1]) {
            assert(ahead_only(s, n) == prev.push(s[n - 1]));
            assert(ahead_only(s, n)[prev.len() as int] == s[n - 1]);
            assert forall|i: int| 0 <= i < n && is_ahead(#[trigger] s[i]) implies ahead_only(
                s,
                n,
            ).contains(s[i]) by {
                if i < n - 1 {
                    let j = choose|j: int| 0 <= j < prev.len() && prev[j] == s[i];
                    assert(ahead_only(s, n)[j] == s[i]);
                }
            }
        }
    }
}

} // verus!
