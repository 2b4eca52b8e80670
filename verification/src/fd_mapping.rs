//! Mappings of file descriptors of the monitor onto file descriptors of a
//! child process: their check, and the moves that set them up in the child
//! before it runs its program.

use vstd::prelude::*;

verus! {

/// A file descriptor of the monitor that the child gets as `child_fd`.
#[derive(Clone, Copy, Debug, PartialEq, Eq, Structural)]
pub struct FdMapping {
    /// The file descriptor in the monitor.
    pub parent_fd: i32,
    /// The file descriptor it becomes in the child.
    pub child_fd: i32,
}

/// Two or more mappings target the same child file descriptor.
#[derive(Clone, Copy, Debug, PartialEq, Eq, Structural)]
pub struct FdMappingCollision;

impl FdMappingCollision {
    /// The message of the error.
    pub fn message(&self) -> (s: &'static str)
        ensures
            s@ == "Two or more mappings for the same child FD"@,
    {
        "Two or more mappings for the same child FD"
    }
}

/// The child file descriptors of `mappings`, in order.
pub open spec fn child_fds_of(mappings: Seq<FdMapping>) -> Seq<i32> {
    mappings.map_values(|m: FdMapping| m.child_fd)
}

/// No value occurs twice in `s`.
pub open spec fn all_distinct(s: Seq<i32>) -> bool {
    forall|i: int, j: int| 0 <= i < j < s.len() ==> #[trigger] s[i] != #[trigger] s[j]
}

/// `s` is strictly increasing.
pub open spec fn strictly_increasing(s: Seq<i32>) -> bool {
    forall|i: int, j: int| 0 <= i < j < s.len() ==> #[trigger] s[i] < #[trigger] s[j]
}

/// The first position of `v` whose value is at least `x`.
fn lower_bound(v: &Vec<i32>, x: i32) -> (p: usize)
    requires
        strictly_increasing(v@),
    ensures
        p <= v@.len(),
        forall|i: int| 0 <= i < p ==> #[trigger] v@[i] < x,
        forall|i: int| p <= i < v@.len() ==> #[trigger] v@[i] >= x,
{
    let mut p: usize = 0;
    while p < v.len() && v[p] < x
        invariant
            p <= v@.len(),
            strictly_increasing(v@),
            forall|i: int| 0 <= i < p ==> #[trigger] v@[i] < x,
        decreases v.len() - p,
    {
        p = p + 1;
    }
    proof {
        assert forall|i: int| p <= i < v@.len() implies #[trigger] v@[i] >= x by {
            if i > p {
                assert(v@[p as int] < v@[i]);
            }
        }
    }
    p
}

/// The child file descriptors of `mappings`, sorted, where no two mappings
/// share one; a collision otherwise.
pub fn validate_child_fds(mappings: &[FdMapping]) -> (r: Result<Vec<i32>, FdMappingCollision>)
    ensures
        r is Ok <==> all_distinct(child_fds_of(mappings@)),
        r matches Ok(v) ==> strictly_increasing(v@) && v@.len() == mappings@.len() && (forall|x: i32|
            v@.contains(x) <==> child_fds_of(mappings@).contains(x)),
{
    let ghost fds = child_fds_of(mappings@);
    let mut v: Vec<i32> = Vec::new();
    let mut i: usize = 0;
    while i < mappings.len()
        invariant
            fds == child_fds_of(mappings@),
            i <= mappings@.len(),
            strictly_increasing(v@),
            v@.len() == i,
            all_distinct(fds.take(i as int)),
            forall|x: i32| v@.contains(x) <==> fds.take(i as int).contains(x),
        decreases mappings.len() - i,
    {
        let c = mappings[i].child_fd;
        assert(fds[i as int] == c);
        let p = lower_bound(&v, c);
        if p < v.len() && v[p] == c {
            proof {
                assert(v@.contains(c));
                assert(fds.take(i as int).contains(c));
                let j = choose|j: int| 0 <= j < i && fds.take(i as int)[j] == c;
                assert(fds[j] == fds[i as int]);
                assert(!all_distinct(fds));
            }
            return Err(FdMappingCollision);
        }
        let ghost old_v = v@;
        v.insert(p, c);
        proof {
            assert forall|k: int| 0 <= k < old_v.len() implies old_v[k] != c by {
                if k > p {
                    assert(old_v[p as int] < old_v[k]);
                }
            }
            assert(!old_v.contains(c));
            let t = fds.take(i + 1);
            assert(t =~= fds.take(i as int).push(c));
            assert forall|x: i32| v@.contains(x) <==> t.contains(x) by {
                if v@.contains(x) {
                    let k = choose|k: int| 0 <= k < v@.len() && v@[k] == x;
                    if k < p {
                        assert(old_v[k] == x);
                    } else if k > p {
                        assert(old_v[k - 1] == x);
                    }
                    if x != c {
                        assert(old_v.contains(x));
                        assert(fds.take(i as int).contains(x));
                        let q = choose|q: int| 0 <= q < i && fds.take(i as int)[q] == x;
                        assert(t[q] == x);
                    } else {
                        assert(t[i as int] == c);
                    }
                }
                if t.contains(x) {
                    let q = choose|q: int| 0 <= q < t.len() && t[q] == x;
                    if q < i {
                        assert(fds.take(i as int)[q] == x);
                        assert(fds.take(i as int).contains(x));
                        assert(old_v.contains(x));
                        let k = choose|k: int| 0 <= k < old_v.len() && old_v[k] == x;
                        if k < p {
                            assert(v@[k] == x);
                        } else {
                            assert(v@[k + 1] == x);
                        }
                    } else {
                        assert(v@[p as int] == c);
                    }
                }
            }
            assert(all_distinct(t)) by {
                assert forall|a: int, b: int| 0 <= a < b < t.len() implies #[trigger] t[a] != #[trigger] t[b] by {
                    if b == i {
                        assert(fds.take(i as int)[a] == t[a]);
                        if t[a] == c {
                            assert(fds.take(i as int).contains(c));
                        }
                    } else {
                        assert(fds.take(i as int)[a] == t[a]);
                        assert(fds.take(i as int)[b] == t[b]);
                    }
                }
            }
            assert(strictly_increasing(v@)) by {
                assert forall|a: int, b: int| 0 <= a < b < v@.len() implies #[trigger] v@[a] < #[trigger] v@[b] by {
                    if b < p {
                        assert(old_v[a] < old_v[b]);
                    } else if b == p {
                        assert(old_v[a] < c);
                    } else if a < p {
                        assert(old_v[b - 1] >= c);
                        if a < p {
                            assert(old_v[a] < c);
                        }
                    } else if a == p {
                        assert(old_v[b - 1] >= c);
                        assert(old_v[b - 1] != c);
                    } else {
                        assert(old_v[a - 1] < old_v[b - 1]);
                    }
                }
            }
        }
        i = i + 1;
    }
    assert(fds.take(i as int) =~= fds);
    Ok(v)
}

/// How one mapping is set up in the child.
#[derive(Clone, Copy, Debug, PartialEq, Eq, Structural)]
pub struct FdStep {
    /// The parent descriptor is the target of another mapping: it is first
    /// duplicated to a free descriptor at or above the plan's first safe one,
    /// so that setting up the other mapping does not close it.
    pub relocate: bool,
    /// The parent descriptor already is the child descriptor: it only loses
    /// its close-on-exec flag. Otherwise it is duplicated onto the child
    /// descriptor.
    pub in_place: bool,
}

/// The moves that set up a list of mappings in the child: first the
/// relocations, in order, then the steps, in order.
#[derive(Clone, Debug, PartialEq, Eq)]
pub struct FdPlan {
    /// The lowest descriptor that relocated descriptors may take: one above
    /// every descriptor of the mappings.
    pub first_safe_fd: i32,
    /// One step per mapping, in order.
    pub steps: Vec<FdStep>,
}

/// The largest descriptor of the mappings, parent or child.
pub open spec fn max_fd(ms: Seq<FdMapping>) -> int
    decreases ms.len(),
{
    if ms.len() == 0 {
        i32::MIN as int
    } else {
        let m = ms.last();
        let here = if m.parent_fd >= m.child_fd { m.parent_fd as int } else { m.child_fd as int };
        let rest = max_fd(ms.drop_last());
        if rest >= here { rest } else { here }
    }
}

/// The step of the mapping `m` among the mappings `ms`.
pub open spec fn spec_fd_step(ms: Seq<FdMapping>, m: FdMapping) -> FdStep {
    FdStep {
        relocate: child_fds_of(ms).contains(m.parent_fd) && m.parent_fd != m.child_fd,
        in_place: m.parent_fd == m.child_fd,
    }
}

pub proof fn lemma_max_fd(ms: Seq<FdMapping>)
    ensures
        forall|j: int| 0 <= j < ms.len() ==> max_fd(ms) >= (#[trigger] ms[j]).parent_fd && max_fd(ms)
            >= ms[j].child_fd,
        ms.len() > 0 ==> exists|j: int| 0 <= j < ms.len() && (max_fd(ms) == (#[trigger] ms[j]).parent_fd
            || max_fd(ms) == ms[j].child_fd),
    decreases ms.len(),
{
    if ms.len() > 0 {
        let rest = ms.drop_last();
        lemma_max_fd(rest);
        assert forall|j: int| 0 <= j < ms.len() implies max_fd(ms) >= (#[trigger] ms[j]).parent_fd
            && max_fd(ms) >= ms[j].child_fd by {
            if j < ms.len() - 1 {
                assert(ms[j] == rest[j]);
            }
        }
        let here = if ms.last().parent_fd >= ms.last().child_fd {
            ms.last().parent_fd as int
        } else {
            ms.last().child_fd as int
        };
        if max_fd(rest) >= here && rest.len() > 0 {
            let j = choose|j: int| 0 <= j < rest.len() && (max_fd(rest) == (#[trigger] rest[j]).parent_fd
                || max_fd(rest) == rest[j].child_fd);
            assert(ms[j] == rest[j]);
        } else {
            assert(ms[ms.len() - 1] == ms.last());
        }
    }
}

/// Whether some mapping of `ms` targets the descriptor `fd`.
fn targets(ms: &[FdMapping], fd: i32) -> (b: bool)
    ensures
        b == child_fds_of(ms@).contains(fd),
{
    let mut i: usize = 0;
    while i < ms.len()
        invariant
            i <= ms@.len(),
            forall|j: int| 0 <= j < i ==> (#[trigger] ms@[j]).child_fd != fd,
        decreases ms.len() - i,
    {
        if ms[i].child_fd == fd {
            assert(child_fds_of(ms@)[i as int] == fd);
            return true;
        }
        i = i + 1;
    }
    proof {
        if child_fds_of(ms@).contains(fd) {
            let j = choose|j: int| 0 <= j < child_fds_of(ms@).len() && child_fds_of(ms@)[j] == fd;
            assert(ms@[j].child_fd == fd);
        }
    }
    false
}

/// The moves that set up `mappings` in a child; `None` where there is none
/// to set up.
pub fn plan_fd_mappings(mappings: &[FdMapping]) -> (p: Option<FdPlan>)
    requires
        forall|j: int| 0 <= j < mappings@.len() ==> (#[trigger] mappings@[j]).parent_fd < i32::MAX
            && mappings@[j].child_fd < i32::MAX,
    ensures
        p is None <==> mappings@.len() == 0,
        p matches Some(plan) ==> {
            &&& plan.first_safe_fd == max_fd(mappings@) + 1
            &&& plan.steps@.len() == mappings@.len()
            &&& forall|j: int| 0 <= j < mappings@.len() ==> #[trigger] plan.steps@[j] == spec_fd_step(
                mappings@,
                mappings@[j],
            )
        },
{
    if mappings.len() == 0 {
        return None;
    }
    let mut top: i32 = i32::MIN;
    let mut i: usize = 0;
    while i < mappings.len()
        invariant
            i <= mappings@.len(),
            top == max_fd(mappings@.take(i as int)),
        decreases mappings.len() - i,
    {
        let m = mappings[i];
        let here = if m.parent_fd >= m.child_fd { m.parent_fd } else { m.child_fd };
        if here > top {
            top = here;
        }
        proof {
            let t = mappings@.take(i + 1);
            assert(t.drop_last() =~= mappings@.take(i as int));
            assert(t.last() == m);
        }
        i = i + 1;
    }
    proof {
        assert(mappings@.take(i as int) =~= mappings@);
        lemma_max_fd(mappings@);
        let j = choose|j: int| 0 <= j < mappings@.len() && (max_fd(mappings@) == (
        #[trigger] mappings@[j]).parent_fd || max_fd(mappings@) == mappings@[j].child_fd);
        assert(mappings@[j].parent_fd < i32::MAX && mappings@[j].child_fd < i32::MAX);
    }
    let first_safe_fd = top + 1;
    let mut steps: Vec<FdStep> = Vec::new();
    let mut k: usize = 0;
    while k < mappings.len()
        invariant
            k <= mappings@.len(),
            steps@.len() == k,
            forall|j: int| 0 <= j < k ==> #[trigger] steps@[j] == spec_fd_step(mappings@, mappings@[j]),
        decreases mappings.len() - k,
    {
        let m = mappings[k];
        let relocate = targets(mappings, m.parent_fd) && m.parent_fd != m.child_fd;
        steps.push(FdStep { relocate, in_place: m.parent_fd == m.child_fd });
        k = k + 1;
    }
    Some(FdPlan { first_safe_fd, steps })
}

/// A relocated descriptor lands above every descriptor of the mappings, so
/// it neither is a target of a mapping nor closes a parent descriptor; and
/// no mapping is both relocated and set up in place.
pub proof fn lemma_fd_plan_safe(ms: Seq<FdMapping>, i: int, j: int)
    requires
        0 <= i < ms.len(),
        0 <= j < ms.len(),
    ensures
        max_fd(ms) + 1 > ms[j].child_fd,
        max_fd(ms) + 1 > ms[j].parent_fd,
        !(spec_fd_step(ms, ms[i]).relocate && spec_fd_step(ms, ms[i]).in_place),
{
    lemma_max_fd(ms);
    assert(max_fd(ms) >= ms[j].parent_fd);
}

/// The descriptor that the parent descriptor of mapping `m` has once the
/// relocations are made: `relocated` where its step relocates it.
pub open spec fn moved_fd(m: FdMapping, step: FdStep, relocated: int) -> int {
    if step.relocate {
        relocated
    } else {
        m.parent_fd as int
    }
}

/// A descriptor table, from descriptor to the open file it refers to and
/// its close-on-exec flag, once the relocations of the steps are made in
/// order: the parent descriptor of mapping `i`, where its step relocates it,
/// is duplicated to `rel[i]` with the flag set, and then closed.
pub open spec fn after_relocations(
    t: Map<int, (int, bool)>,
    ms: Seq<FdMapping>,
    steps: Seq<FdStep>,
    rel: Seq<int>,
) -> Map<int, (int, bool)>
    decreases ms.len(),
{
    if ms.len() == 0 {
        t
    } else {
        let k = ms.len() - 1;
        let t1 = after_relocations(t, ms.drop_last(), steps, rel);
        if steps[k].relocate {
            t1.insert(rel[k], (t1[ms[k].parent_fd as int].0, true)).remove(ms[k].parent_fd as int)
        } else {
            t1
        }
    }
}

/// A descriptor table once the steps are made in order after the
/// relocations: each mapping duplicates its moved parent descriptor onto its
/// child descriptor, or, set up in place, only clears the flag; either way
/// the child descriptor is left without close-on-exec.
pub open spec fn after_moves(
    t: Map<int, (int, bool)>,
    ms: Seq<FdMapping>,
    steps: Seq<FdStep>,
    rel: Seq<int>,
) -> Map<int, (int, bool)>
    decreases ms.len(),
{
    if ms.len() == 0 {
        t
    } else {
        let k = ms.len() - 1;
        let t2 = after_moves(t, ms.drop_last(), steps, rel);
        t2.insert(ms[k].child_fd as int, (t2[moved_fd(ms[k], steps[k], rel[k])].0, false))
    }
}

/// The descriptor table after a plan: relocations first, then the steps.
pub open spec fn table_after_plan(
    t: Map<int, (int, bool)>,
    ms: Seq<FdMapping>,
    steps: Seq<FdStep>,
    rel: Seq<int>,
) -> Map<int, (int, bool)> {
    after_moves(after_relocations(t, ms, steps, rel), ms, steps, rel)
}

/// No two mappings share a parent descriptor: each owns its own.
pub open spec fn distinct_parents(ms: Seq<FdMapping>) -> bool {
    forall|i: int, j: int| 0 <= i < j < ms.len() ==> (#[trigger] ms[i]).parent_fd != (#[trigger] ms[j]).parent_fd
}

proof fn lemma_relocations(t: Map<int, (int, bool)>, ms: Seq<FdMapping>, steps: Seq<FdStep>, rel: Seq<int>, bound: int)
    requires
        distinct_parents(ms),
        forall|i: int| 0 <= i < ms.len() ==> (#[trigger] ms[i]).parent_fd <= bound,
        forall|i: int| 0 <= i < ms.len() && (#[trigger] steps[i]).relocate ==> rel[i] > bound,
        forall|i: int, j: int|
            0 <= i < j < ms.len() && (#[trigger] steps[i]).relocate && (#[trigger] steps[j]).relocate
                ==> rel[i] != rel[j],
        forall|i: int| 0 <= i < ms.len() ==> t.contains_key((#[trigger] ms[i]).parent_fd as int),
    ensures
        forall|f: int|
            f <= bound && (forall|i: int| 0 <= i < ms.len() && (#[trigger] steps[i]).relocate ==> ms[i].parent_fd != f)
                ==> (#[trigger] after_relocations(t, ms, steps, rel).contains_key(f)) == t.contains_key(f)
                && after_relocations(t, ms, steps, rel)[f] == t[f],
        forall|i: int| 0 <= i < ms.len() && (#[trigger] steps[i]).relocate ==> after_relocations(
            t,
            ms,
            steps,
            rel,
        ).contains_key(rel[i]) && after_relocations(t, ms, steps, rel)[rel[i]] == (t[ms[i].parent_fd as int].0, true),
    decreases ms.len(),
{
    if ms.len() > 0 {
        let k = ms.len() - 1;
        let pre = ms.drop_last();
        assert forall|i: int| 0 <= i < pre.len() implies (#[trigger] pre[i]).parent_fd <= bound by {
            assert(pre[i] == ms[i]);
        }
        assert forall|i: int| 0 <= i < pre.len() implies t.contains_key((#[trigger] pre[i]).parent_fd as int) by {
            assert(pre[i] == ms[i]);
        }
        assert forall|i: int, j: int| 0 <= i < j < pre.len() implies (#[trigger] pre[i]).parent_fd
            != (#[trigger] pre[j]).parent_fd by {
            assert(pre[i] == ms[i] && pre[j] == ms[j]);
        }
        lemma_relocations(t, pre, steps, rel, bound);
        let t1 = after_relocations(t, pre, steps, rel);
        let p = ms[k].parent_fd as int;
        assert(p <= bound);
        assert(t.contains_key(p));
        if steps[k].relocate {
            assert forall|i: int| 0 <= i < pre.len() && (#[trigger] steps[i]).relocate implies pre[i].parent_fd != p by {
                assert(pre[i] == ms[i]);
            }
            assert(t1.contains_key(p) == t.contains_key(p));
        }
        assert forall|f: int|
            f <= bound && (forall|i: int| 0 <= i < ms.len() && (#[trigger] steps[i]).relocate ==> ms[i].parent_fd != f)
                implies (#[trigger] after_relocations(t, ms, steps, rel).contains_key(f)) == t.contains_key(f)
                && after_relocations(t, ms, steps, rel)[f] == t[f] by {
            assert forall|i: int| 0 <= i < pre.len() && (#[trigger] steps[i]).relocate implies pre[i].parent_fd != f by {
                assert(pre[i] == ms[i]);
            }
            assert(t1.contains_key(f) == t.contains_key(f));
            if steps[k].relocate {
                assert(ms[k].parent_fd != f);
            }
        }
        assert forall|i: int| 0 <= i < ms.len() && (#[trigger] steps[i]).relocate implies after_relocations(
            t,
            ms,
            steps,
            rel,
        ).contains_key(rel[i]) && after_relocations(t, ms, steps, rel)[rel[i]] == (t[ms[i].parent_fd as int].0, true) by {
            if i < k {
                assert(pre[i] == ms[i]);
                if steps[k].relocate {
                    assert(rel[i] != rel[k]);
                }
            }
        }
    }
}

proof fn lemma_moves(
    t: Map<int, (int, bool)>,
    t1: Map<int, (int, bool)>,
    ms: Seq<FdMapping>,
    steps: Seq<FdStep>,
    rel: Seq<int>,
    bound: int,
)
    requires
        all_distinct(child_fds_of(ms)),
        forall|i: int| 0 <= i < ms.len() ==> (#[trigger] ms[i]).child_fd <= bound,
        forall|i: int| 0 <= i < ms.len() ==> (#[trigger] steps[i]).in_place == (ms[i].parent_fd == ms[i].child_fd),
        forall|i: int| 0 <= i < ms.len() && (#[trigger] steps[i]).in_place ==> !steps[i].relocate,
        forall|i: int, j: int|
            0 <= i < ms.len() && 0 <= j < ms.len() && !(#[trigger] steps[i]).relocate && !steps[i].in_place
                ==> (#[trigger] ms[j]).child_fd != ms[i].parent_fd,
        forall|i: int| 0 <= i < ms.len() && (#[trigger] steps[i]).relocate ==> rel[i] > bound && t1.contains_key(rel[i])
            && t1[rel[i]].0 == t[ms[i].parent_fd as int].0,
        forall|i: int| 0 <= i < ms.len() && !(#[trigger] steps[i]).relocate ==> t1.contains_key(ms[i].parent_fd as int)
            && t1[ms[i].parent_fd as int] == t[ms[i].parent_fd as int],
    ensures
        forall|i: int| 0 <= i < ms.len() ==> after_moves(t1, ms, steps, rel).contains_key(
            (#[trigger] ms[i]).child_fd as int,
        ) && after_moves(t1, ms, steps, rel)[ms[i].child_fd as int] == (t[ms[i].parent_fd as int].0, false),
        forall|f: int| (forall|j: int| 0 <= j < ms.len() ==> (#[trigger] ms[j]).child_fd != f) ==> (
        #[trigger] after_moves(t1, ms, steps, rel).contains_key(f)) == t1.contains_key(f) && after_moves(
            t1,
            ms,
            steps,
            rel,
        )[f] == t1[f],
    decreases ms.len(),
{
    if ms.len() > 0 {
        let k = ms.len() - 1;
        let pre = ms.drop_last();
        assert forall|i: int, j: int| 0 <= i < j < pre.len() implies #[trigger] child_fds_of(pre)[i]
            != #[trigger] child_fds_of(pre)[j] by {
            assert(child_fds_of(ms)[i] == child_fds_of(pre)[i]);
            assert(child_fds_of(ms)[j] == child_fds_of(pre)[j]);
        }
        assert forall|i: int| 0 <= i < pre.len() implies (#[trigger] pre[i]) == ms[i] by {}
        lemma_moves(t, t1, pre, steps, rel, bound);
        let t2 = after_moves(t1, pre, steps, rel);
        let m = ms[k];
        let c = m.child_fd as int;
        assert forall|j: int| 0 <= j < pre.len() implies (#[trigger] pre[j]).child_fd != m.child_fd by {
            assert(child_fds_of(ms)[j] != child_fds_of(ms)[k]);
        }
        if steps[k].relocate {
            assert forall|j: int| 0 <= j < pre.len() implies (#[trigger] pre[j]).child_fd != rel[k] by {
                assert(pre[j] == ms[j]);
            }
            assert(t2.contains_key(rel[k]) == t1.contains_key(rel[k]));
            assert(t2[rel[k]] == t1[rel[k]]);
        } else if steps[k].in_place {
            assert(t2.contains_key(c) == t1.contains_key(c));
            assert(t2[c] == t1[c]);
        } else {
            assert forall|j: int| 0 <= j < pre.len() implies (#[trigger] pre[j]).child_fd != m.parent_fd by {
                assert(pre[j] == ms[j]);
            }
            assert(t2.contains_key(m.parent_fd as int) == t1.contains_key(m.parent_fd as int));
            assert(t2[m.parent_fd as int] == t1[m.parent_fd as int]);
        }
        let t3 = after_moves(t1, ms, steps, rel);
        assert forall|i: int| 0 <= i < ms.len() implies t3.contains_key((#[trigger] ms[i]).child_fd as int)
            && t3[ms[i].child_fd as int] == (t[ms[i].parent_fd as int].0, false) by {
            if i < k {
                assert(pre[i] == ms[i]);
                assert(child_fds_of(ms)[i] != child_fds_of(ms)[k]);
            }
        }
        assert forall|f: int| (forall|j: int| 0 <= j < ms.len() ==> (#[trigger] ms[j]).child_fd != f) implies (
        #[trigger] t3.contains_key(f)) == t1.contains_key(f) && t3[f] == t1[f] by {
            assert forall|j: int| 0 <= j < pre.len() implies (#[trigger] pre[j]).child_fd != f by {
                assert(pre[j] == ms[j]);
            }
            assert(ms[k].child_fd != f);
            assert(t2.contains_key(f) == t1.contains_key(f));
        }
    }
}

/// The moves of a plan set every mapping up, also where parent and child
/// descriptors cross (such as 3 to 4 and 4 to 3): given a table in which
/// every parent descriptor is open, and relocations to distinct descriptors
/// above every descriptor of the mappings (as duplicating to the lowest
/// free descriptor from the first safe one gives), each child descriptor
/// ends up referring to the file that its parent descriptor referred to,
/// with its close-on-exec flag cleared.
pub proof fn lemma_fd_plan_maps_every_child(
    t: Map<int, (int, bool)>,
    ms: Seq<FdMapping>,
    steps: Seq<FdStep>,
    rel: Seq<int>,
)
    requires
        all_distinct(child_fds_of(ms)),
        distinct_parents(ms),
        steps.len() == ms.len(),
        rel.len() == ms.len(),
        forall|i: int| 0 <= i < ms.len() ==> #[trigger] steps[i] == spec_fd_step(ms, ms[i]),
        forall|i: int| 0 <= i < ms.len() && (#[trigger] steps[i]).relocate ==> rel[i] > max_fd(ms),
        forall|i: int, j: int|
            0 <= i < j < ms.len() && (#[trigger] steps[i]).relocate && (#[trigger] steps[j]).relocate
                ==> rel[i] != rel[j],
        forall|i: int| 0 <= i < ms.len() ==> t.contains_key((#[trigger] ms[i]).parent_fd as int),
    ensures
        forall|i: int| 0 <= i < ms.len() ==> table_after_plan(t, ms, steps, rel).contains_key(
            (#[trigger] ms[i]).child_fd as int,
        ) && table_after_plan(t, ms, steps, rel)[ms[i].child_fd as int] == (t[ms[i].parent_fd as int].0, false),
{
    lemma_max_fd(ms);
    let bound = max_fd(ms);
    assert forall|i: int| 0 <= i < ms.len() implies (#[trigger] ms[i]).parent_fd <= bound by {}
    lemma_relocations(t, ms, steps, rel, bound);
    let t1 = after_relocations(t, ms, steps, rel);
    assert forall|i: int| 0 <= i < ms.len() && !(#[trigger] steps[i]).relocate implies t1.contains_key(
        ms[i].parent_fd as int,
    ) && t1[ms[i].parent_fd as int] == t[ms[i].parent_fd as int] by {
        assert(ms[i].parent_fd <= bound);
        assert forall|j: int| 0 <= j < ms.len() && (#[trigger] steps[j]).relocate implies ms[j].parent_fd
            != ms[i].parent_fd by {
            if j < i {
                assert(ms[j].parent_fd != ms[i].parent_fd);
            } else if j > i {
                assert(ms[i].parent_fd != ms[j].parent_fd);
            }
        }
        assert(t1.contains_key(ms[i].parent_fd as int) == t.contains_key(ms[i].parent_fd as int));
    }
    assert forall|i: int, j: int|
        0 <= i < ms.len() && 0 <= j < ms.len() && !(#[trigger] steps[i]).relocate && !steps[i].in_place
            implies (#[trigger] ms[j]).child_fd != ms[i].parent_fd by {
        if ms[j].child_fd == ms[i].parent_fd {
            assert(child_fds_of(ms)[j] == ms[i].parent_fd);
            assert(child_fds_of(ms).contains(ms[i].parent_fd));
        }
    }
    lemma_moves(t, t1, ms, steps, rel, bound);
}

} // verus!
