use crate::platform::MemorySet;
use crate::task::{TaskControlBlock, TaskControlBlockInner, TaskStatus};
use vstd::prelude::*;

verus! {

/// Slot `p` holds the process with identifier `p`; its weight is positive
/// and it lists no child twice.
pub open spec fn slot_ok(ts: Seq<TaskControlBlock>, p: int) -> bool {
    &&& ts[p].pid.0 == p
    &&& ts[p].inner.priority > 0
    &&& ts[p].inner.children@.no_duplicates()
}

/// If process `c` names a parent, that parent is registered and lists `c`.
pub open spec fn parent_link_ok(ts: Seq<TaskControlBlock>, c: int) -> bool {
    ts[c].inner.parent is Some ==> {
        &&& ts[c].inner.parent.unwrap() < ts.len()
        &&& ts[ts[c].inner.parent.unwrap() as int].inner.children@.contains(c as usize)
    }
}

/// The `i`-th child that process `p` lists is registered and names `p` as
/// its parent.
pub open spec fn child_link_ok(ts: Seq<TaskControlBlock>, p: int, i: int) -> bool {
    &&& ts[p].inner.children@[i] < ts.len()
    &&& ts[ts[p].inner.children@[i] as int].inner.parent == Some(p as usize)
}

/// The process table is a forest: every slot is in order, every parent
/// reference is answered by a child entry, and every child entry by a
/// parent reference.
pub open spec fn tree_wf(ts: Seq<TaskControlBlock>) -> bool {
    &&& forall|p: int| 0 <= p < ts.len() ==> #[trigger] slot_ok(ts, p)
    &&& forall|c: int| 0 <= c < ts.len() ==> #[trigger] parent_link_ok(ts, c)
    &&& forall|p: int, i: int|
        0 <= p < ts.len() && 0 <= i < ts[p].inner.children@.len() ==> #[trigger] child_link_ok(
            ts,
            p,
            i,
        )
}

/// Two records agree on identity, weight and tree position.
pub open spec fn same_links(a: TaskControlBlock, b: TaskControlBlock) -> bool {
    &&& a.pid == b.pid
    &&& a.inner.priority == b.inner.priority
    &&& a.inner.parent == b.inner.parent
    &&& a.inner.children@ == b.inner.children@
}

/// A table keeps its forest when no record changes identity, weight or
/// tree position.
pub proof fn lemma_tree_wf_same_links(a: Seq<TaskControlBlock>, b: Seq<TaskControlBlock>)
    requires
        tree_wf(a),
        a.len() == b.len(),
        forall|p: int|
            #![trigger a[p]]
            #![trigger b[p]]
            0 <= p < a.len() ==> same_links(a[p], b[p]),
    ensures
        tree_wf(b),
{
    assert forall|p: int| 0 <= p < b.len() implies #[trigger] slot_ok(b, p) by {
        assert(slot_ok(a, p));
        assert(same_links(a[p], b[p]));
    }
    assert forall|c: int| 0 <= c < b.len() implies #[trigger] parent_link_ok(b, c) by {
        assert(parent_link_ok(a, c));
        assert(same_links(a[c], b[c]));
        if a[c].inner.parent is Some {
            let p = a[c].inner.parent.unwrap() as int;
            assert(same_links(a[p], b[p]));
        }
    }
    assert forall|p: int, i: int|
        0 <= p < b.len() && 0 <= i < b[p].inner.children@.len() implies #[trigger] child_link_ok(
        b,
        p,
        i,
    ) by {
        assert(same_links(a[p], b[p]));
        assert(child_link_ok(a, p, i));
        let c = a[p].inner.children@[i] as int;
        assert(same_links(a[c], b[c]));
    }
}

/// Record `p` after process `c` exited with `code` and the children in
/// `moved` went to `root`: `c` is a Zombie with that exit code, no children
/// and no data pages; each moved child names `root` as parent; `root` lists
/// the moved children after its own; nothing else differs.
pub open spec fn exited_at(
    before: Seq<TaskControlBlock>,
    after: Seq<TaskControlBlock>,
    p: int,
    c: int,
    root: int,
    code: i32,
    moved: Seq<usize>,
) -> bool {
    &&& after[p] == (TaskControlBlock {
        inner: TaskControlBlockInner {
            task_status: after[p].inner.task_status,
            exit_code: after[p].inner.exit_code,
            memory_set: after[p].inner.memory_set,
            parent: after[p].inner.parent,
            children: after[p].inner.children,
            ..before[p].inner
        },
        ..before[p]
    })
    &&& after[p].inner.task_status == if p == c {
        TaskStatus::Zombie
    } else {
        before[p].inner.task_status
    }
    &&& after[p].inner.exit_code == if p == c {
        code
    } else {
        before[p].inner.exit_code
    }
    &&& after[p].inner.memory_set == if p == c {
        MemorySet { data_pages: 0, ..before[p].inner.memory_set }
    } else {
        before[p].inner.memory_set
    }
    &&& after[p].inner.parent == if moved.contains(p as usize) {
        Some(root as usize)
    } else {
        before[p].inner.parent
    }
    &&& after[p].inner.children@ == if p == c {
        Seq::<usize>::empty()
    } else if p == root {
        before[p].inner.children@ + moved
    } else {
        before[p].inner.children@
    }
}

/// The table after process `c` exited with `code`, all of its children
/// going to `root`.
pub open spec fn exited(
    before: Seq<TaskControlBlock>,
    after: Seq<TaskControlBlock>,
    c: int,
    root: int,
    code: i32,
) -> bool {
    &&& after.len() == before.len()
    &&& forall|p: int|
        #![trigger after[p]]
        0 <= p < before.len() ==> exited_at(
            before,
            after,
            p,
            c,
            root,
            code,
            before[c].inner.children@,
        )
}

/// The table after `parent` got the new child `after[before.len()]`.
pub open spec fn born(
    before: Seq<TaskControlBlock>,
    after: Seq<TaskControlBlock>,
    parent: int,
) -> bool {
    let n = before.len() as int;
    &&& after.len() == n + 1
    &&& forall|p: int| #![trigger after[p]] 0 <= p < n && p != parent ==> after[p] == before[p]
    &&& after[parent] == (TaskControlBlock {
        inner: TaskControlBlockInner {
            children: after[parent].inner.children,
            ..before[parent].inner
        },
        ..before[parent]
    })
    &&& after[parent].inner.children@ == before[parent].inner.children@.push(n as usize)
    &&& after[n].pid.0 == n
    &&& after[n].inner.parent == Some(parent as usize)
    &&& after[n].inner.children@ == Seq::<usize>::empty()
    &&& after[n].inner.task_status == TaskStatus::Ready
}

/// A Zombie lists no children and holds no data pages.
pub open spec fn zombie_ok(ts: Seq<TaskControlBlock>, p: int) -> bool {
    ts[p].inner.task_status == TaskStatus::Zombie ==> {
        &&& ts[p].inner.children@.len() == 0
        &&& ts[p].inner.memory_set.data_pages == 0
    }
}

/// Every Zombie of the table is as `zombie_ok` says.
pub open spec fn zombies_ok(ts: Seq<TaskControlBlock>) -> bool {
    forall|p: int| 0 <= p < ts.len() ==> #[trigger] zombie_ok(ts, p)
}

/// If `b` is a Zombie, `a` was one already, with the same children and the
/// same address space.
pub open spec fn zombie_kept(a: TaskControlBlock, b: TaskControlBlock) -> bool {
    b.inner.task_status == TaskStatus::Zombie ==> {
        &&& a.inner.task_status == TaskStatus::Zombie
        &&& b.inner.children@ == a.inner.children@
        &&& b.inner.memory_set == a.inner.memory_set
    }
}

/// Zombies stay in order when no record turns Zombie and no Zombie's
/// children or address space change.
pub proof fn lemma_zombies_kept(a: Seq<TaskControlBlock>, b: Seq<TaskControlBlock>)
    requires
        zombies_ok(a),
        a.len() == b.len(),
        forall|p: int|
            #![trigger a[p]]
            #![trigger b[p]]
            0 <= p < a.len() ==> zombie_kept(a[p], b[p]),
    ensures
        zombies_ok(b),
{
    assert forall|p: int| 0 <= p < b.len() implies #[trigger] zombie_ok(b, p) by {
        assert(zombie_ok(a, p));
        assert(zombie_kept(a[p], b[p]));
    }
}

/// An exit of a process other than a root that is no Zombie keeps the
/// Zombies in order.
pub proof fn lemma_exit_keeps_zombies(
    before: Seq<TaskControlBlock>,
    after: Seq<TaskControlBlock>,
    c: int,
    root: int,
    code: i32,
)
    requires
        zombies_ok(before),
        0 <= c < before.len(),
        0 <= root < before.len(),
        c != root,
        before[root].inner.task_status != TaskStatus::Zombie,
        exited(before, after, c, root, code),
    ensures
        zombies_ok(after),
        after[root].inner.task_status != TaskStatus::Zombie,
{
    let kids = before[c].inner.children@;
    assert(exited_at(before, after, root, c, root, code, kids));
    assert forall|p: int| 0 <= p < after.len() implies #[trigger] zombie_ok(after, p) by {
        assert(zombie_ok(before, p));
        assert(exited_at(before, after, p, c, root, code, kids));
    }
}

/// A birth to a parent that is no Zombie keeps the Zombies in order.
pub proof fn lemma_birth_keeps_zombies(
    before: Seq<TaskControlBlock>,
    after: Seq<TaskControlBlock>,
    parent: int,
)
    requires
        zombies_ok(before),
        0 <= parent < before.len(),
        before[parent].inner.task_status != TaskStatus::Zombie,
        born(before, after, parent),
    ensures
        zombies_ok(after),
{
    assert forall|p: int| 0 <= p < after.len() implies #[trigger] zombie_ok(after, p) by {
        if p < before.len() {
            assert(zombie_ok(before, p));
            if p != parent {
                assert(after[p] == before[p]);
            }
        }
    }
}

/// A sequence with one more element holds what it held, and that element.
pub proof fn lemma_push_contains(s: Seq<usize>, k: usize, x: usize)
    ensures
        s.push(k).contains(x) <==> (s.contains(x) || x == k),
{
    if s.contains(x) {
        let i = choose|i: int| 0 <= i < s.len() && s[i] == x;
        assert(s.push(k)[i] == x);
    }
    if x == k {
        assert(s.push(k)[s.len() as int] == x);
    }
    if s.push(k).contains(x) {
        let i = choose|i: int| 0 <= i < s.push(k).len() && s.push(k)[i] == x;
        if i < s.len() {
            assert(s[i] == x);
        }
    }
}

/// An exit keeps the table a forest.
pub proof fn lemma_exit_keeps_forest(
    before: Seq<TaskControlBlock>,
    after: Seq<TaskControlBlock>,
    c: int,
    root: int,
    code: i32,
)
    requires
        tree_wf(before),
        0 <= c < before.len(),
        0 <= root < before.len(),
        c != root,
        exited(before, after, c, root, code),
    ensures
        tree_wf(after),
{
    let kids = before[c].inner.children@;
    let own = before[root].inner.children@;
    assert forall|p: int| 0 <= p < after.len() implies #[trigger] slot_ok(after, p) by {
        assert(slot_ok(before, p));
        assert(exited_at(before, after, p, c, root, code, kids));
        if p == root {
            let all = own + kids;
            assert(slot_ok(before, c));
            assert forall|i: int, j: int| 0 <= i < all.len() && 0 <= j < all.len() && i != j implies all[i]
                != all[j] by {
                if i < own.len() && j >= own.len() {
                    assert(child_link_ok(before, root, i));
                    assert(child_link_ok(before, c, j - own.len()));
                } else if j < own.len() && i >= own.len() {
                    assert(child_link_ok(before, root, j));
                    assert(child_link_ok(before, c, i - own.len()));
                }
            }
        }
    }
    assert forall|x: int| 0 <= x < after.len() implies #[trigger] parent_link_ok(after, x) by {
        assert(slot_ok(before, x));
        assert(slot_ok(before, root));
        assert(parent_link_ok(before, x));
        assert(exited_at(before, after, x, c, root, code, kids));
        assert(exited_at(before, after, root, c, root, code, kids));
        if kids.contains(x as usize) {
            let j = choose|j: int| 0 <= j < kids.len() && kids[j] == x as usize;
            assert((own + kids)[own.len() + j] == x as usize);
        } else if before[x].inner.parent is Some {
            let p = before[x].inner.parent.unwrap() as int;
            assert(exited_at(before, after, p, c, root, code, kids));
            let i = choose|i: int|
                0 <= i < before[p].inner.children@.len() && before[p].inner.children@[i] == x as usize;
            if p == c {
                assert(kids[i] == x as usize);
            }
            if p == root {
                assert((own + kids)[i] == x as usize);
            }
        }
    }
    assert forall|p: int, i: int|
        0 <= p < after.len() && 0 <= i < after[p].inner.children@.len() implies #[trigger] child_link_ok(
        after,
        p,
        i,
    ) by {
        assert(slot_ok(before, p));
        assert(slot_ok(before, root));
        assert(slot_ok(before, c));
        assert(exited_at(before, after, p, c, root, code, kids));
        let x = after[p].inner.children@[i] as int;
        if p == root && i >= own.len() {
            assert(child_link_ok(before, c, i - own.len()));
            assert(kids[i - own.len()] == x as usize);
            assert(kids.contains(x as usize));
            assert(exited_at(before, after, x, c, root, code, kids));
        } else {
            assert(child_link_ok(before, p, i));
            assert(exited_at(before, after, x, c, root, code, kids));
            if kids.contains(x as usize) {
                let j = choose|j: int| 0 <= j < kids.len() && kids[j] == x as usize;
                assert(child_link_ok(before, c, j));
            }
        }
    }
}

/// A birth keeps the table a forest, if the child's weight is positive.
pub proof fn lemma_birth_keeps_forest(
    before: Seq<TaskControlBlock>,
    after: Seq<TaskControlBlock>,
    parent: int,
)
    requires
        tree_wf(before),
        0 <= parent < before.len(),
        born(before, after, parent),
        after[before.len() as int].inner.priority > 0,
    ensures
        tree_wf(after),
{
    let n = before.len() as int;
    let kids = before[parent].inner.children@;
    assert forall|p: int| 0 <= p < after.len() implies #[trigger] slot_ok(after, p) by {
        if p < n {
            assert(slot_ok(before, p));
            if p == parent {
                let all = kids.push(n as usize);
                assert forall|i: int, j: int|
                    0 <= i < all.len() && 0 <= j < all.len() && i != j implies all[i] != all[j] by {
                    if i < kids.len() {
                        assert(child_link_ok(before, parent, i));
                    }
                    if j < kids.len() {
                        assert(child_link_ok(before, parent, j));
                    }
                }
            } else {
                assert(after[p] == before[p]);
            }
        }
    }
    assert forall|x: int| 0 <= x < after.len() implies #[trigger] parent_link_ok(after, x) by {
        assert(slot_ok(after, x));
        if x == n {
            assert(kids.push(n as usize)[kids.len() as int] == n as usize);
        } else {
            assert(parent_link_ok(before, x));
            if x != parent {
                assert(after[x] == before[x]);
            }
            if before[x].inner.parent is Some {
                let p = before[x].inner.parent.unwrap() as int;
                let i = choose|i: int|
                    0 <= i < before[p].inner.children@.len() && before[p].inner.children@[i]
                        == x as usize;
                if p == parent {
                    assert(kids.push(n as usize)[i] == x as usize);
                } else {
                    assert(after[p] == before[p]);
                }
            }
        }
    }
    assert forall|p: int, i: int|
        0 <= p < after.len() && 0 <= i < after[p].inner.children@.len() implies #[trigger] child_link_ok(
        after,
        p,
        i,
    ) by {
        assert(slot_ok(after, p));
        if p != parent {
            assert(after[p] == before[p]);
        }
        if p == parent && i == kids.len() {
        } else {
            assert(child_link_ok(before, p, i));
            let x = before[p].inner.children@[i] as int;
            if x != parent {
                assert(after[x] == before[x]);
            }
        }
    }
}

/// In a forest no two registered processes share an identifier.
pub proof fn lemma_pids_unique(ts: Seq<TaskControlBlock>, a: int, b: int)
    requires
        tree_wf(ts),
        0 <= a < ts.len(),
        0 <= b < ts.len(),
        a != b,
    ensures
        ts[a].pid != ts[b].pid,
{
    assert(slot_ok(ts, a));
    assert(slot_ok(ts, b));
}

/// In a forest a process is listed among the children of `p` exactly when
/// it names `p` as its parent.
pub proof fn lemma_child_iff_parent(ts: Seq<TaskControlBlock>, p: int, c: int)
    requires
        tree_wf(ts),
        0 <= p < ts.len(),
        0 <= c < ts.len(),
    ensures
        ts[p].inner.children@.contains(c as usize) <==> ts[c].inner.parent == Some(p as usize),
{
    assert(slot_ok(ts, p));
    assert(slot_ok(ts, c));
    assert(parent_link_ok(ts, c));
    if ts[p].inner.children@.contains(c as usize) {
        let i = choose|i: int|
            0 <= i < ts[p].inner.children@.len() && ts[p].inner.children@[i] == c as usize;
        assert(child_link_ok(ts, p, i));
    }
}

/// After an exit the exited process lists no child, and each of its former
/// children names the root as parent and is listed by the root.
pub proof fn lemma_exit_reparents(
    before: Seq<TaskControlBlock>,
    after: Seq<TaskControlBlock>,
    c: int,
    root: int,
    code: i32,
    k: int,
)
    requires
        tree_wf(before),
        0 <= c < before.len(),
        0 <= root < before.len(),
        c != root,
        exited(before, after, c, root, code),
        0 <= k < before[c].inner.children@.len(),
    ensures
        after[c].inner.children@.len() == 0,
        after[before[c].inner.children@[k] as int].inner.parent == Some(root as usize),
        after[root].inner.children@.contains(before[c].inner.children@[k]),
{
    let kids = before[c].inner.children@;
    let own = before[root].inner.children@;
    let x = kids[k];
    assert(child_link_ok(before, c, k));
    assert(kids.contains(x));
    assert(exited_at(before, after, c, c, root, code, kids));
    assert(exited_at(before, after, x as int, c, root, code, kids));
    assert(exited_at(before, after, root, c, root, code, kids));
    assert((own + kids)[own.len() + k] == x);
}

/// Whether `x` occurs in `v`.
pub fn holds(v: &Vec<usize>, x: usize) -> (r: bool)
    ensures
        r == v@.contains(x),
{
    let mut i: usize = 0;
    while i < v.len()
        invariant
            i <= v@.len(),
            forall|j: int| 0 <= j < i ==> v@[j] != x,
        decreases v@.len() - i,
    {
        if v[i] == x {
            return true;
        }
        i += 1;
    }
    false
}

/// Whether nothing occurs twice in `v`.
pub fn all_distinct(v: &Vec<usize>) -> (r: bool)
    ensures
        r == v@.no_duplicates(),
{
    let n: usize = v.len();
    let mut i: usize = 0;
    while i < n
        invariant
            i <= n,
            n == v@.len(),
            forall|a: int, b: int| 0 <= a < i && a < b < n ==> v@[a] != v@[b],
        decreases n - i,
    {
        let mut j: usize = i + 1;
        while j < n
            invariant
                i < j <= n,
                n == v@.len(),
                forall|b: int| i < b < j ==> v@[i as int] != v@[b],
            decreases n - j,
        {
            if v[i] == v[j] {
                return false;
            }
            j += 1;
        }
        i += 1;
    }
    proof {
        assert forall|a: int, b: int| 0 <= a < n && 0 <= b < n && a != b implies v@[a] != v@[b] by {
            if a < b {
                assert(v@[a] != v@[b]);
            } else {
                assert(v@[b] != v@[a]);
            }
        }
    }
    true
}

/// Everything that is asked of slot `p`: the slot itself, what holds of a
/// Zombie, its parent reference, and each of its child entries.
pub open spec fn node_ok(ts: Seq<TaskControlBlock>, p: int) -> bool {
    &&& slot_ok(ts, p)
    &&& zombie_ok(ts, p)
    &&& parent_link_ok(ts, p)
    &&& forall|i: int| 0 <= i < ts[p].inner.children@.len() ==> #[trigger] child_link_ok(ts, p, i)
}

/// Tests what the forest asks of slot `p`.
pub fn node_valid(ts: &Vec<TaskControlBlock>, p: usize) -> (r: bool)
    requires
        p < ts@.len(),
    ensures
        r == node_ok(ts@, p as int),
{
    let node = &ts[p];
    if node.pid.0 != p || node.inner.priority == 0 || !all_distinct(&node.inner.children) {
        return false;
    }
    if node.inner.task_status == TaskStatus::Zombie && (node.inner.children.len() != 0
        || node.inner.memory_set.data_pages != 0) {
        return false;
    }
    match node.inner.parent {
        Some(q) => {
            if q >= ts.len() || !holds(&ts[q].inner.children, p) {
                return false;
            }
        },
        None => {},
    }
    let mut i: usize = 0;
    while i < node.inner.children.len()
        invariant
            i <= node.inner.children@.len(),
            p < ts@.len(),
            *node == ts@[p as int],
            forall|j: int| 0 <= j < i ==> #[trigger] child_link_ok(ts@, p as int, j),
        decreases node.inner.children@.len() - i,
    {
        let c: usize = node.inner.children[i];
        if c >= ts.len() {
            assert(!child_link_ok(ts@, p as int, i as int));
            return false;
        }
        match ts[c].inner.parent {
            Some(q) => {
                if q != p {
                    assert(!child_link_ok(ts@, p as int, i as int));
                    return false;
                }
            },
            None => {
                assert(!child_link_ok(ts@, p as int, i as int));
                return false;
            },
        }
        i += 1;
    }
    true
}

/// Tests whether the table is a forest with its Zombies in order.
pub fn forest_valid(ts: &Vec<TaskControlBlock>) -> (r: bool)
    ensures
        r == (tree_wf(ts@) && zombies_ok(ts@)),
{
    let mut p: usize = 0;
    while p < ts.len()
        invariant
            p <= ts@.len(),
            forall|q: int| 0 <= q < p ==> #[trigger] node_ok(ts@, q),
        decreases ts@.len() - p,
    {
        if !node_valid(ts, p) {
            proof {
                if tree_wf(ts@) && zombies_ok(ts@) {
                    assert(slot_ok(ts@, p as int));
                    assert(zombie_ok(ts@, p as int));
                    assert(parent_link_ok(ts@, p as int));
                    assert(node_ok(ts@, p as int));
                }
            }
            return false;
        }
        p += 1;
    }
    proof {
        assert forall|q: int| 0 <= q < ts@.len() implies #[trigger] slot_ok(ts@, q) by {
            assert(node_ok(ts@, q));
        }
        assert forall|q: int| 0 <= q < ts@.len() implies #[trigger] parent_link_ok(ts@, q) by {
            assert(node_ok(ts@, q));
        }
        assert forall|q: int| 0 <= q < ts@.len() implies #[trigger] zombie_ok(ts@, q) by {
            assert(node_ok(ts@, q));
        }
        assert forall|q: int, i: int|
            0 <= q < ts@.len() && 0 <= i < ts@[q].inner.children@.len() implies #[trigger] child_link_ok(
            ts@,
            q,
            i,
        ) by {
            assert(node_ok(ts@, q));
        }
    }
    true
}

} // verus!
