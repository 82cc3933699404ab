//! The tree of processes below a pane's shell, as a snapshot of the system's
//! process table gives it, and the walk through it.
use std::collections::HashMap;
use std::collections::HashSet;
use vstd::prelude::*;

verus! {

/// One process of a snapshot.
#[derive(Debug, Clone, PartialEq, Eq)]
pub struct WindowsProcessEntry {
    /// The process.
    pub pid: u32,
    /// The process that started it. Its number may belong to another one by now.
    pub parent_pid: u32,
    /// The name of the executable.
    pub name: String,
    /// The first word of the command line.
    pub argv0: Option<String>,
    /// The words of the command line.
    pub argv: Option<Vec<String>>,
    /// The command line.
    pub cmdline: Option<String>,
}

/// Whether one of the entries that `found` lists is process `pid`.
pub open spec fn lists_pid(entries: Seq<WindowsProcessEntry>, found: Seq<int>, pid: u32) -> bool {
    exists|j: int| 0 <= j < found.len() && entries[#[trigger] found[j]].pid == pid
}

/// `found` and, behind it, the children of `parent` among the first `n` entries, in
/// their order, without the root and without processes that are listed already.
pub open spec fn with_children(
    root: u32,
    entries: Seq<WindowsProcessEntry>,
    found: Seq<int>,
    parent: u32,
    n: nat,
) -> Seq<int>
    decreases n,
{
    if n == 0 {
        found
    } else {
        let before = with_children(root, entries, found, parent, (n - 1) as nat);
        let entry = entries[n - 1];
        if entry.parent_pid == parent && entry.pid != root && !lists_pid(
            entries,
            before,
            entry.pid,
        ) {
            before.push(n - 1)
        } else {
            before
        }
    }
}

/// Process number `k` of a walk: the root, then those that `found` lists.
pub open spec fn walk_node(
    root: u32,
    entries: Seq<WindowsProcessEntry>,
    found: Seq<int>,
    k: int,
) -> u32 {
    if k == 0 {
        root
    } else {
        entries[found[k - 1]].pid
    }
}

/// The walk from where the children of its first `k` processes are listed.
pub open spec fn walk(
    root: u32,
    entries: Seq<WindowsProcessEntry>,
    found: Seq<int>,
    k: nat,
) -> Seq<int>
    decreases entries.len() + 1 - k,
{
    if k > found.len() || k > entries.len() {
        found
    } else {
        walk(
            root,
            entries,
            with_children(
                root,
                entries,
                found,
                walk_node(root, entries, found, k as int),
                entries.len(),
            ),
            k + 1,
        )
    }
}

/// The places in `entries` of the processes below `root`, breadth first: the
/// children of the root in the order of the entries, then those of its first child,
/// and so on. Each process is listed once, at the first place where the walk meets
/// it, and the root is not.
pub open spec fn descendants(root: u32, entries: Seq<WindowsProcessEntry>) -> Seq<int> {
    walk(root, entries, Seq::empty(), 0)
}

/// Whether process `pid` is `steps` generations below `root`.
pub open spec fn reaches(
    entries: Seq<WindowsProcessEntry>,
    root: u32,
    pid: u32,
    steps: nat,
) -> bool
    decreases steps,
{
    if steps == 0 {
        pid == root
    } else {
        exists|i: int|
            #![trigger entries[i]]
            0 <= i < entries.len() && entries[i].pid == pid && reaches(
                entries,
                root,
                entries[i].parent_pid,
                (steps - 1) as nat,
            )
    }
}

/// Whether process `pid` is below `root`, however many generations.
pub open spec fn descends_from(
    entries: Seq<WindowsProcessEntry>,
    root: u32,
    pid: u32,
) -> bool {
    exists|steps: nat| #[trigger] reaches(entries, root, pid, steps)
}

/// What holds of the list throughout a walk: it lists entries, no process twice,
/// not the root, and only processes below it, each behind its parent.
spec fn walk_ok(root: u32, entries: Seq<WindowsProcessEntry>, found: Seq<int>) -> bool {
    &&& forall|j: int| 0 <= j < found.len() ==> 0 <= #[trigger] found[j] < entries.len()
    &&& forall|j: int| 0 <= j < found.len() ==> entries[#[trigger] found[j]].pid != root
    &&& forall|i: int, j: int|
        0 <= i < j < found.len() ==> entries[#[trigger] found[i]].pid
            != entries[#[trigger] found[j]].pid
    &&& forall|j: int|
        0 <= j < found.len() ==> #[trigger] descends_from(entries, root, entries[found[j]].pid)
    &&& forall|j: int|
        0 <= j < found.len() ==> #[trigger] follows_parent(root, entries, found, found[j], j)
}

/// Whether the parent of entry `at` is among the first processes of the walk, the
/// root and the `j` first of the list.
pub open spec fn follows_parent(
    root: u32,
    entries: Seq<WindowsProcessEntry>,
    found: Seq<int>,
    at: int,
    j: int,
) -> bool {
    exists|m: int|
        0 <= m <= j && #[trigger] walk_node(root, entries, found, m) == entries[at].parent_pid
}

spec fn is_child(entries: Seq<WindowsProcessEntry>, i: int, parent: u32) -> bool {
    entries[i].parent_pid == parent
}

/// Whether every child of `parent` is the root or listed.
spec fn children_listed(
    root: u32,
    entries: Seq<WindowsProcessEntry>,
    found: Seq<int>,
    parent: u32,
    n: int,
) -> bool {
    forall|i: int|
        0 <= i < n && #[trigger] is_child(entries, i, parent) ==> entries[i].pid == root || lists_pid(
            entries,
            found,
            entries[i].pid,
        )
}

proof fn lemma_walk_len(root: u32, entries: Seq<WindowsProcessEntry>, found: Seq<int>)
    requires
        walk_ok(root, entries, found),
    ensures
        found.len() <= entries.len(),
{
    assert(found.no_duplicates());
    found.unique_seq_to_set();
    vstd::set_lib::lemma_int_range(0, entries.len() as int);
    let places = vstd::set_lib::set_int_range(0, entries.len() as int);
    assert(found.to_set().subset_of(places)) by {
        assert forall|x: int| found.to_set().contains(x) implies places.contains(x) by {
            assert(found.contains(x));
        }
    }
    vstd::set_lib::lemma_len_subset(found.to_set(), places);
}

proof fn lemma_with_children(
    root: u32,
    entries: Seq<WindowsProcessEntry>,
    found: Seq<int>,
    k: int,
    n: nat,
)
    requires
        walk_ok(root, entries, found),
        0 <= k <= found.len(),
        n <= entries.len(),
    ensures
        ({
            let parent = walk_node(root, entries, found, k);
            let after = with_children(root, entries, found, parent, n);
            &&& walk_ok(root, entries, after)
            &&& found.len() <= after.len()
            &&& after.take(found.len() as int) == found
            &&& children_listed(root, entries, after, parent, n as int)
        }),
    decreases n,
{
    let parent = walk_node(root, entries, found, k);
    let after = with_children(root, entries, found, parent, n);
    if n == 0 {
        assert(after.take(found.len() as int) =~= found);
    } else {
        lemma_with_children(root, entries, found, k, (n - 1) as nat);
        let before = with_children(root, entries, found, parent, (n - 1) as nat);
        let entry = entries[n - 1];
        if entry.parent_pid == parent && entry.pid != root && !lists_pid(
            entries,
            before,
            entry.pid,
        ) {
            assert(after == before.push(n - 1));
            assert(after.take(found.len() as int) =~= before.take(found.len() as int));
            assert(descends_from(entries, root, entry.pid)) by {
                if k == 0 {
                    assert(reaches(entries, root, parent, 0));
                    assert(reaches(entries, root, entry.pid, 1)) by {
                        assert(entries[n - 1].pid == entry.pid);
                    }
                } else {
                    let above = found[k - 1];
                    assert(descends_from(entries, root, entries[above].pid));
                    let steps = choose|steps: nat| #[trigger]
                        reaches(entries, root, parent, steps);
                    assert(reaches(entries, root, entry.pid, steps + 1)) by {
                        assert(entries[n - 1].pid == entry.pid);
                    }
                }
            }
            assert forall|j: int| 0 <= j < after.len() implies #[trigger] follows_parent(
                root,
                entries,
                after,
                after[j],
                j,
            ) by {
                if j < before.len() {
                    assert(before[j] == after[j]);
                    assert(follows_parent(root, entries, before, before[j], j));
                    let m = choose|m: int|
                        0 <= m <= j && #[trigger] walk_node(root, entries, before, m)
                            == entries[before[j]].parent_pid;
                    assert(walk_node(root, entries, after, m) == walk_node(
                        root,
                        entries,
                        before,
                        m,
                    ));
                } else {
                    if k > 0 {
                        assert(before.take(found.len() as int)[k - 1] == found[k - 1]);
                        assert(after[k - 1] == found[k - 1]);
                    }
                    assert(walk_node(root, entries, after, k) == parent);
                }
            }
            assert forall|j: int| 0 <= j < after.len() implies #[trigger] descends_from(
                entries,
                root,
                entries[after[j]].pid,
            ) by {
                if j < before.len() {
                    assert(before[j] == after[j]);
                    assert(descends_from(entries, root, entries[before[j]].pid));
                }
            }
            assert forall|i: int, j: int| 0 <= i < j < after.len() implies entries[#[trigger] after[i]].pid
                != entries[#[trigger] after[j]].pid by {
                assert(before[i] == after[i]);
                if j < before.len() {
                    assert(before[j] == after[j]);
                }
            }
            assert forall|i: int|
                0 <= i < n && #[trigger] is_child(entries, i, parent) implies entries[i].pid == root
                || lists_pid(entries, after, entries[i].pid) by {
                if i == n - 1 {
                    assert(after[before.len() as int] == n - 1);
                } else if entries[i].pid != root {
                    assert(lists_pid(entries, before, entries[i].pid));
                    let j = choose|j: int|
                        0 <= j < before.len() && entries[#[trigger] before[j]].pid
                            == entries[i].pid;
                    assert(after[j] == before[j]);
                }
            }
        }
    }
}

/// A list that is kept at the front of a longer one stays listed.
proof fn lemma_children_stay(
    root: u32,
    entries: Seq<WindowsProcessEntry>,
    found: Seq<int>,
    after: Seq<int>,
    parent: u32,
    n: int,
)
    requires
        found.len() <= after.len(),
        after.take(found.len() as int) == found,
        children_listed(root, entries, found, parent, n),
    ensures
        children_listed(root, entries, after, parent, n),
{
    assert forall|i: int|
        0 <= i < n && #[trigger] is_child(entries, i, parent) implies entries[i].pid == root || lists_pid(
        entries,
        after,
        entries[i].pid,
    ) by {
        if entries[i].pid != root {
            let j = choose|j: int|
                0 <= j < found.len() && entries[#[trigger] found[j]].pid == entries[i].pid;
            assert(after[j] == found[j]) by {
                assert(after.take(found.len() as int)[j] == after[j]);
            }
        }
    }
}

spec fn scanned(root: u32, entries: Seq<WindowsProcessEntry>, found: Seq<int>, k: int) -> bool {
    forall|m: int|
        0 <= m < k ==> children_listed(
            root,
            entries,
            found,
            #[trigger] walk_node(root, entries, found, m),
            entries.len() as int,
        )
}

/// One step of a walk keeps what holds of it.
proof fn lemma_walk_step(
    root: u32,
    entries: Seq<WindowsProcessEntry>,
    found: Seq<int>,
    k: int,
)
    requires
        walk_ok(root, entries, found),
        0 <= k <= found.len(),
        scanned(root, entries, found, k),
    ensures
        ({
            let after = with_children(
                root,
                entries,
                found,
                walk_node(root, entries, found, k),
                entries.len(),
            );
            &&& walk_ok(root, entries, after)
            &&& found.len() <= after.len()
            &&& after.take(found.len() as int) == found
            &&& scanned(root, entries, after, k + 1)
        }),
{
    let parent = walk_node(root, entries, found, k);
    let after = with_children(root, entries, found, parent, entries.len());
    lemma_with_children(root, entries, found, k, entries.len());
    assert forall|m: int| 0 <= m < k + 1 implies children_listed(
        root,
        entries,
        after,
        #[trigger] walk_node(root, entries, after, m),
        entries.len() as int,
    ) by {
        if m > 0 {
            assert(after.take(found.len() as int)[m - 1] == after[m - 1]);
        }
        assert(walk_node(root, entries, after, m) == walk_node(root, entries, found, m));
        if m < k {
            lemma_children_stay(
                root,
                entries,
                found,
                after,
                walk_node(root, entries, found, m),
                entries.len() as int,
            );
        }
    }
}

/// What holds of a whole walk.
proof fn lemma_walk(root: u32, entries: Seq<WindowsProcessEntry>, found: Seq<int>, k: nat)
    requires
        walk_ok(root, entries, found),
        k <= found.len() + 1,
        scanned(root, entries, found, k as int),
    ensures
        ({
            let all = walk(root, entries, found, k);
            &&& walk_ok(root, entries, all)
            &&& scanned(root, entries, all, (all.len() + 1) as int)
        }),
    decreases entries.len() + 1 - k,
{
    lemma_walk_len(root, entries, found);
    if k > found.len() || k > entries.len() {
    } else {
        lemma_walk_step(root, entries, found, k as int);
        let after = with_children(
            root,
            entries,
            found,
            walk_node(root, entries, found, k as int),
            entries.len(),
        );
        lemma_walk(root, entries, after, k + 1);
    }
}

/// A walk lists entries, no process twice, and not the root.
pub proof fn law_descendants_distinct(root: u32, entries: Seq<WindowsProcessEntry>)
    ensures
        descendants(root, entries).len() <= entries.len(),
        forall|j: int|
            0 <= j < descendants(root, entries).len() ==> 0 <= #[trigger] descendants(
                root,
                entries,
            )[j] < entries.len() && entries[descendants(root, entries)[j]].pid != root,
        forall|i: int, j: int|
            0 <= i < j < descendants(root, entries).len() ==> entries[#[trigger] descendants(
                root,
                entries,
            )[i]].pid != entries[#[trigger] descendants(root, entries)[j]].pid,
{
    lemma_walk(root, entries, Seq::empty(), 0);
    lemma_walk_len(root, entries, descendants(root, entries));
}

/// A walk lists a process other than the root exactly when it is below the root,
/// however many generations, and also where parent numbers form a cycle.
pub proof fn law_descendants_reachable(
    root: u32,
    entries: Seq<WindowsProcessEntry>,
    pid: u32,
)
    ensures
        lists_pid(entries, descendants(root, entries), pid) <==> pid != root && descends_from(
            entries,
            root,
            pid,
        ),
{
    lemma_walk(root, entries, Seq::empty(), 0);
    let all = descendants(root, entries);
    if lists_pid(entries, all, pid) {
        let j = choose|j: int| 0 <= j < all.len() && entries[#[trigger] all[j]].pid == pid;
        assert(descends_from(entries, root, entries[all[j]].pid));
    }
    if pid != root && descends_from(entries, root, pid) {
        let steps = choose|steps: nat| #[trigger] reaches(entries, root, pid, steps);
        lemma_reached_is_listed(root, entries, pid, steps);
    }
}

proof fn lemma_reached_is_listed(
    root: u32,
    entries: Seq<WindowsProcessEntry>,
    pid: u32,
    steps: nat,
)
    requires
        walk_ok(root, entries, descendants(root, entries)),
        scanned(
            root,
            entries,
            descendants(root, entries),
            (descendants(root, entries).len() + 1) as int,
        ),
        reaches(entries, root, pid, steps),
    ensures
        pid == root || lists_pid(entries, descendants(root, entries), pid),
    decreases steps,
{
    let all = descendants(root, entries);
    if steps > 0 {
        let i = choose|i: int|
            #![trigger entries[i]]
            0 <= i < entries.len() && entries[i].pid == pid && reaches(
                entries,
                root,
                entries[i].parent_pid,
                (steps - 1) as nat,
            );
        let above = entries[i].parent_pid;
        lemma_reached_is_listed(root, entries, above, (steps - 1) as nat);
        if above == root {
            assert(walk_node(root, entries, all, 0) == above);
        } else {
            let j = choose|j: int| 0 <= j < all.len() && entries[#[trigger] all[j]].pid == above;
            assert(walk_node(root, entries, all, j + 1) == above);
        }
        assert(children_listed(root, entries, all, above, entries.len() as int));
        assert(is_child(entries, i, above));
    }
}

/// A walk lists every process behind its parent, unless that is the root.
pub proof fn law_descendants_follow_parents(
    root: u32,
    entries: Seq<WindowsProcessEntry>,
    j: int,
)
    requires
        0 <= j < descendants(root, entries).len(),
    ensures
        follows_parent(
            root,
            entries,
            descendants(root, entries),
            descendants(root, entries)[j],
            j,
        ),
{
    lemma_walk(root, entries, Seq::empty(), 0);
    let at = descendants(root, entries)[j];
    assert(follows_parent(root, entries, descendants(root, entries), at, j));
}

/// Whether process `pid` is `steps` generations below `root`, and not fewer.
pub open spec fn at_distance(
    entries: Seq<WindowsProcessEntry>,
    root: u32,
    pid: u32,
    steps: nat,
) -> bool {
    &&& reaches(entries, root, pid, steps)
    &&& forall|fewer: nat| fewer < steps ==> !#[trigger] reaches(entries, root, pid, fewer)
}

/// How many generations process `pid` is below `root`, by the shortest way.
pub open spec fn distance(entries: Seq<WindowsProcessEntry>, root: u32, pid: u32) -> nat {
    choose|steps: nat| at_distance(entries, root, pid, steps)
}

/// Whether `found` lists process `pid` at a level of at most `bound`.
spec fn listed_near(
    entries: Seq<WindowsProcessEntry>,
    found: Seq<int>,
    levels: Seq<nat>,
    pid: u32,
    bound: nat,
) -> bool {
    exists|j: int|
        0 <= j < found.len() && entries[#[trigger] found[j]].pid == pid && levels[j + 1] <= bound
}

/// Whether every child of process number `m` of a walk is the root or listed at most
/// one level below it.
spec fn children_near(
    root: u32,
    entries: Seq<WindowsProcessEntry>,
    found: Seq<int>,
    levels: Seq<nat>,
    m: int,
) -> bool {
    forall|i: int|
        0 <= i < entries.len() && #[trigger] is_child(
            entries,
            i,
            walk_node(root, entries, found, m),
        ) ==> entries[i].pid == root || listed_near(
            entries,
            found,
            levels,
            entries[i].pid,
            levels[m] + 1,
        )
}

/// What holds of the levels of a walk's processes from where the children of its first
/// `k` processes are listed: they never fall, each process is that many generations
/// below the root, and none is more than one level below process number `k`.
spec fn levelled(
    root: u32,
    entries: Seq<WindowsProcessEntry>,
    found: Seq<int>,
    levels: Seq<nat>,
    k: int,
) -> bool {
    &&& levels.len() == found.len() + 1
    &&& levels[0] == 0
    &&& forall|a: int, b: int|
        0 <= a <= b < levels.len() ==> #[trigger] levels[a] <= #[trigger] levels[b]
    &&& forall|m: int|
        0 <= m < levels.len() ==> reaches(
            entries,
            root,
            #[trigger] walk_node(root, entries, found, m),
            levels[m],
        )
    &&& forall|m: int|
        0 <= k < levels.len() && 0 <= m < levels.len() ==> #[trigger] levels[m] <= levels[k] + 1
    &&& forall|m: int| 0 <= m < k ==> #[trigger] children_near(root, entries, found, levels, m)
}

/// What a step of a walk adds are children of the process that it is at.
proof fn lemma_added_children(
    root: u32,
    entries: Seq<WindowsProcessEntry>,
    found: Seq<int>,
    parent: u32,
    n: nat,
    j: int,
)
    requires
        found.len() <= j < with_children(root, entries, found, parent, n).len(),
    ensures
        ({
            let at = with_children(root, entries, found, parent, n)[j];
            0 <= at < n && entries[at].parent_pid == parent
        }),
    decreases n,
{
    if n > 0 {
        let before = with_children(root, entries, found, parent, (n - 1) as nat);
        if j < before.len() {
            lemma_added_children(root, entries, found, parent, (n - 1) as nat, j);
        }
    }
}

/// One step of a walk keeps what holds of its levels: what it adds is one level below
/// the process that it is at.
proof fn lemma_level_step(
    root: u32,
    entries: Seq<WindowsProcessEntry>,
    found: Seq<int>,
    levels: Seq<nat>,
    k: int,
) -> (longer: Seq<nat>)
    requires
        walk_ok(root, entries, found),
        0 <= k <= found.len(),
        scanned(root, entries, found, k),
        levelled(root, entries, found, levels, k),
    ensures
        levelled(
            root,
            entries,
            with_children(
                root,
                entries,
                found,
                walk_node(root, entries, found, k),
                entries.len(),
            ),
            longer,
            k + 1,
        ),
{
    let parent = walk_node(root, entries, found, k);
    let after = with_children(root, entries, found, parent, entries.len());
    let below = levels[k] + 1;
    let longer = levels + Seq::new((after.len() - found.len()) as nat, |i: int| below);
    lemma_walk_step(root, entries, found, k);
    assert forall|j: int| 0 <= j < found.len() implies #[trigger] after[j] == found[j] by {
        assert(after.take(found.len() as int)[j] == after[j]);
    }
    assert forall|m: int| 0 <= m < levels.len() implies #[trigger] walk_node(
        root,
        entries,
        after,
        m,
    ) == walk_node(root, entries, found, m) by {
        if m > 0 {
            assert(after[m - 1] == found[m - 1]);
        }
    }
    assert forall|m: int| 0 <= m < longer.len() implies #[trigger] longer[m] <= below by {
        if m < levels.len() {
            assert(longer[m] == levels[m]);
        }
    }
    assert forall|a: int, b: int| 0 <= a <= b < longer.len() implies #[trigger] longer[a]
        <= #[trigger] longer[b] by {
        if b < levels.len() {
            assert(longer[a] == levels[a] && longer[b] == levels[b]);
        } else {
            assert(longer[b] == below);
        }
    }
    assert forall|m: int| 0 <= m < longer.len() implies reaches(
        entries,
        root,
        #[trigger] walk_node(root, entries, after, m),
        longer[m],
    ) by {
        if m < levels.len() {
            assert(longer[m] == levels[m]);
            assert(reaches(entries, root, walk_node(root, entries, found, m), levels[m]));
        } else {
            lemma_added_children(root, entries, found, parent, entries.len(), m - 1);
            let at = after[m - 1];
            assert(reaches(entries, root, parent, levels[k]));
            assert(entries[at].pid == walk_node(root, entries, after, m));
            assert(longer[m] == below);
        }
    }
    assert forall|m: int|
        0 <= k + 1 < longer.len() && 0 <= m < longer.len() implies #[trigger] longer[m] <= longer[k
        + 1] + 1 by {
        assert(longer[k] == levels[k]);
        assert(longer[k] <= longer[k + 1]);
    }
    assert forall|m: int| 0 <= m < k + 1 implies #[trigger] children_near(
        root,
        entries,
        after,
        longer,
        m,
    ) by {
        let node = walk_node(root, entries, found, m);
        assert(walk_node(root, entries, after, m) == node);
        assert(longer[m] == levels[m]);
        assert forall|i: int|
            0 <= i < entries.len() && #[trigger] is_child(
                entries,
                i,
                walk_node(root, entries, after, m),
            ) implies entries[i].pid == root || listed_near(
            entries,
            after,
            longer,
            entries[i].pid,
            longer[m] + 1,
        ) by {
            let pid = entries[i].pid;
            assert(is_child(entries, i, node));
            if pid != root {
                if m < k {
                    assert(children_near(root, entries, found, levels, m));
                    assert(listed_near(entries, found, levels, pid, levels[m] + 1));
                    let j = choose|j: int|
                        0 <= j < found.len() && entries[#[trigger] found[j]].pid == pid && levels[j
                            + 1] <= levels[m] + 1;
                    assert(after[j] == found[j]);
                    assert(longer[j + 1] == levels[j + 1]);
                } else {
                    assert(children_listed(root, entries, after, node, entries.len() as int)) by {
                        assert(walk_node(root, entries, after, k) == node);
                    }
                    let j = choose|j: int|
                        0 <= j < after.len() && entries[#[trigger] after[j]].pid == pid;
                    assert(longer[j + 1] <= below);
                }
            }
        }
    }
    longer
}

/// A whole walk has levels.
proof fn lemma_levels(
    root: u32,
    entries: Seq<WindowsProcessEntry>,
    found: Seq<int>,
    levels: Seq<nat>,
    k: nat,
) -> (all_levels: Seq<nat>)
    requires
        walk_ok(root, entries, found),
        k <= found.len() + 1,
        scanned(root, entries, found, k as int),
        levelled(root, entries, found, levels, k as int),
    ensures
        ({
            let all = walk(root, entries, found, k);
            levelled(root, entries, all, all_levels, (all.len() + 1) as int)
        }),
    decreases entries.len() + 1 - k,
{
    lemma_walk_len(root, entries, found);
    if k > found.len() || k > entries.len() {
        levels
    } else {
        lemma_walk_step(root, entries, found, k as int);
        let longer = lemma_level_step(root, entries, found, levels, k as int);
        let after = with_children(
            root,
            entries,
            found,
            walk_node(root, entries, found, k as int),
            entries.len(),
        );
        lemma_levels(root, entries, after, longer, k + 1)
    }
}

/// A process that is `steps` generations below the root is listed at a level of at most
/// `steps`.
proof fn lemma_reached_is_near(
    root: u32,
    entries: Seq<WindowsProcessEntry>,
    found: Seq<int>,
    levels: Seq<nat>,
    pid: u32,
    steps: nat,
)
    requires
        levelled(root, entries, found, levels, (found.len() + 1) as int),
        reaches(entries, root, pid, steps),
    ensures
        pid == root || listed_near(entries, found, levels, pid, steps),
    decreases steps,
{
    if steps > 0 {
        let i = choose|i: int|
            #![trigger entries[i]]
            0 <= i < entries.len() && entries[i].pid == pid && reaches(
                entries,
                root,
                entries[i].parent_pid,
                (steps - 1) as nat,
            );
        let above = entries[i].parent_pid;
        lemma_reached_is_near(root, entries, found, levels, above, (steps - 1) as nat);
        let m: int = if above == root {
            0
        } else {
            1 + choose|j: int|
                0 <= j < found.len() && entries[#[trigger] found[j]].pid == above && levels[j + 1]
                    <= steps - 1
        };
        assert(walk_node(root, entries, found, m) == above);
        assert(levels[m] <= steps - 1);
        assert(children_near(root, entries, found, levels, m));
        assert(is_child(entries, i, walk_node(root, entries, found, m)));
        if pid != root {
            let j = choose|j: int|
                0 <= j < found.len() && entries[#[trigger] found[j]].pid == pid && levels[j + 1]
                    <= levels[m] + 1;
            assert(entries[found[j]].pid == pid && levels[j + 1] <= steps);
        }
    }
}

/// The level at which a walk lists a process is its distance from the root.
proof fn lemma_level_is_distance(
    root: u32,
    entries: Seq<WindowsProcessEntry>,
    levels: Seq<nat>,
    j: int,
)
    requires
        walk_ok(root, entries, descendants(root, entries)),
        levelled(
            root,
            entries,
            descendants(root, entries),
            levels,
            (descendants(root, entries).len() + 1) as int,
        ),
        0 <= j < descendants(root, entries).len(),
    ensures
        ({
            let pid = entries[descendants(root, entries)[j]].pid;
            &&& at_distance(entries, root, pid, levels[j + 1])
            &&& distance(entries, root, pid) == levels[j + 1]
        }),
{
    let all = descendants(root, entries);
    let pid = entries[all[j]].pid;
    let level = levels[j + 1];
    assert(walk_node(root, entries, all, j + 1) == pid);
    assert(pid != root);
    assert forall|fewer: nat| fewer < level implies !#[trigger] reaches(
        entries,
        root,
        pid,
        fewer,
    ) by {
        if reaches(entries, root, pid, fewer) {
            lemma_reached_is_near(root, entries, all, levels, pid, fewer);
            let q = choose|q: int|
                0 <= q < all.len() && entries[#[trigger] all[q]].pid == pid && levels[q + 1]
                    <= fewer;
            assert(q == j);
        }
    }
    assert(at_distance(entries, root, pid, level));
    let chosen = distance(entries, root, pid);
    assert(at_distance(entries, root, pid, chosen));
    assert(reaches(entries, root, pid, chosen) && reaches(entries, root, pid, level));
}

/// A walk goes breadth first: along its list the distance from the root never falls.
pub proof fn law_descendants_breadth_first(
    root: u32,
    entries: Seq<WindowsProcessEntry>,
    i: int,
    j: int,
)
    requires
        0 <= i <= j < descendants(root, entries).len(),
    ensures
        ({
            let nearer = entries[descendants(root, entries)[i]].pid;
            let farther = entries[descendants(root, entries)[j]].pid;
            &&& at_distance(entries, root, nearer, distance(entries, root, nearer))
            &&& at_distance(entries, root, farther, distance(entries, root, farther))
            &&& distance(entries, root, nearer) <= distance(entries, root, farther)
        }),
{
    let none = Seq::<int>::empty();
    let first = seq![0nat];
    assert(walk_node(root, entries, none, 0) == root);
    assert(levelled(root, entries, none, first, 0));
    lemma_walk(root, entries, none, 0);
    let levels = lemma_levels(root, entries, none, first, 0);
    lemma_level_is_distance(root, entries, levels, i);
    lemma_level_is_distance(root, entries, levels, j);
    assert(levels[i + 1] <= levels[j + 1]);
}

/// Places as mathematical integers.
pub open spec fn places_of(found: Seq<usize>) -> Seq<int> {
    found.map_values(|i: usize| i as int)
}

/// Whether `listed` holds the root and what `found` lists.
spec fn listed_exactly(
    root: u32,
    entries: Seq<WindowsProcessEntry>,
    found: Seq<int>,
    listed: Set<u32>,
) -> bool {
    forall|pid: u32| #[trigger]
        listed.contains(pid) <==> (pid == root || lists_pid(entries, found, pid))
}

proof fn lemma_listed_push(
    root: u32,
    entries: Seq<WindowsProcessEntry>,
    found: Seq<int>,
    listed: Set<u32>,
    at: int,
)
    requires
        listed_exactly(root, entries, found, listed),
    ensures
        listed_exactly(root, entries, found.push(at), listed.insert(entries[at].pid)),
{
    let after = found.push(at);
    assert forall|pid: u32| #[trigger]
        listed.insert(entries[at].pid).contains(pid) <==> (pid == root || lists_pid(
            entries,
            after,
            pid,
        )) by {
        assert(listed.contains(pid) <==> (pid == root || lists_pid(entries, found, pid)));
        if lists_pid(entries, found, pid) {
            let j = choose|j: int|
                0 <= j < found.len() && entries[#[trigger] found[j]].pid == pid;
            assert(after[j] == found[j]);
        }
        if pid == entries[at].pid {
            assert(after[found.len() as int] == at);
        }
        if lists_pid(entries, after, pid) {
            let j = choose|j: int|
                0 <= j < after.len() && entries[#[trigger] after[j]].pid == pid;
            if j < found.len() {
                assert(after[j] == found[j]);
            }
        }
    }
}

/// Lists the children of `parent` that are not listed yet.
fn add_children(
    root_pid: u32,
    entries: &[WindowsProcessEntry],
    parent: u32,
    found: &mut Vec<usize>,
    listed: &mut HashSet<u32>,
)
    requires
        listed_exactly(root_pid, entries@, places_of(old(found)@), old(listed)@),
    ensures
        places_of(final(found)@) == with_children(
            root_pid,
            entries@,
            places_of(old(found)@),
            parent,
            entries@.len(),
        ),
        listed_exactly(root_pid, entries@, places_of(final(found)@), final(listed)@),
{
    let ghost start = places_of(found@);
    let mut n: usize = 0;
    while n < entries.len()
        invariant
            n <= entries@.len(),
            places_of(found@) == with_children(root_pid, entries@, start, parent, n as nat),
            listed_exactly(root_pid, entries@, places_of(found@), listed@),
        decreases entries@.len() - n,
    {
        let pid = entries[n].pid;
        assert(listed@.contains(pid) <==> (pid == root_pid || lists_pid(
            entries@,
            places_of(found@),
            pid,
        )));
        if entries[n].parent_pid == parent && !listed.contains(&pid) {
            proof {
                lemma_listed_push(root_pid, entries@, places_of(found@), listed@, n as int);
                assert(places_of(found@.push(n)) =~= places_of(found@).push(n as int));
            }
            listed.insert(pid);
            found.push(n);
        }
        n = n + 1;
    }
}

/// The places of the processes below `root_pid`, breadth first.
pub(crate) fn descendant_places(root_pid: u32, entries: &[WindowsProcessEntry]) -> (res: Vec<usize>)
    ensures
        places_of(res@) == descendants(root_pid, entries@),
{
    let mut found: Vec<usize> = Vec::new();
    let mut listed: HashSet<u32> = HashSet::new();
    listed.insert(root_pid);
    assert(places_of(found@) =~= Seq::<int>::empty());
    proof {
        lemma_walk_step(root_pid, entries@, Seq::empty(), 0);
    }
    add_children(root_pid, entries, root_pid, &mut found, &mut listed);
    let mut i: usize = 0;
    while i < found.len()
        invariant
            walk_ok(root_pid, entries@, places_of(found@)),
            scanned(root_pid, entries@, places_of(found@), i + 1),
            i <= found@.len(),
            walk(root_pid, entries@, places_of(found@), (i + 1) as nat) == descendants(
                root_pid,
                entries@,
            ),
            listed_exactly(root_pid, entries@, places_of(found@), listed@),
        decreases entries@.len() - i,
    {
        let ghost places = places_of(found@);
        proof {
            lemma_walk_len(root_pid, entries@, places);
            lemma_walk_step(root_pid, entries@, places, i + 1);
            assert(places[i as int] == found@[i as int]);
        }
        let parent = entries[found[i]].pid;
        assert(parent == walk_node(root_pid, entries@, places, i + 1));
        add_children(root_pid, entries, parent, &mut found, &mut listed);
        i = i + 1;
    }
    proof {
        lemma_walk_len(root_pid, entries@, places_of(found@));
    }
    found
}

/// The processes below `root_pid`, breadth first.
pub fn descendant_entries<'a>(root_pid: u32, entries: &'a [WindowsProcessEntry]) -> (res: Vec<
    &'a WindowsProcessEntry,
>)
    ensures
        res@ == descendants(root_pid, entries@).map_values(|i: int| &entries@[i]),
{
    let places = descendant_places(root_pid, entries);
    let ghost all = descendants(root_pid, entries@);
    proof {
        law_descendants_distinct(root_pid, entries@);
    }
    let mut output: Vec<&'a WindowsProcessEntry> = Vec::new();
    let mut j: usize = 0;
    while j < places.len()
        invariant
            j <= places@.len(),
            all == places_of(places@),
            forall|m: int| 0 <= m < all.len() ==> 0 <= #[trigger] all[m] < entries@.len(),
            output@ == all.take(j as int).map_values(|i: int| &entries@[i]),
        decreases places@.len() - j,
    {
        assert(all[j as int] == places@[j as int]);
        output.push(&entries[places[j]]);
        assert(all.take(j + 1).map_values(|i: int| &entries@[i]) =~= all.take(j as int).map_values(
            |i: int| &entries@[i],
        ).push(&entries@[all[j as int]]));
        j = j + 1;
    }
    assert(all.take(j as int) =~= all);
    output
}

/// The process that `parents` gives as the ancestor of `pid` by `steps`
/// generations. The chain ends where no parent is known, and below process zero.
pub open spec fn ancestor_at(parents: Map<u32, u32>, pid: u32, steps: nat) -> Option<u32>
    decreases steps,
{
    if steps == 0 {
        Some(pid)
    } else {
        match ancestor_at(parents, pid, (steps - 1) as nat) {
            Some(below) => if (steps > 1 && below == 0) || !parents.contains_key(below) {
                None
            } else {
                Some(parents[below])
            },
            None => None,
        }
    }
}

/// Whether `ancestor` is above `pid`, one generation or more.
pub open spec fn is_ancestor(parents: Map<u32, u32>, ancestor: u32, pid: u32) -> bool {
    exists|steps: nat| steps >= 1 && #[trigger] ancestor_at(parents, pid, steps) == Some(ancestor)
}

proof fn lemma_chain_ended(parents: Map<u32, u32>, pid: u32, end: nat, steps: nat)
    requires
        ancestor_at(parents, pid, end) is None,
        end <= steps,
    ensures
        ancestor_at(parents, pid, steps) is None,
    decreases steps - end,
{
    if end < steps {
        lemma_chain_ended(parents, pid, end, (steps - 1) as nat);
    }
}

proof fn lemma_chain_repeats(parents: Map<u32, u32>, pid: u32, low: nat, high: nat, more: nat)
    requires
        low < high,
        ancestor_at(parents, pid, low) == ancestor_at(parents, pid, high),
        ancestor_at(parents, pid, high) != Some(0u32),
    ensures
        ancestor_at(parents, pid, low + more) == ancestor_at(parents, pid, high + more),
    decreases more,
{
    if more > 0 {
        lemma_chain_repeats(parents, pid, low, high, (more - 1) as nat);
        if low + more == 1 {
            assert(ancestor_at(parents, pid, low) == Some(pid));
        }
    }
}

proof fn lemma_cycle_has_no_more(
    parents: Map<u32, u32>,
    pid: u32,
    ancestor: u32,
    low: nat,
    high: nat,
    steps: nat,
)
    requires
        low < high,
        ancestor_at(parents, pid, low) == ancestor_at(parents, pid, high),
        ancestor_at(parents, pid, high) != Some(0u32),
        forall|s: nat| 1 <= s <= high ==> #[trigger] ancestor_at(parents, pid, s) != Some(ancestor),
        steps >= 1,
    ensures
        ancestor_at(parents, pid, steps) != Some(ancestor),
    decreases steps,
{
    if steps > high {
        let back = (steps - (high - low)) as nat;
        lemma_chain_repeats(parents, pid, low, high, (steps - high) as nat);
        lemma_cycle_has_no_more(parents, pid, ancestor, low, high, back);
    }
}

/// Whether `ancestor_pid` is above `descendant_pid`. A chain of parents that comes
/// back to itself, as reused process numbers can make it, is followed once.
pub fn process_is_ancestor(
    ancestor_pid: u32,
    descendant_pid: u32,
    parent_by_pid: &HashMap<u32, u32>,
) -> (res: bool)
    ensures
        res == is_ancestor(parent_by_pid@, ancestor_pid, descendant_pid),
{
    let mut current: u32 = descendant_pid;
    let mut visited: HashSet<u32> = HashSet::new();
    let ghost parents = parent_by_pid@;
    let ghost mut steps: nat = 0;
    while !visited.contains(&current)
        invariant
            parents == parent_by_pid@,
            ancestor_at(parents, descendant_pid, steps) == Some(current),
            steps > 0 ==> current != 0,
            forall|s: nat|
                1 <= s <= steps ==> #[trigger] ancestor_at(parents, descendant_pid, s) != Some(
                    ancestor_pid,
                ),
            forall|p: u32| #[trigger] visited@.contains(p) ==> parents.contains_key(p),
            forall|p: u32| #[trigger]
                visited@.contains(p) ==> exists|s: nat|
                    s < steps && #[trigger] ancestor_at(parents, descendant_pid, s) == Some(p),
            visited@.finite(),
            visited@.len() == steps,
        decreases parents.dom().len() - visited@.len(),
    {
        let ghost before = visited@;
        let parent = match parent_by_pid.get(&current) {
            Some(parent) => *parent,
            None => {
                proof {
                    assert(ancestor_at(parents, descendant_pid, steps + 1) is None);
                    assert forall|s: nat| s >= 1 implies #[trigger] ancestor_at(
                        parents,
                        descendant_pid,
                        s,
                    ) != Some(ancestor_pid) by {
                        if s > steps {
                            lemma_chain_ended(parents, descendant_pid, steps + 1, s);
                        }
                    }
                }
                return false;
            },
        };
        assert(ancestor_at(parents, descendant_pid, steps + 1) == Some(parent));
        if parent == ancestor_pid {
            return true;
        }
        if parent == 0 {
            proof {
                assert(ancestor_at(parents, descendant_pid, steps + 2) is None);
                assert forall|s: nat| s >= 1 implies #[trigger] ancestor_at(
                    parents,
                    descendant_pid,
                    s,
                ) != Some(ancestor_pid) by {
                    if s > steps + 1 {
                        lemma_chain_ended(parents, descendant_pid, steps + 2, s);
                    }
                }
            }
            return false;
        }
        visited.insert(current);
        proof {
            assert(visited@ =~= before.insert(current));
            assert forall|p: u32| #[trigger] visited@.contains(p) implies exists|s: nat|
                s < steps + 1 && #[trigger] ancestor_at(parents, descendant_pid, s) == Some(p) by {
                if before.contains(p) {
                    let s = choose|s: nat|
                        s < steps && #[trigger] ancestor_at(parents, descendant_pid, s) == Some(p);
                    assert(ancestor_at(parents, descendant_pid, s) == Some(p));
                } else {
                    assert(ancestor_at(parents, descendant_pid, steps) == Some(p));
                }
            }
            assert(visited@.subset_of(parents.dom()));
            vstd::set_lib::lemma_len_subset(visited@, parents.dom());
            steps = steps + 1;
        }
        current = parent;
    }
    proof {
        let low = choose|s: nat|
            s < steps && #[trigger] ancestor_at(parents, descendant_pid, s) == Some(current);
        assert forall|s: nat| s >= 1 implies #[trigger] ancestor_at(parents, descendant_pid, s)
            != Some(ancestor_pid) by {
            lemma_cycle_has_no_more(parents, descendant_pid, ancestor_pid, low, steps, s);
        }
    }
    false
}

/// The parents that the first `n` entries give, the last one for a process that
/// occurs more than once.
pub open spec fn parents_of(entries: Seq<WindowsProcessEntry>, n: nat) -> Map<u32, u32>
    decreases n,
{
    if n == 0 {
        Map::empty()
    } else {
        parents_of(entries, (n - 1) as nat).insert(entries[n - 1].pid, entries[n - 1].parent_pid)
    }
}

/// The parent of each process in `entries`.
pub fn parent_table(entries: &[WindowsProcessEntry]) -> (res: HashMap<u32, u32>)
    ensures
        res@ == parents_of(entries@, entries@.len()),
{
    let mut table: HashMap<u32, u32> = HashMap::new();
    let mut i: usize = 0;
    while i < entries.len()
        invariant
            i <= entries@.len(),
            table@ == parents_of(entries@, i as nat),
        decreases entries@.len() - i,
    {
        table.insert(entries[i].pid, entries[i].parent_pid);
        i = i + 1;
    }
    table
}

/// The parent table knows a process exactly when an entry is one for it, and then gives
/// the parent that the last such entry tells.
pub proof fn law_parent_table(entries: Seq<WindowsProcessEntry>, n: nat, pid: u32)
    requires
        n <= entries.len(),
    ensures
        parents_of(entries, n).contains_key(pid) <==> exists|i: int|
            0 <= i < n && #[trigger] entries[i].pid == pid,
        forall|at: int|
            0 <= at < n && (#[trigger] entries[at]).pid == pid && (forall|later: int|
                at < later < n ==> (#[trigger] entries[later]).pid != pid) ==> parents_of(
                entries,
                n,
            )[pid] == entries[at].parent_pid,
    decreases n,
{
    if n > 0 {
        let fewer = (n - 1) as nat;
        law_parent_table(entries, fewer, pid);
        if entries[n - 1].pid != pid {
            assert forall|at: int|
                0 <= at < n && (#[trigger] entries[at]).pid == pid && (forall|later: int|
                    at < later < n ==> (
                    #[trigger] entries[later]).pid != pid) implies parents_of(entries, n)[pid]
                == entries[at].parent_pid by {
                assert(parents_of(entries, fewer)[pid] == entries[at].parent_pid);
            }
        } else {
            assert(entries[n - 1].pid == pid);
        }
    }
}

/// Whether each process of a path was started by the next one, and none but the first
/// and the last is process zero.
pub open spec fn is_parent_path(parents: Map<u32, u32>, path: Seq<u32>) -> bool {
    &&& path.len() >= 2
    &&& forall|i: int|
        0 <= i < path.len() - 1 ==> parents.contains_key(#[trigger] path[i]) && parents[path[i]]
            == path[i + 1]
    &&& forall|i: int| 0 < i < path.len() - 1 ==> #[trigger] path[i] != 0
}

proof fn lemma_path_is_chain(parents: Map<u32, u32>, path: Seq<u32>, steps: nat)
    requires
        is_parent_path(parents, path),
        steps < path.len(),
    ensures
        ancestor_at(parents, path[0], steps) == Some(path[steps as int]),
    decreases steps,
{
    if steps > 0 {
        lemma_path_is_chain(parents, path, (steps - 1) as nat);
        assert(parents.contains_key(path[steps - 1]));
    }
}

/// A process at whose end a path of parents arrives is an ancestor of the one that the
/// path begins with, however long the path is.
pub proof fn law_parent_path_leads_to_ancestor(parents: Map<u32, u32>, path: Seq<u32>)
    requires
        is_parent_path(parents, path),
    ensures
        is_ancestor(parents, path.last(), path[0]),
{
    let steps = (path.len() - 1) as nat;
    lemma_path_is_chain(parents, path, steps);
    assert(ancestor_at(parents, path[0], steps) == Some(path.last()));
}

/// To every ancestor of a process there is a path of parents.
pub proof fn law_ancestor_has_parent_path(parents: Map<u32, u32>, ancestor: u32, pid: u32) -> (path:
    Seq<u32>)
    requires
        is_ancestor(parents, ancestor, pid),
    ensures
        is_parent_path(parents, path),
        path[0] == pid,
        path.last() == ancestor,
{
    let steps = choose|steps: nat|
        steps >= 1 && #[trigger] ancestor_at(parents, pid, steps) == Some(ancestor);
    let path = Seq::new(steps + 1, |k: int| ancestor_at(parents, pid, k as nat)->Some_0);
    assert forall|i: int| 0 <= i < path.len() - 1 implies parents.contains_key(#[trigger] path[i])
        && parents[path[i]] == path[i + 1] && (i > 0 ==> path[i] != 0) by {
        if ancestor_at(parents, pid, (i + 1) as nat) is None {
            lemma_chain_ended(parents, pid, (i + 1) as nat, steps);
        }
        if ancestor_at(parents, pid, i as nat) is None {
            lemma_chain_ended(parents, pid, i as nat, steps);
        }
    }
    path
}

/// Whether process `pid` is listed from entry `e` at process number `m` of the walk, or
/// from before that.
spec fn met_by(
    entries: Seq<WindowsProcessEntry>,
    found: Seq<int>,
    origins: Seq<int>,
    pid: u32,
    m: int,
    e: int,
) -> bool {
    exists|j: int|
        0 <= j < found.len() && entries[#[trigger] found[j]].pid == pid && (origins[j] < m || (
        origins[j] == m && found[j] <= e))
}

/// What holds of the order of a walk after the children of its first `k` processes, and
/// those of process number `k` among the first `n` entries, are listed. `origins` tells
/// which process of the walk each listed one is a child of.
spec fn in_order(
    root: u32,
    entries: Seq<WindowsProcessEntry>,
    found: Seq<int>,
    origins: Seq<int>,
    k: int,
    n: int,
) -> bool {
    &&& origins.len() == found.len()
    &&& forall|j: int|
        0 <= j < found.len() ==> {
            &&& 0 <= #[trigger] origins[j] <= j
            &&& walk_node(root, entries, found, origins[j]) == entries[found[j]].parent_pid
            &&& origins[j] < k || (origins[j] == k && found[j] < n)
        }
    &&& forall|i: int, j: int|
        0 <= i < j < found.len() ==> (#[trigger] origins[i] < #[trigger] origins[j] || (origins[i]
            == origins[j] && found[i] < found[j]))
    &&& forall|e: int, m: int|
        0 <= e < entries.len() && 0 <= m <= k && (m < k || e < n) && m <= found.len()
            && entries[e].pid != root && entries[e].parent_pid == walk_node(root, entries, found, m)
            ==> #[trigger] met_by(entries, found, origins, entries[e].pid, m, e)
}

proof fn lemma_order_children(
    root: u32,
    entries: Seq<WindowsProcessEntry>,
    found: Seq<int>,
    origins: Seq<int>,
    k: int,
    n: nat,
) -> (longer: Seq<int>)
    requires
        walk_ok(root, entries, found),
        0 <= k <= found.len(),
        n <= entries.len(),
        in_order(root, entries, found, origins, k, 0),
    ensures
        ({
            let parent = walk_node(root, entries, found, k);
            let after = with_children(root, entries, found, parent, n);
            in_order(root, entries, after, longer, k, n as int)
        }),
    decreases n,
{
    let parent = walk_node(root, entries, found, k);
    if n == 0 {
        origins
    } else {
        let fewer = (n - 1) as nat;
        let shorter = lemma_order_children(root, entries, found, origins, k, fewer);
        let before = with_children(root, entries, found, parent, fewer);
        let after = with_children(root, entries, found, parent, n);
        lemma_with_children(root, entries, found, k, fewer);
        assert(walk_node(root, entries, before, k) == parent) by {
            if k > 0 {
                assert(before.take(found.len() as int)[k - 1] == found[k - 1]);
            }
        }
        let entry = entries[n - 1];
        if entry.parent_pid == parent && entry.pid != root && !lists_pid(
            entries,
            before,
            entry.pid,
        ) {
            let longer = shorter.push(k);
            assert(after == before.push(n - 1));
            assert forall|m: int| 0 <= m <= before.len() implies #[trigger] walk_node(
                root,
                entries,
                after,
                m,
            ) == walk_node(root, entries, before, m) by {}
            assert forall|j: int| 0 <= j < after.len() implies {
                &&& 0 <= #[trigger] longer[j] <= j
                &&& walk_node(root, entries, after, longer[j]) == entries[after[j]].parent_pid
                &&& longer[j] < k || (longer[j] == k && after[j] < n)
            } by {
                if j < before.len() {
                    assert(longer[j] == shorter[j] && after[j] == before[j]);
                    assert(walk_node(root, entries, before, shorter[j])
                        == entries[before[j]].parent_pid);
                }
            }
            assert forall|i: int, j: int| 0 <= i < j < after.len() implies (#[trigger] longer[i]
                < #[trigger] longer[j] || (longer[i] == longer[j] && after[i] < after[j])) by {
                assert(longer[i] == shorter[i] && after[i] == before[i]);
                if j < before.len() {
                    assert(longer[j] == shorter[j] && after[j] == before[j]);
                }
            }
            assert forall|e: int, m: int|
                0 <= e < entries.len() && 0 <= m <= k && (m < k || e < n) && m <= after.len()
                    && entries[e].pid != root && entries[e].parent_pid == walk_node(
                    root,
                    entries,
                    after,
                    m,
                ) implies #[trigger] met_by(entries, after, longer, entries[e].pid, m, e) by {
                if m == k && e == n - 1 {
                    assert(after[before.len() as int] == n - 1);
                } else {
                    assert(walk_node(root, entries, after, m) == walk_node(
                        root,
                        entries,
                        before,
                        m,
                    ));
                    assert(met_by(entries, before, shorter, entries[e].pid, m, e));
                    let j = choose|j: int|
                        0 <= j < before.len() && entries[#[trigger] before[j]].pid
                            == entries[e].pid && (shorter[j] < m || (shorter[j] == m && before[j]
                            <= e));
                    assert(after[j] == before[j] && longer[j] == shorter[j]);
                }
            }
            longer
        } else {
            assert(after == before);
            assert forall|j: int| 0 <= j < after.len() implies {
                &&& 0 <= #[trigger] shorter[j] <= j
                &&& walk_node(root, entries, after, shorter[j]) == entries[after[j]].parent_pid
                &&& shorter[j] < k || (shorter[j] == k && after[j] < n)
            } by {
                assert(walk_node(root, entries, before, shorter[j])
                    == entries[before[j]].parent_pid);
            }
            assert forall|e: int, m: int|
                0 <= e < entries.len() && 0 <= m <= k && (m < k || e < n) && m <= after.len()
                    && entries[e].pid != root && entries[e].parent_pid == walk_node(
                    root,
                    entries,
                    after,
                    m,
                ) implies #[trigger] met_by(entries, after, shorter, entries[e].pid, m, e) by {
                if m == k && e == n - 1 {
                    let j = choose|j: int|
                        0 <= j < before.len() && entries[#[trigger] before[j]].pid == entry.pid;
                    assert(shorter[j] < k || (shorter[j] == k && before[j] < n - 1));
                    assert(entries[after[j]].pid == entries[e].pid);
                } else {
                    assert(met_by(entries, before, shorter, entries[e].pid, m, e));
                }
            }
            shorter
        }
    }
}

proof fn lemma_order(
    root: u32,
    entries: Seq<WindowsProcessEntry>,
    found: Seq<int>,
    origins: Seq<int>,
    k: nat,
) -> (all_origins: Seq<int>)
    requires
        walk_ok(root, entries, found),
        k <= found.len() + 1,
        scanned(root, entries, found, k as int),
        in_order(root, entries, found, origins, k as int, 0),
    ensures
        ({
            let all = walk(root, entries, found, k);
            in_order(root, entries, all, all_origins, (all.len() + 1) as int, 0)
        }),
    decreases entries.len() + 1 - k,
{
    lemma_walk_len(root, entries, found);
    if k > found.len() || k > entries.len() {
        origins
    } else {
        lemma_walk_step(root, entries, found, k as int);
        let longer = lemma_order_children(
            root,
            entries,
            found,
            origins,
            k as int,
            entries.len(),
        );
        let after = with_children(
            root,
            entries,
            found,
            walk_node(root, entries, found, k as int),
            entries.len(),
        );
        assert forall|j: int| 0 <= j < after.len() implies {
            &&& 0 <= #[trigger] longer[j] <= j
            &&& walk_node(root, entries, after, longer[j]) == entries[after[j]].parent_pid
            &&& longer[j] < k + 1 || (longer[j] == k + 1 && after[j] < 0)
        } by {}
        assert(in_order(root, entries, after, longer, (k + 1) as int, 0));
        lemma_order(root, entries, after, longer, k + 1)
    }
}

proof fn lemma_nodes_differ(root: u32, entries: Seq<WindowsProcessEntry>, m: int, n: int)
    requires
        0 <= m <= descendants(root, entries).len(),
        0 <= n <= descendants(root, entries).len(),
        walk_node(root, entries, descendants(root, entries), m) == walk_node(
            root,
            entries,
            descendants(root, entries),
            n,
        ),
    ensures
        m == n,
{
    law_descendants_distinct(root, entries);
    let all = descendants(root, entries);
    if m > 0 && n > 0 && m != n {
        assert(entries[all[m - 1]].pid == entries[all[n - 1]].pid);
    }
}

/// A walk lists the children of a process before those of a process behind it, and the
/// children of one process in the order of the entries. Process number zero of the walk
/// is the root, and the others are those that are listed.
pub proof fn law_descendants_in_order(
    root: u32,
    entries: Seq<WindowsProcessEntry>,
    i: int,
    j: int,
    m: int,
    n: int,
)
    requires
        0 <= i < j < descendants(root, entries).len(),
        0 <= m <= descendants(root, entries).len(),
        0 <= n <= descendants(root, entries).len(),
        entries[descendants(root, entries)[i]].parent_pid == (if m == 0 {
            root
        } else {
            entries[descendants(root, entries)[m - 1]].pid
        }),
        entries[descendants(root, entries)[j]].parent_pid == (if n == 0 {
            root
        } else {
            entries[descendants(root, entries)[n - 1]].pid
        }),
    ensures
        m < n || (m == n && descendants(root, entries)[i] < descendants(root, entries)[j]),
{
    let all = descendants(root, entries);
    let none = Seq::<int>::empty();
    let origins = lemma_order(root, entries, none, none, 0);
    assert(origins[i] < origins[j] || (origins[i] == origins[j] && all[i] < all[j]));
    lemma_nodes_differ(root, entries, m, origins[i]);
    lemma_nodes_differ(root, entries, n, origins[j]);
}

/// A process that has several entries is listed from the one at which the walk meets it
/// first: no other entry for it is a child of an earlier process of the walk, or stands
/// before it as a child of the same one.
pub proof fn law_descendants_list_first_meeting(
    root: u32,
    entries: Seq<WindowsProcessEntry>,
    j: int,
    m: int,
    e: int,
    n: int,
)
    requires
        0 <= j < descendants(root, entries).len(),
        0 <= e < entries.len(),
        0 <= m <= descendants(root, entries).len(),
        0 <= n <= descendants(root, entries).len(),
        entries[e].pid == entries[descendants(root, entries)[j]].pid,
        entries[descendants(root, entries)[j]].parent_pid == (if m == 0 {
            root
        } else {
            entries[descendants(root, entries)[m - 1]].pid
        }),
        entries[e].parent_pid == (if n == 0 {
            root
        } else {
            entries[descendants(root, entries)[n - 1]].pid
        }),
    ensures
        m < n || (m == n && descendants(root, entries)[j] <= e),
{
    let all = descendants(root, entries);
    let none = Seq::<int>::empty();
    law_descendants_distinct(root, entries);
    let origins = lemma_order(root, entries, none, none, 0);
    assert(walk_node(root, entries, all, n) == entries[e].parent_pid);
    assert(met_by(entries, all, origins, entries[e].pid, n, e));
    let q = choose|q: int|
        0 <= q < all.len() && entries[#[trigger] all[q]].pid == entries[e].pid && (origins[q] < n
            || (origins[q] == n && all[q] <= e));
    assert(q == j) by {
        assert(entries[all[q]].pid == entries[all[j]].pid);
    }
    assert(0 <= origins[j] <= j);
    lemma_nodes_differ(root, entries, m, origins[j]);
}

/// The root is below itself, a child of a process below the root is below the root, and a
/// process below the root is the root or a child of such a one.
pub proof fn law_descent_goes_by_children(
    entries: Seq<WindowsProcessEntry>,
    root: u32,
    child: int,
    pid: u32,
)
    requires
        0 <= child < entries.len(),
    ensures
        descends_from(entries, root, root),
        descends_from(entries, root, entries[child].parent_pid) ==> descends_from(
            entries,
            root,
            entries[child].pid,
        ),
        descends_from(entries, root, pid) && pid != root ==> exists|i: int|
            0 <= i < entries.len() && (#[trigger] entries[i]).pid == pid && descends_from(
                entries,
                root,
                entries[i].parent_pid,
            ),
{
    assert(reaches(entries, root, root, 0));
    if descends_from(entries, root, entries[child].parent_pid) {
        let steps = choose|steps: nat| #[trigger]
            reaches(entries, root, entries[child].parent_pid, steps);
        assert(reaches(entries, root, entries[child].pid, steps + 1)) by {
            assert(entries[child].pid == entries[child].pid);
        }
    }
    if descends_from(entries, root, pid) && pid != root {
        let steps = choose|steps: nat| #[trigger] reaches(entries, root, pid, steps);
        let i = choose|i: int|
            #![trigger entries[i]]
            0 <= i < entries.len() && entries[i].pid == pid && reaches(
                entries,
                root,
                entries[i].parent_pid,
                (steps - 1) as nat,
            );
        assert(descends_from(entries, root, entries[i].parent_pid));
    }
}

/// A set of processes that holds the root and with every process its children holds all that
/// the walk from the root lists, so nothing else is below the root.
pub proof fn law_descendants_are_the_least_family(
    root: u32,
    entries: Seq<WindowsProcessEntry>,
    family: Set<u32>,
    j: int,
)
    requires
        family.contains(root),
        forall|i: int|
            0 <= i < entries.len() && family.contains((#[trigger] entries[i]).parent_pid)
                ==> family.contains(entries[i].pid),
        0 <= j < descendants(root, entries).len(),
    ensures
        family.contains(entries[descendants(root, entries)[j]].pid),
{
    let all = descendants(root, entries);
    let pid = entries[all[j]].pid;
    assert(lists_pid(entries, all, pid));
    law_descendants_reachable(root, entries, pid);
    let steps = choose|steps: nat| #[trigger] reaches(entries, root, pid, steps);
    lemma_family_holds(root, entries, family, pid, steps);
}

proof fn lemma_family_holds(
    root: u32,
    entries: Seq<WindowsProcessEntry>,
    family: Set<u32>,
    pid: u32,
    steps: nat,
)
    requires
        family.contains(root),
        forall|i: int|
            0 <= i < entries.len() && family.contains((#[trigger] entries[i]).parent_pid)
                ==> family.contains(entries[i].pid),
        reaches(entries, root, pid, steps),
    ensures
        family.contains(pid),
    decreases steps,
{
    if steps > 0 {
        let i = choose|i: int|
            #![trigger entries[i]]
            0 <= i < entries.len() && entries[i].pid == pid && reaches(
                entries,
                root,
                entries[i].parent_pid,
                (steps - 1) as nat,
            );
        lemma_family_holds(root, entries, family, entries[i].parent_pid, (steps - 1) as nat);
    }
}

/// With the root and every process that it lists, the walk lists all children of those.
pub proof fn law_descendants_hold_all_children(
    root: u32,
    entries: Seq<WindowsProcessEntry>,
    child: int,
)
    requires
        0 <= child < entries.len(),
        entries[child].pid != root,
        entries[child].parent_pid == root || exists|j: int|
            0 <= j < descendants(root, entries).len() && entries[#[trigger] descendants(
                root,
                entries,
            )[j]].pid == entries[child].parent_pid,
    ensures
        exists|j: int|
            0 <= j < descendants(root, entries).len() && entries[#[trigger] descendants(
                root,
                entries,
            )[j]].pid == entries[child].pid,
{
    let above = entries[child].parent_pid;
    law_descendants_reachable(root, entries, above);
    law_descent_goes_by_children(entries, root, child, above);
    law_descendants_reachable(root, entries, entries[child].pid);
    assert(lists_pid(entries, descendants(root, entries), entries[child].pid));
}

} // verus!
