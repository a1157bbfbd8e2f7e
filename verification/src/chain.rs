//! The ownership / teardown model: an arena of context nodes forming a
//! path (Surface <- Device <- Swapchain <- RenderPass, extendable by further
//! descendants), each slot carrying a reference count. A slot's native
//! resource is released exactly when its count reaches zero, and the release
//! of a child always precedes the release of its parent, whatever order the
//! outside holders drop their handles in.
//!
//! A slot's count is the number of outside handles on it plus the number of
//! live child slots, each of which holds one reference to its parent. A
//! reserved slot starts `Uninitialized` (the parent reference is taken, the
//! native resource is not yet acquired); activation marks the acquisition.
//! Dropping the handle of a slot that never became `Active` retires it
//! without a teardown entry, so a construction step that fails part-way
//! leaks nothing.

use vstd::prelude::*;

verus! {

/// Lifecycle of one context slot. `Destroyed` is terminal.
#[derive(Clone, Copy, PartialEq, Eq, Structural, Debug)]
pub enum NodeState {
    /// Slot reserved, parent reference held, native resource not yet acquired.
    Uninitialized,
    /// Native resource acquired; the slot owns it.
    Active,
    /// Native resource released (or reservation abandoned). Terminal.
    Destroyed,
}

/// One context slot of the chain arena.
#[derive(Clone, Copy, PartialEq, Eq, Structural, Debug)]
pub struct ContextNode {
    /// Index of the parent slot; `None` for the root context.
    pub parent: Option<usize>,
    pub state: NodeState,
    /// Handles held by the world outside the arena.
    pub external_refs: usize,
    /// Total references: outside handles plus live child slots.
    pub ref_count: usize,
}

/// The slot described by `n` holds a reference to slot `p`.
pub open spec fn is_live_child(n: ContextNode, p: int) -> bool {
    match n.parent {
        Some(q) => q == p && n.state != NodeState::Destroyed,
        None => false,
    }
}

/// 1 when the slot holds a reference to slot `p`, else 0.
pub open spec fn child_contrib(n: ContextNode, p: int) -> int {
    if is_live_child(n, p) {
        1
    } else {
        0
    }
}

/// Number of slots among the first `n` that hold a reference to slot `p`.
#[verifier::opaque]
pub open spec fn child_refs_upto(nodes: Seq<ContextNode>, p: int, n: int) -> int
    decreases n,
{
    if n <= 0 {
        0
    } else {
        child_refs_upto(nodes, p, n - 1) + child_contrib(nodes[n - 1], p)
    }
}

/// Number of slots holding a reference to slot `p`.
pub open spec fn child_refs(nodes: Seq<ContextNode>, p: int) -> int {
    child_refs_upto(nodes, p, nodes.len() as int)
}

pub proof fn lemma_child_refs_nonneg(nodes: Seq<ContextNode>, p: int, n: int)
    ensures
        child_refs_upto(nodes, p, n) >= 0,
    decreases n,
{
    reveal(child_refs_upto);
    if n > 0 {
        lemma_child_refs_nonneg(nodes, p, n - 1);
    }
}

/// Extending the sequence does not change counts over an unchanged prefix.
pub proof fn lemma_child_refs_push(nodes: Seq<ContextNode>, x: ContextNode, p: int, n: int)
    requires
        n <= nodes.len(),
    ensures
        child_refs_upto(nodes.push(x), p, n) == child_refs_upto(nodes, p, n),
    decreases n,
{
    reveal(child_refs_upto);
    if n > 0 {
        lemma_child_refs_push(nodes, x, p, n - 1);
    }
}

/// Replacing the slot at `k` shifts the count by the change in `k`'s contribution.
pub proof fn lemma_child_refs_update(
    nodes: Seq<ContextNode>,
    k: int,
    x: ContextNode,
    p: int,
    n: int,
)
    requires
        0 <= k < nodes.len(),
        n <= nodes.len(),
    ensures
        child_refs_upto(nodes.update(k, x), p, n) == if k < n {
            child_refs_upto(nodes, p, n) - child_contrib(nodes[k], p) + child_contrib(x, p)
        } else {
            child_refs_upto(nodes, p, n)
        },
    decreases n,
{
    reveal(child_refs_upto);
    if n > 0 {
        lemma_child_refs_update(nodes, k, x, p, n - 1);
    }
}

/// A zero count means no slot holds a reference to `p`.
pub proof fn lemma_child_refs_zero(nodes: Seq<ContextNode>, p: int, n: int)
    requires
        n <= nodes.len(),
        child_refs_upto(nodes, p, n) == 0,
    ensures
        forall|j: int| 0 <= j < n ==> !is_live_child(#[trigger] nodes[j], p),
    decreases n,
{
    reveal(child_refs_upto);
    if n > 0 {
        lemma_child_refs_nonneg(nodes, p, n - 1);
        lemma_child_refs_zero(nodes, p, n - 1);
    }
}

/// A slot holding a reference to `p` makes the count positive.
pub proof fn lemma_child_refs_pos(nodes: Seq<ContextNode>, p: int, j: int, n: int)
    requires
        0 <= j < n <= nodes.len(),
        is_live_child(nodes[j], p),
    ensures
        child_refs_upto(nodes, p, n) >= 1,
    decreases n,
{
    reveal(child_refs_upto);
    lemma_child_refs_nonneg(nodes, p, n - 1);
    if j < n - 1 {
        lemma_child_refs_pos(nodes, p, j, n - 1);
    }
}

/// No slot among the first `n` holds a reference to `p`, so the count is zero.
pub proof fn lemma_child_refs_none(nodes: Seq<ContextNode>, p: int, n: int)
    requires
        n <= nodes.len(),
        forall|j: int| 0 <= j < n ==> !is_live_child(#[trigger] nodes[j], p),
    ensures
        child_refs_upto(nodes, p, n) == 0,
    decreases n,
{
    reveal(child_refs_upto);
    if n > 0 {
        lemma_child_refs_none(nodes, p, n - 1);
    }
}

/// The count over a prefix is the count over one fewer slot plus the last
/// slot's contribution.
pub proof fn lemma_child_refs_snoc(nodes: Seq<ContextNode>, p: int, n: int)
    requires
        1 <= n <= nodes.len(),
    ensures
        child_refs_upto(nodes, p, n) == child_refs_upto(nodes, p, n - 1) + child_contrib(
            nodes[n - 1],
            p,
        ),
{
    reveal(child_refs_upto);
}

/// Every parent stands earlier in the arena than its children.
pub open spec fn parents_wf(nodes: Seq<ContextNode>) -> bool {
    forall|i: int| 0 <= i < nodes.len() ==> (match #[trigger] nodes[i].parent {
        Some(p) => 0 <= p < i,
        None => true,
    })
}

/// Every stored count equals outside handles plus live children.
pub open spec fn counts_wf(nodes: Seq<ContextNode>) -> bool {
    forall|i: int| 0 <= i < nodes.len() ==> (#[trigger] nodes[i]).ref_count as int
        == nodes[i].external_refs as int + child_refs(nodes, i)
}

/// A destroyed slot is referenced by nothing.
pub open spec fn destroyed_wf(nodes: Seq<ContextNode>) -> bool {
    forall|i: int| 0 <= i < nodes.len() && (#[trigger] nodes[i]).state == NodeState::Destroyed
        ==> nodes[i].ref_count == 0 && nodes[i].external_refs == 0
}

/// While a slot lives, its parent is `Active`: no resource outlives the
/// resource it was created from.
pub open spec fn live_parent_wf(nodes: Seq<ContextNode>) -> bool {
    forall|i: int, p: int|
        #![trigger nodes[i].parent, nodes[p]]
        0 <= i < nodes.len() && 0 <= p < nodes.len() && nodes[i].state != NodeState::Destroyed
            && nodes[i].parent == Some(p as usize) ==> nodes[p].state == NodeState::Active
}

/// The teardown log lists destroyed slots, each at most once, and a child's
/// entry always precedes its parent's.
pub open spec fn log_wf(nodes: Seq<ContextNode>, log: Seq<usize>) -> bool {
    &&& forall|a: int| 0 <= a < log.len() ==> (#[trigger] log[a]) < nodes.len()
        && nodes[log[a] as int].state == NodeState::Destroyed
    &&& forall|a: int, b: int| 0 <= a < log.len() && 0 <= b < log.len()
        && nodes[#[trigger] log[a] as int].parent == Some(#[trigger] log[b]) ==> a < b
    &&& forall|a: int, b: int| 0 <= a < log.len() && 0 <= b < log.len() && a != b
        ==> #[trigger] log[a] != #[trigger] log[b]
}

/// The arena of context slots, with the order in which native resources
/// were released.
#[derive(Clone, Debug)]
pub struct ContextChain {
    pub nodes: Vec<ContextNode>,
    /// Indices of slots whose native resource has been released, in release order.
    pub teardown_log: Vec<usize>,
}

impl ContextChain {
    /// Well-formedness: the invariant every operation preserves.
    pub open spec fn wf(self) -> bool {
        &&& parents_wf(self.nodes@)
        &&& counts_wf(self.nodes@)
        &&& destroyed_wf(self.nodes@)
        &&& live_parent_wf(self.nodes@)
        &&& log_wf(self.nodes@, self.teardown_log@)
    }

    /// An empty chain.
    pub fn new() -> (r: ContextChain)
        ensures
            r.wf(),
            r.nodes@.len() == 0,
            r.teardown_log@.len() == 0,
    {
        ContextChain { nodes: Vec::new(), teardown_log: Vec::new() }
    }

    /// Reserves a slot for a new context: takes one reference on the parent,
    /// which must be `Active`, and hands out the first outside handle on the
    /// new slot. The slot stays `Uninitialized` until `activate` records that
    /// its native resource was acquired; dropping its handle before that
    /// retires the slot without a teardown entry.
    pub fn create_node(&mut self, parent: Option<usize>) -> (r: usize)
        requires
            old(self).wf(),
            old(self).nodes@.len() < usize::MAX,
            (match parent {
                Some(p) => p < old(self).nodes@.len()
                    && old(self).nodes@[p as int].state == NodeState::Active
                    && old(self).nodes@[p as int].ref_count < usize::MAX,
                None => true,
            }),
        ensures
            final(self).wf(),
            r == old(self).nodes@.len(),
            final(self).teardown_log@ == old(self).teardown_log@,
            final(self).nodes@ == (match parent {
                Some(p) => old(self).nodes@.update(
                    p as int,
                    bump_ref(old(self).nodes@[p as int]),
                ).push(fresh_node(parent)),
                None => old(self).nodes@.push(fresh_node(parent)),
            }),
    {
        let r = self.nodes.len();
        let ghost pre = self.nodes@;
        match parent {
            Some(p) => {
                let mut pn = self.nodes[p];
                pn.ref_count = pn.ref_count + 1;
                self.nodes[p] = pn;
            },
            None => {},
        }
        let ghost mid = self.nodes@;
        self.nodes.push(
            ContextNode {
                parent,
                state: NodeState::Uninitialized,
                external_refs: 1,
                ref_count: 1,
            },
        );
        proof {
            let len = pre.len() as int;
            let post = self.nodes@;
            assert(post[len] == fresh_node(parent));
            assert forall|q: int| 0 <= q < post.len() implies (#[trigger] post[q]).ref_count as int
                == post[q].external_refs as int + child_refs(post, q) by {
                lemma_child_refs_snoc(post, q, len + 1);
                lemma_child_refs_push(mid, fresh_node(parent), q, len);
                if parent is Some {
                    let p = parent->0 as int;
                    lemma_child_refs_update(pre, p, bump_ref(pre[p]), q, len);
                }
                if q < len {
                    assert(pre[q].ref_count as int == pre[q].external_refs as int + child_refs(
                        pre,
                        q,
                    ));
                } else {
                    assert forall|j: int| 0 <= j < len implies !is_live_child(
                        #[trigger] mid[j],
                        q,
                    ) by {
                        assert(parents_wf(pre));
                    }
                    lemma_child_refs_none(mid, q, len);
                }
            }
            assert(log_wf(post, self.teardown_log@)) by {
                assert forall|a: int| 0 <= a < self.teardown_log@.len() implies (
                #[trigger] self.teardown_log@[a]) < post.len() && post[self.teardown_log@[a] as int].state
                    == NodeState::Destroyed by {
                    assert(self.teardown_log@[a] < pre.len());
                }
            }
        }
        r
    }

    /// Records that the slot's native resource was acquired:
    /// `Uninitialized` becomes `Active`.
    pub fn activate(&mut self, i: usize)
        requires
            old(self).wf(),
            i < old(self).nodes@.len(),
            old(self).nodes@[i as int].state == NodeState::Uninitialized,
        ensures
            final(self).wf(),
            final(self).teardown_log@ == old(self).teardown_log@,
            final(self).nodes@ == old(self).nodes@.update(
                i as int,
                activated(old(self).nodes@[i as int]),
            ),
    {
        let ghost pre = self.nodes@;
        let mut n = self.nodes[i];
        n.state = NodeState::Active;
        self.nodes[i] = n;
        proof {
            let post = self.nodes@;
            let len = pre.len() as int;
            assert forall|q: int| 0 <= q < post.len() implies (#[trigger] post[q]).ref_count as int
                == post[q].external_refs as int + child_refs(post, q) by {
                lemma_child_refs_update(pre, i as int, activated(pre[i as int]), q, len);
            }
        }
    }

    /// Takes one more outside handle on a slot that already has one
    /// (sharing a context with a second holder).
    pub fn clone_handle(&mut self, i: usize)
        requires
            old(self).wf(),
            i < old(self).nodes@.len(),
            old(self).nodes@[i as int].external_refs > 0,
            old(self).nodes@[i as int].ref_count < usize::MAX,
            old(self).nodes@[i as int].external_refs < usize::MAX,
        ensures
            final(self).wf(),
            final(self).teardown_log@ == old(self).teardown_log@,
            final(self).nodes@ == old(self).nodes@.update(
                i as int,
                bump_handle(old(self).nodes@[i as int]),
            ),
    {
        let ghost pre = self.nodes@;
        let mut n = self.nodes[i];
        n.external_refs = n.external_refs + 1;
        n.ref_count = n.ref_count + 1;
        self.nodes[i] = n;
        proof {
            let post = self.nodes@;
            let len = pre.len() as int;
            assert forall|q: int| 0 <= q < post.len() implies (#[trigger] post[q]).ref_count as int
                == post[q].external_refs as int + child_refs(post, q) by {
                lemma_child_refs_update(pre, i as int, bump_handle(pre[i as int]), q, len);
            }
        }
    }

    /// Drops one outside handle on slot `i`. If it was the last reference,
    /// the slot releases its native resource — strictly before giving up its
    /// own reference on its parent — and the release cascades up the chain
    /// as ancestors lose their last reference in turn.
    pub fn drop_handle(&mut self, i: usize)
        requires
            old(self).wf(),
            i < old(self).nodes@.len(),
            old(self).nodes@[i as int].external_refs > 0,
        ensures
            final(self).wf(),
            final(self).nodes@ == release_from(
                old(self).nodes@.update(i as int, dec_handle(old(self).nodes@[i as int])),
                old(self).teardown_log@,
                i as int,
            ).0,
            final(self).teardown_log@ == release_from(
                old(self).nodes@.update(i as int, dec_handle(old(self).nodes@[i as int])),
                old(self).teardown_log@,
                i as int,
            ).1,
            final(self).nodes@.len() == old(self).nodes@.len(),
            forall|j: int| 0 <= j < old(self).nodes@.len() ==> final(self).nodes@[j].parent
                == old(self).nodes@[j].parent,
    {
        let ghost orig = self.nodes@;
        proof {
            lemma_child_refs_nonneg(orig, i as int, orig.len() as int);
        }
        let mut n0 = self.nodes[i];
        n0.external_refs = n0.external_refs - 1;
        n0.ref_count = n0.ref_count - 1;
        self.nodes[i] = n0;
        let ghost start_nodes = self.nodes@;
        let ghost start_log = self.teardown_log@;
        proof {
            assert(start_nodes =~= orig.update(i as int, dec_handle(orig[i as int])));
            assert forall|q: int| 0 <= q < start_nodes.len() implies (
            #[trigger] start_nodes[q]).ref_count as int == start_nodes[q].external_refs as int
                + child_refs(start_nodes, q) by {
                lemma_child_refs_update(
                    orig,
                    i as int,
                    dec_handle(orig[i as int]),
                    q,
                    orig.len() as int,
                );
            }
        }
        let mut cur = i;
        loop
            invariant_except_break
                self.nodes@[cur as int].state != NodeState::Destroyed,
            invariant
                self.wf(),
                cur < self.nodes@.len(),
                self.nodes@.len() == start_nodes.len(),
                forall|j: int| 0 <= j < start_nodes.len() ==> self.nodes@[j].parent
                    == start_nodes[j].parent,
                release_from(self.nodes@, self.teardown_log@, cur as int) == release_from(
                    start_nodes,
                    start_log,
                    i as int,
                ),
            ensures
                self.wf(),
                self.nodes@.len() == start_nodes.len(),
                forall|j: int| 0 <= j < start_nodes.len() ==> self.nodes@[j].parent
                    == start_nodes[j].parent,
                self.nodes@ == release_from(start_nodes, start_log, i as int).0,
                self.teardown_log@ == release_from(start_nodes, start_log, i as int).1,
            decreases cur,
        {
            let n = self.nodes[cur];
            if n.ref_count != 0 {
                break;
            }
            let ghost pre = self.nodes@;
            let ghost prelog = self.teardown_log@;
            let ghost len = pre.len() as int;
            proof {
                lemma_child_refs_nonneg(pre, cur as int, len);
                assert(pre[cur as int].external_refs == 0);
                assert(child_refs(pre, cur as int) == 0);
                lemma_child_refs_zero(pre, cur as int, len);
            }
            let mut d = n;
            d.state = NodeState::Destroyed;
            self.nodes[cur] = d;
            if n.state == NodeState::Active {
                self.teardown_log.push(cur);
            }
            let ghost mid = self.nodes@;
            let ghost midlog = self.teardown_log@;
            proof {
                assert(d == node_destroyed(pre[cur as int]));
                assert(mid =~= pre.update(cur as int, node_destroyed(pre[cur as int])));
            }
            match n.parent {
                None => {
                    proof {
                        assert forall|q: int| 0 <= q < mid.len() implies (
                        #[trigger] mid[q]).ref_count as int == mid[q].external_refs as int
                            + child_refs(mid, q) by {
                            lemma_child_refs_update(
                                pre,
                                cur as int,
                                node_destroyed(pre[cur as int]),
                                q,
                                len,
                            );
                        }
                        assert forall|i2: int, p2: int|
                            #![trigger mid[i2].parent, mid[p2]]
                            0 <= i2 < mid.len() && 0 <= p2 < mid.len() && mid[i2].state
                                != NodeState::Destroyed && mid[i2].parent == Some(
                                p2 as usize,
                            ) implies mid[p2].state == NodeState::Active by {
                            assert(self.nodes.len() == self.nodes@.len());
                            assert(mid.len() <= usize::MAX);
                            assert(((p2 as usize) as int) == p2);
                            assert(i2 != cur as int);
                            assert(mid[i2] == pre[i2]);
                            assert(is_live_child(pre[i2], p2));
                            assert(p2 != cur as int);
                            assert(pre[p2].state == NodeState::Active);
                            assert(mid[p2] == pre[p2]);
                        }
                        assert(log_wf(mid, midlog)) by {
                            assert(forall|a: int| 0 <= a < prelog.len() ==> prelog[a]
                                == #[trigger] midlog[a]);
                        }
                        assert(release_from(pre, prelog, cur as int) == (mid, midlog));
                    }
                    break;
                },
                Some(p) => {
                    proof {
                        assert(is_live_child(pre[cur as int], p as int));
                        lemma_child_refs_pos(pre, p as int, cur as int, len);
                        assert(mid[p as int] == pre[p as int]);
                        assert(pre[p as int].ref_count as int == pre[p as int].external_refs as int
                            + child_refs(pre, p as int));
                        assert(pre[p as int].ref_count >= 1);
                        assert(pre[p as int].state == NodeState::Active);
                    }
                    let mut pn = self.nodes[p];
                    pn.ref_count = pn.ref_count - 1;
                    self.nodes[p] = pn;
                    proof {
                        let post = self.nodes@;
                        assert(post =~= mid.update(p as int, dec_ref(mid[p as int])));
                        assert forall|q: int| 0 <= q < post.len() implies (
                        #[trigger] post[q]).ref_count as int == post[q].external_refs as int
                            + child_refs(post, q) by {
                            lemma_child_refs_update(
                                pre,
                                cur as int,
                                node_destroyed(pre[cur as int]),
                                q,
                                len,
                            );
                            lemma_child_refs_update(mid, p as int, dec_ref(mid[p as int]), q, len);
                        }
                        assert forall|i2: int, p2: int|
                            #![trigger post[i2].parent, post[p2]]
                            0 <= i2 < post.len() && 0 <= p2 < post.len() && post[i2].state
                                != NodeState::Destroyed && post[i2].parent == Some(
                                p2 as usize,
                            ) implies post[p2].state == NodeState::Active by {
                            assert(self.nodes.len() == self.nodes@.len());
                            assert(post.len() <= usize::MAX);
                            assert(((p2 as usize) as int) == p2);
                            assert((p as int) < cur as int);
                            assert(post[cur as int].state == NodeState::Destroyed);
                            assert(i2 != cur as int);
                            if i2 != p as int {
                                assert(post[i2] == pre[i2]);
                            }
                            assert(post[i2].parent == pre[i2].parent);
                            assert(post[i2].state == pre[i2].state);
                            assert(is_live_child(pre[i2], p2));
                            assert(p2 != cur as int);
                            assert(pre[p2].state == NodeState::Active);
                            assert(post[p2].state == pre[p2].state);
                        }
                        assert(log_wf(post, midlog)) by {
                            assert(forall|a: int| 0 <= a < prelog.len() ==> prelog[a]
                                == #[trigger] midlog[a]);
                        }
                        assert(release_from(pre, prelog, cur as int) == release_from(
                            post,
                            midlog,
                            p as int,
                        ));
                    }
                    cur = p;
                },
            }
        }
    }

}


/// The node with one outside handle and its reference removed.
pub open spec fn dec_handle(n: ContextNode) -> ContextNode {
    ContextNode {
        parent: n.parent,
        state: n.state,
        external_refs: (n.external_refs - 1) as usize,
        ref_count: (n.ref_count - 1) as usize,
    }
}

/// The node with one reference removed.
pub open spec fn dec_ref(n: ContextNode) -> ContextNode {
    ContextNode {
        parent: n.parent,
        state: n.state,
        external_refs: n.external_refs,
        ref_count: (n.ref_count - 1) as usize,
    }
}

/// The node once its native resource is released.
pub open spec fn node_destroyed(n: ContextNode) -> ContextNode {
    ContextNode {
        parent: n.parent,
        state: NodeState::Destroyed,
        external_refs: n.external_refs,
        ref_count: n.ref_count,
    }
}

/// The arena and log after slot `i` has lost one reference (the loss is
/// already reflected in `i`'s stored count): a live slot whose count
/// reached zero is destroyed — logged only if its resource had been
/// acquired — and its reference on its parent is removed in turn, which
/// can cascade up the chain.
pub open spec fn release_from(nodes: Seq<ContextNode>, log: Seq<usize>, i: int) -> (Seq<
    ContextNode,
>, Seq<usize>)
    decreases i,
{
    let n = nodes[i];
    if n.ref_count != 0 || n.state == NodeState::Destroyed {
        (nodes, log)
    } else {
        let nodes1 = nodes.update(i, node_destroyed(n));
        let log1 = if n.state == NodeState::Active {
            log.push(i as usize)
        } else {
            log
        };
        match n.parent {
            None => (nodes1, log1),
            Some(p) => {
                if 0 <= (p as int) < i && nodes1[p as int].ref_count > 0 {
                    release_from(
                        nodes1.update(p as int, dec_ref(nodes1[p as int])),
                        log1,
                        p as int,
                    )
                } else {
                    (nodes1, log1)
                }
            },
        }
    }
}

/// Teardown-ordering law: when both a context and its parent have had their
/// native resources released, the child's release stands strictly earlier in
/// the teardown log than the parent's — whatever order the outside holders
/// dropped their handles in.
pub proof fn lemma_teardown_child_before_parent(chain: ContextChain, a: int, b: int)
    requires
        chain.wf(),
        0 <= a < chain.teardown_log@.len(),
        0 <= b < chain.teardown_log@.len(),
        chain.nodes@[chain.teardown_log@[a] as int].parent == Some(chain.teardown_log@[b]),
    ensures
        a < b,
{
}

/// Lifetime law: while a context is not destroyed, its parent context is
/// still `Active`, so a resource never outlives the resource it was created
/// from.
pub proof fn lemma_live_parent_active(chain: ContextChain, i: int, p: usize)
    requires
        chain.wf(),
        0 <= i < chain.nodes@.len(),
        chain.nodes@[i].state != NodeState::Destroyed,
        chain.nodes@[i].parent == Some(p),
    ensures
        p < i,
        chain.nodes@[p as int].state == NodeState::Active,
{
    assert(chain.nodes@[p as int].ref_count >= 0);
}

/// The slot as reserved for a fresh context: one outside handle, no children.
pub open spec fn fresh_node(parent: Option<usize>) -> ContextNode {
    ContextNode { parent, state: NodeState::Uninitialized, external_refs: 1, ref_count: 1 }
}

/// The node with one more reference on it (a new child).
pub open spec fn bump_ref(n: ContextNode) -> ContextNode {
    ContextNode {
        parent: n.parent,
        state: n.state,
        external_refs: n.external_refs,
        ref_count: (n.ref_count + 1) as usize,
    }
}

/// The node with one more outside handle on it.
pub open spec fn bump_handle(n: ContextNode) -> ContextNode {
    ContextNode {
        parent: n.parent,
        state: n.state,
        external_refs: (n.external_refs + 1) as usize,
        ref_count: (n.ref_count + 1) as usize,
    }
}

/// The node once its native resource is acquired.
pub open spec fn activated(n: ContextNode) -> ContextNode {
    ContextNode {
        parent: n.parent,
        state: NodeState::Active,
        external_refs: n.external_refs,
        ref_count: n.ref_count,
    }
}

} // verus!
