use vstd::prelude::*;

verus! {

/// One surface of a client's hierarchy: its subsurfaces, by index into the
/// arena, and the frame-done callbacks queued on it, oldest first.
pub struct SurfaceNode {
    pub children: Vec<usize>,
    pub callbacks: Vec<u32>,
}

/// A frame-done notification: which callback fired, and with what
/// presentation timestamp.
#[derive(Clone, Copy, Debug, PartialEq, Eq, Structural)]
pub struct FrameDone {
    pub callback: u32,
    pub time: u32,
}

/// The surfaces of a client, addressed by index. A subsurface always sits at a
/// higher index than its parent, which rules out cycles.
pub struct SurfaceTree {
    pub nodes: Vec<SurfaceNode>,
}

pub struct NodeView {
    pub children: Seq<usize>,
    pub callbacks: Seq<u32>,
}

impl SurfaceNode {
    pub open spec fn view(&self) -> NodeView {
        NodeView { children: self.children@, callbacks: self.callbacks@ }
    }
}

/// Every child index lies past its parent and inside the arena.
pub open spec fn wf_nodes(nodes: Seq<NodeView>) -> bool {
    forall|i: int, k: int|
        0 <= i < nodes.len() && 0 <= k < nodes[i].children.len() ==> i
            < #[trigger] nodes[i].children[k] < nodes.len()
}

/// Pre-order, depth-first listing of the subtree rooted at `i`.
pub open spec fn preorder(nodes: Seq<NodeView>, i: int) -> Seq<int>
    decreases nodes.len() - i, nodes[i].children.len() + 1,
{
    if 0 <= i < nodes.len() {
        seq![i] + preorder_children(nodes, i, nodes[i].children.len() as int)
    } else {
        Seq::empty()
    }
}

/// Pre-order listings of the first `k` subtrees below `p`, one after the other.
pub open spec fn preorder_children(nodes: Seq<NodeView>, p: int, k: int) -> Seq<int>
    decreases nodes.len() - p, k,
{
    if 0 <= p < nodes.len() && 0 < k <= nodes[p].children.len() {
        let c = nodes[p].children[k - 1] as int;
        if p < c < nodes.len() {
            preorder_children(nodes, p, k - 1) + preorder(nodes, c)
        } else {
            preorder_children(nodes, p, k - 1)
        }
    } else {
        Seq::empty()
    }
}

/// The notifications that draining the nodes of `order`, in turn, emits.
pub open spec fn fired(nodes: Seq<NodeView>, order: Seq<int>, time: u32) -> Seq<FrameDone>
    decreases order.len(),
{
    if order.len() == 0 {
        Seq::empty()
    } else {
        let last = order.last();
        let before = fired(nodes, order.drop_last(), time);
        let queued = if order.drop_last().contains(last) {
            Seq::empty()
        } else {
            nodes[last].callbacks
        };
        before + queued.map_values(|c: u32| FrameDone { callback: c, time: time })
    }
}

/// The arena after draining the nodes of `order`: those nodes hold no callback,
/// everything else is as before.
pub open spec fn drained(nodes: Seq<NodeView>, order: Seq<int>) -> Seq<NodeView> {
    Seq::new(
        nodes.len(),
        |i: int|
            if order.contains(i) {
                NodeView { children: nodes[i].children, callbacks: Seq::empty() }
            } else {
                nodes[i]
            },
    )
}

/// Every index that a pre-order listing holds lies inside the arena.
pub proof fn lemma_preorder_in_range(nodes: Seq<NodeView>, i: int)
    ensures
        forall|t: int|
            0 <= t < preorder(nodes, i).len() ==> 0 <= #[trigger] preorder(nodes, i)[t]
                < nodes.len(),
    decreases nodes.len() - i, nodes[i].children.len() + 1,
{
    if 0 <= i < nodes.len() {
        let rest = preorder_children(nodes, i, nodes[i].children.len() as int);
        lemma_preorder_children_in_range(nodes, i, nodes[i].children.len() as int);
        assert forall|t: int| 0 <= t < preorder(nodes, i).len() implies 0 <= #[trigger] preorder(
            nodes,
            i,
        )[t] < nodes.len() by {
            if t > 0 {
                assert(preorder(nodes, i)[t] == rest[t - 1]);
            }
        }
    }
}

/// Every index that the listings of the subtrees below `p` hold lies inside
/// the arena.
pub proof fn lemma_preorder_children_in_range(nodes: Seq<NodeView>, p: int, k: int)
    ensures
        forall|t: int|
            0 <= t < preorder_children(nodes, p, k).len() ==> 0 <= #[trigger] preorder_children(
                nodes,
                p,
                k,
            )[t] < nodes.len(),
    decreases nodes.len() - p, k,
{
    if 0 <= p < nodes.len() && 0 < k <= nodes[p].children.len() {
        let c = nodes[p].children[k - 1] as int;
        let a = preorder_children(nodes, p, k - 1);
        lemma_preorder_children_in_range(nodes, p, k - 1);
        if p < c < nodes.len() {
            let b = preorder(nodes, c);
            lemma_preorder_in_range(nodes, c);
            assert forall|t: int|
                0 <= t < preorder_children(nodes, p, k).len() implies 0
                <= #[trigger] preorder_children(nodes, p, k)[t] < nodes.len() by {
                if t < a.len() {
                    assert(preorder_children(nodes, p, k)[t] == a[t]);
                } else {
                    assert(preorder_children(nodes, p, k)[t] == b[t - a.len()]);
                }
            }
        }
    }
}

/// Two arenas of one size with the same children everywhere list a subtree
/// alike, whatever their queues hold.
pub proof fn lemma_preorder_same_shape(a: Seq<NodeView>, b: Seq<NodeView>, i: int)
    requires
        a.len() == b.len(),
        forall|j: int| 0 <= j < a.len() ==> (#[trigger] a[j]).children == b[j].children,
    ensures
        preorder(a, i) == preorder(b, i),
    decreases a.len() - i, a[i].children.len() + 1,
{
    if 0 <= i < a.len() {
        lemma_preorder_children_same_shape(a, b, i, a[i].children.len() as int);
    }
}

/// The subtree listings below `p` agree between arenas of the same shape.
pub proof fn lemma_preorder_children_same_shape(a: Seq<NodeView>, b: Seq<NodeView>, p: int, k: int)
    requires
        a.len() == b.len(),
        forall|j: int| 0 <= j < a.len() ==> (#[trigger] a[j]).children == b[j].children,
    ensures
        preorder_children(a, p, k) == preorder_children(b, p, k),
    decreases a.len() - p, k,
{
    if 0 <= p < a.len() && 0 < k <= a[p].children.len() {
        assert(a[p].children == b[p].children);
        let c = a[p].children[k - 1] as int;
        lemma_preorder_children_same_shape(a, b, p, k - 1);
        if p < c < a.len() {
            lemma_preorder_same_shape(a, b, c);
        }
    }
}

/// Draining the nodes of `done` first leaves nothing to fire for any order
/// made of those nodes.
pub proof fn lemma_fired_after_drain(
    nodes: Seq<NodeView>,
    done: Seq<int>,
    order: Seq<int>,
    time: u32,
)
    requires
        forall|t: int| 0 <= t < order.len() ==> done.contains(#[trigger] order[t]),
        forall|t: int| 0 <= t < order.len() ==> 0 <= #[trigger] order[t] < nodes.len(),
    ensures
        fired(drained(nodes, done), order, time) == Seq::<FrameDone>::empty(),
    decreases order.len(),
{
    if order.len() > 0 {
        let last = order.last();
        assert(order[order.len() - 1] == last);
        lemma_fired_after_drain(nodes, done, order.drop_last(), time);
        let d = drained(nodes, done);
        assert(d[last].callbacks == Seq::<u32>::empty());
        assert(fired(d, order, time) =~= Seq::<FrameDone>::empty());
    }
}

/// Notifying a node whose queue is empty emits nothing and changes nothing.
pub proof fn lemma_notify_empty_node(nodes: Seq<NodeView>, i: int, time: u32)
    requires
        0 <= i < nodes.len(),
        nodes[i].callbacks.len() == 0,
    ensures
        fired(nodes, seq![i], time) == Seq::<FrameDone>::empty(),
        drained(nodes, seq![i]) == nodes,
{
    assert(seq![i].drop_last() =~= Seq::<int>::empty());
    assert(nodes[i].callbacks =~= Seq::<u32>::empty());
    assert(fired(nodes, seq![i].drop_last(), time) =~= Seq::<FrameDone>::empty());
    assert(nodes[i].callbacks.map_values(|c: u32| FrameDone { callback: c, time: time })
        =~= Seq::<FrameDone>::empty());
    assert(fired(nodes, seq![i], time) =~= Seq::<FrameDone>::empty());
    assert(drained(nodes, seq![i]) =~= nodes);
}

/// A callback fires once: notifying the same subtree again, with no new
/// commits in between, emits nothing, and every notification of one call
/// carries that call's timestamp.
pub proof fn lemma_notify_fires_once(nodes: Seq<NodeView>, root: int, t1: u32, t2: u32)
    requires
        wf_nodes(nodes),
        0 <= root < nodes.len(),
    ensures
        ({
            let order = preorder(nodes, root);
            let after = drained(nodes, order);
            &&& preorder(after, root) == order
            &&& fired(after, preorder(after, root), t2) == Seq::<FrameDone>::empty()
            &&& forall|t: int|
                0 <= t < fired(nodes, order, t1).len() ==> (#[trigger] fired(
                    nodes,
                    order,
                    t1,
                )[t]).time == t1
        }),
{
    let order = preorder(nodes, root);
    let after = drained(nodes, order);
    lemma_preorder_same_shape(after, nodes, root);
    lemma_preorder_in_range(nodes, root);
    lemma_fired_after_drain(nodes, order, order, t2);
    lemma_fired_time(nodes, order, t1);
}

/// Every notification in `fired` carries the timestamp given.
pub proof fn lemma_fired_time(nodes: Seq<NodeView>, order: Seq<int>, time: u32)
    ensures
        forall|t: int|
            0 <= t < fired(nodes, order, time).len() ==> (#[trigger] fired(nodes, order, time)[t]).time
                == time,
    decreases order.len(),
{
    if order.len() > 0 {
        lemma_fired_time(nodes, order.drop_last(), time);
        let before = fired(nodes, order.drop_last(), time);
        let last = order.last();
        let queued = if order.drop_last().contains(last) {
            Seq::empty()
        } else {
            nodes[last].callbacks
        };
        let added = queued.map_values(|c: u32| FrameDone { callback: c, time: time });
        assert forall|t: int| 0 <= t < fired(nodes, order, time).len() implies (#[trigger] fired(
            nodes,
            order,
            time,
        )[t]).time == time by {
            if t >= before.len() {
                assert(fired(nodes, order, time)[t] == added[t - before.len()]);
            }
        }
    }
}

impl SurfaceTree {
    pub open spec fn view(&self) -> Seq<NodeView> {
        self.nodes@.map_values(|n: SurfaceNode| n@)
    }

    pub open spec fn wf(&self) -> bool {
        wf_nodes(self@)
    }

    /// Lists the subtree rooted at `i` in pre-order, after what `out` holds.
    fn collect_preorder(&self, i: usize, out: &mut Vec<usize>)
        requires
            self.wf(),
            i < self.nodes.len(),
        ensures
            final(out)@.map_values(|x: usize| x as int) == old(out)@.map_values(
                |x: usize| x as int,
            ) + preorder(self@, i as int),
        decreases self.nodes.len() - i, 0int,
    {
        proof {
            assert(old(out)@.push(i).map_values(|x: usize| x as int) =~= old(out)@.map_values(
                |x: usize| x as int,
            ) + seq![i as int]);
        }
        out.push(i);
        let n = self.nodes[i].children.len();
        let mut k: usize = 0;
        while k < n
            invariant
                self.wf(),
                i < self.nodes.len(),
                n == self@[i as int].children.len(),
                k <= n,
                out@.map_values(|x: usize| x as int) == old(out)@.map_values(|x: usize| x as int)
                    + seq![i as int] + preorder_children(self@, i as int, k as int),
            decreases n - k,
        {
            let c = self.nodes[i].children[k];
            assert(self@[i as int].children[k as int] == c);
            self.collect_preorder(c, out);
            k = k + 1;
            proof {
                assert(preorder_children(self@, i as int, k as int) == preorder_children(
                    self@,
                    i as int,
                    k - 1,
                ) + preorder(self@, c as int));
            }
        }
        assert(preorder(self@, i as int) == seq![i as int] + preorder_children(
            self@,
            i as int,
            n as int,
        ));
    }

    /// Empties the callback queue of node `i` and reports each callback that
    /// was queued there, oldest first, with timestamp `time`.
    pub fn drain_node(&mut self, i: usize, time: u32, out: &mut Vec<FrameDone>)
        requires
            i < old(self).nodes.len(),
        ensures
            final(self)@ == old(self)@.update(
                i as int,
                NodeView { children: old(self)@[i as int].children, callbacks: Seq::empty() },
            ),
            final(out)@ == old(out)@ + old(self)@[i as int].callbacks.map_values(
                |c: u32| FrameDone { callback: c, time: time },
            ),
    {
        let mut node = SurfaceNode { children: Vec::new(), callbacks: Vec::new() };
        self.nodes.set_and_swap(i, &mut node);
        let ghost queued = node.callbacks@;
        let ghost start = out@;
        let n = node.callbacks.len();
        let mut k: usize = 0;
        while k < n
            invariant
                n == node.callbacks.len(),
                node.callbacks@ == queued,
                k <= n,
                out@ == start + queued.take(k as int).map_values(
                    |c: u32| FrameDone { callback: c, time: time },
                ),
            decreases n - k,
        {
            out.push(FrameDone { callback: node.callbacks[k], time: time });
            proof {
                assert(queued.take(k + 1) =~= queued.take(k as int).push(queued[k as int]));
            }
            k = k + 1;
            proof {
                assert(out@ =~= start + queued.take(k as int).map_values(
                    |c: u32| FrameDone { callback: c, time: time },
                ));
            }
        }
        assert(queued.take(n as int) =~= queued);
        node.callbacks = Vec::new();
        self.nodes.set_and_swap(i, &mut node);
        assert(self@ =~= old(self)@.update(
            i as int,
            NodeView { children: old(self)@[i as int].children, callbacks: Seq::empty() },
        ));
    }

    /// Fires the frame-done callbacks of the subtree rooted at `root`: visits
    /// the root and every subsurface below it in pre-order, depth first, and at
    /// each node dequeues all queued callbacks, oldest first, reporting each with
    /// timestamp `time`. Visited nodes are left with empty queues.
    pub fn send_frames_surface_tree(&mut self, root: usize, time: u32) -> (r: Vec<FrameDone>)
        requires
            old(self).wf(),
            root < old(self).nodes.len(),
        ensures
            r@ == fired(old(self)@, preorder(old(self)@, root as int), time),
            final(self)@ == drained(old(self)@, preorder(old(self)@, root as int)),
            final(self).wf(),
    {
        let mut order: Vec<usize> = Vec::new();
        self.collect_preorder(root, &mut order);
        let ghost nodes = self@;
        let ghost ord = order@.map_values(|x: usize| x as int);
        assert(order@.map_values(|x: usize| x as int) =~= ord);
        assert(ord =~= preorder(nodes, root as int));
        proof {
            lemma_preorder_in_range(nodes, root as int);
        }
        let mut out: Vec<FrameDone> = Vec::new();
        let mut j: usize = 0;
        assert(drained(nodes, ord.take(0)) =~= nodes);
        while j < order.len()
            invariant
                0 <= j <= order.len(),
                self.nodes.len() == nodes.len(),
                ord == order@.map_values(|x: usize| x as int),
                forall|t: int| 0 <= t < ord.len() ==> 0 <= #[trigger] ord[t] < nodes.len(),
                self@ == drained(nodes, ord.take(j as int)),
                out@ == fired(nodes, ord.take(j as int), time),
                wf_nodes(nodes),
            decreases order.len() - j,
        {
            let i = order[j];
            assert(ord[j as int] == i as int);
            let ghost prefix = ord.take(j as int);
            assert(ord.take(j + 1).drop_last() =~= prefix);
            assert(ord.take(j + 1).last() == i as int);
            self.drain_node(i, time, &mut out);
            j = j + 1;
            proof {
                assert(self@ =~= drained(nodes, ord.take(j as int)));
            }
        }
        assert(ord.take(order.len() as int) =~= ord);
        out
    }
}

} // verus!
