//! Traversal orders over a tree whose children are only known node by node.
//!
//! The children of a node are reported by the node itself, one node at a time, so each order
//! here is a state machine: the caller asks for the next node, looks up that node's children,
//! and hands them back. [`Traversal`] yields nodes depth-first from a stack (the order in which
//! a layout pass visits nodes) or breadth-first from a queue (the order in which a subtree is
//! removed). [`Walk`] yields matched enter and leave steps around each subtree.

use vstd::prelude::*;
use std::collections::VecDeque;
use crate::index::NodeIndex;

verus! {

/// Visits the nodes reachable from a start node, each as often as it is listed as a child.
///
/// Nodes waiting to be visited are kept in a stack (depth-first, last listed child first) or a
/// queue (breadth-first). Each visited node must be followed by a call to
/// [`Traversal::expand`] with its children.
pub struct Traversal {
    lifo: bool,
    start: NodeIndex,
    pending: VecDeque<NodeIndex>,
    order: Vec<NodeIndex>,
    /// For each visited node, the children it was expanded with.
    kids: Ghost<Seq<Seq<NodeIndex>>>,
    /// For each waiting node, where it was listed: the position in `order` of its parent (-1 for
    /// the start node) and its position among that parent's children.
    pending_src: Ghost<Seq<(int, int)>>,
    /// For each visited node, where it was listed, as in `pending_src`.
    order_src: Ghost<Seq<(int, int)>>,
}

impl Traversal {
    /// The node the traversal starts from.
    pub closed spec fn start(&self) -> NodeIndex {
        self.start
    }

    /// Whether waiting nodes are taken last-in first-out.
    pub closed spec fn is_lifo(&self) -> bool {
        self.lifo
    }

    /// The nodes visited so far, in order.
    pub closed spec fn visited(&self) -> Seq<NodeIndex> {
        self.order@
    }

    /// The nodes waiting to be visited, from front to back.
    pub closed spec fn waiting(&self) -> Seq<NodeIndex> {
        self.pending@
    }

    /// For each visited node, the children it was expanded with so far.
    pub closed spec fn expanded(&self) -> Seq<Seq<NodeIndex>> {
        self.kids@
    }

    /// The node visited at position `k` was listed among the children of a node visited
    /// earlier.
    pub open spec fn listed_by_earlier(&self, k: int) -> bool {
        exists|j: int| 0 <= j < k && #[trigger] self.expanded()[j].contains(self.visited()[k])
    }

    /// The node `c` was visited at some position after `j`.
    pub open spec fn visited_after(&self, j: int, c: NodeIndex) -> bool {
        exists|k: int| j < k < self.visited().len() && #[trigger] self.visited()[k] == c
    }

    /// The well-formedness of a traversal, which every traversal made by this API keeps.
    pub closed spec fn inv(&self) -> bool {
        let kids = self.kids@;
        let order = self.order@;
        let pending = self.pending@;
        let psrc = self.pending_src@;
        let osrc = self.order_src@;
        &&& kids.len() == order.len()
        &&& osrc.len() == order.len()
        &&& psrc.len() == pending.len()
        // Where each visited node was listed.
        &&& forall|k: int|
            0 <= k < order.len() ==> Self::listed_at(kids, order.len() as int, self.start, #[trigger] osrc[k], order[k], k)
        // Where each waiting node was listed.
        &&& forall|i: int|
            0 <= i < pending.len() ==> Self::listed_at(kids, order.len() as int, self.start, #[trigger] psrc[i], pending[i], order.len() as int)
        // Before the first visit, only the start node waits.
        &&& order.len() == 0 ==> pending.len() == 1 && psrc[0] == (-1int, 0int)
        // Each listing is used at most once.
        &&& forall|i: int, j: int| 0 <= i < j < pending.len() ==> #[trigger] psrc[i] != #[trigger] psrc[j]
        &&& forall|i: int, j: int| 0 <= i < j < order.len() ==> #[trigger] osrc[i] != #[trigger] osrc[j]
        &&& forall|i: int, j: int| 0 <= i < pending.len() && 0 <= j < order.len() ==> #[trigger] psrc[i] != #[trigger] osrc[j]
        // Every listed child is waiting or has been visited.
        &&& forall|j: int, m: int|
            0 <= j < kids.len() && 0 <= m < kids[j].len() ==> #[trigger] Self::accounted(psrc, osrc, (j, m))
        // The start node's own listing is accounted for too.
        &&& Self::accounted(psrc, osrc, (-1int, 0int))
    }

    /// The listing `src` names `node`, and its parent comes before position `before`.
    spec fn listed_at(
        kids: Seq<Seq<NodeIndex>>,
        visited: int,
        start: NodeIndex,
        src: (int, int),
        node: NodeIndex,
        before: int,
    ) -> bool {
        if src.0 == -1 {
            src.1 == 0 && node == start && before == 0
        } else {
            &&& 0 <= src.0 < before
            &&& src.0 < visited
            &&& 0 <= src.1 < kids[src.0].len()
            &&& kids[src.0][src.1] == node
        }
    }

    /// The listing `src` belongs to a waiting or a visited node.
    spec fn accounted(psrc: Seq<(int, int)>, osrc: Seq<(int, int)>, src: (int, int)) -> bool {
        psrc.contains(src) || osrc.contains(src)
    }

    /// Starts a traversal at `start`. With `lifo`, waiting nodes form a stack; otherwise a queue.
    pub fn new(start: NodeIndex, lifo: bool) -> (r: Traversal)
        ensures
            r.inv(),
            r.start() == start,
            r.is_lifo() == lifo,
            r.visited() == Seq::<NodeIndex>::empty(),
            r.waiting() == seq![start],
            r.expanded() == Seq::<Seq<NodeIndex>>::empty(),
    {
        let mut pending: VecDeque<NodeIndex> = VecDeque::new();
        pending.push_back(start);
        let r = Traversal {
            lifo,
            start,
            pending,
            order: Vec::new(),
            kids: Ghost(Seq::empty()),
            pending_src: Ghost(Seq::<(int, int)>::empty().push((-1int, 0int))),
            order_src: Ghost(Seq::empty()),
        };
        proof {
            assert(r.pending_src@[0] == (-1int, 0int));
            assert(r.pending_src@.contains((-1int, 0int)));
        }
        r
    }

    /// Takes the next waiting node, from the back of a stack or the front of a queue, and
    /// records it as visited; `None` when nothing waits.
    pub fn next(&mut self) -> (r: Option<NodeIndex>)
        requires
            old(self).inv(),
        ensures
            final(self).inv(),
            final(self).start() == old(self).start(),
            final(self).is_lifo() == old(self).is_lifo(),
            old(self).waiting().len() == 0 ==> {
                &&& r is None
                &&& final(self).visited() == old(self).visited()
                &&& final(self).waiting() == old(self).waiting()
                &&& final(self).expanded() == old(self).expanded()
            },
            old(self).waiting().len() > 0 ==> {
                &&& old(self).is_lifo() ==> {
                    &&& r == Some(old(self).waiting().last())
                    &&& final(self).waiting() == old(self).waiting().drop_last()
                }
                &&& !old(self).is_lifo() ==> {
                    &&& r == Some(old(self).waiting().first())
                    &&& final(self).waiting() == old(self).waiting().drop_first()
                }
                &&& final(self).visited() == old(self).visited().push(r.unwrap())
                &&& final(self).expanded() == old(self).expanded().push(Seq::empty())
            },
    {
        let ghost old_self = *self;
        let popped = if self.lifo {
            self.pending.pop_back()
        } else {
            self.pending.pop_front()
        };
        match popped {
            None => None,
            Some(v) => {
                let ghost p: int = if self.lifo { old_self.pending@.len() - 1 } else { 0 };
                let ghost src = old_self.pending_src@[p];
                self.order.push(v);
                proof {
                    self.kids@ = self.kids@.push(Seq::empty());
                    self.order_src@ = self.order_src@.push(src);
                    self.pending_src@ = old_self.pending_src@.remove(p);
                    assert(self.pending@ =~= old_self.pending@.remove(p));
                    Self::lemma_next_keeps_inv(old_self, *self, p);
                }
                Some(v)
            },
        }
    }

    proof fn lemma_next_keeps_inv(a: Traversal, b: Traversal, p: int)
        requires
            a.inv(),
            0 <= p < a.pending@.len(),
            b.start == a.start,
            b.lifo == a.lifo,
            b.kids@ == a.kids@.push(Seq::empty()),
            b.order@ == a.order@.push(a.pending@[p]),
            b.order_src@ == a.order_src@.push(a.pending_src@[p]),
            b.pending@ == a.pending@.remove(p),
            b.pending_src@ == a.pending_src@.remove(p),
        ensures
            b.inv(),
    {
        let n = a.order@.len() as int;
        assert forall|k: int| 0 <= k < b.order@.len() implies Self::listed_at(
            b.kids@, b.order@.len() as int, b.start, #[trigger] b.order_src@[k], b.order@[k], k) by {
            if k < n {
                assert(Self::listed_at(a.kids@, n, a.start, a.order_src@[k], a.order@[k], k));
            } else {
                assert(Self::listed_at(a.kids@, n, a.start, a.pending_src@[p], a.pending@[p], n));
            }
        }
        assert forall|i: int| 0 <= i < b.pending@.len() implies Self::listed_at(
            b.kids@, b.order@.len() as int, b.start, #[trigger] b.pending_src@[i], b.pending@[i],
            b.order@.len() as int) by {
            let ai = if i < p { i } else { i + 1 };
            assert(b.pending_src@[i] == a.pending_src@[ai]);
            assert(Self::listed_at(a.kids@, n, a.start, a.pending_src@[ai], a.pending@[ai], n));
            if a.pending_src@[ai].0 == -1 {
                assert(a.pending@.len() == 1);
            }
        }
        assert forall|i: int, j: int| 0 <= i < j < b.pending@.len() implies #[trigger] b.pending_src@[i]
            != #[trigger] b.pending_src@[j] by {
            let ai = if i < p { i } else { i + 1 };
            let aj = if j < p { j } else { j + 1 };
            assert(b.pending_src@[i] == a.pending_src@[ai]);
            assert(b.pending_src@[j] == a.pending_src@[aj]);
        }
        assert forall|i: int, j: int| 0 <= i < j < b.order@.len() implies #[trigger] b.order_src@[i]
            != #[trigger] b.order_src@[j] by {
            if j == n {
                assert(a.pending_src@[p] != a.order_src@[i]);
            }
        }
        assert forall|i: int, j: int| 0 <= i < b.pending@.len() && 0 <= j < b.order@.len() implies
            #[trigger] b.pending_src@[i] != #[trigger] b.order_src@[j] by {
            let ai = if i < p { i } else { i + 1 };
            assert(b.pending_src@[i] == a.pending_src@[ai]);
        }
        assert forall|src: (int, int)| #[trigger] Self::accounted(a.pending_src@, a.order_src@, src)
            implies Self::accounted(b.pending_src@, b.order_src@, src) by {
            if a.order_src@.contains(src) {
                let k = choose|k: int| 0 <= k < a.order_src@.len() && a.order_src@[k] == src;
                assert(b.order_src@[k] == src);
            } else {
                let i = choose|i: int| 0 <= i < a.pending_src@.len() && a.pending_src@[i] == src;
                if i == p {
                    assert(b.order_src@[n] == src);
                } else if i < p {
                    assert(b.pending_src@[i] == src);
                } else {
                    assert(b.pending_src@[i - 1] == src);
                }
            }
        }
        assert forall|j: int, m: int|
            0 <= j < b.kids@.len() && 0 <= m < b.kids@[j].len() implies #[trigger] Self::accounted(
            b.pending_src@, b.order_src@, (j, m)) by {
            assert(j < n);
            assert(Self::accounted(a.pending_src@, a.order_src@, (j, m)));
        }
        assert(Self::accounted(a.pending_src@, a.order_src@, (-1int, 0int)));
    }

    /// Lists the children of the node visited last; they wait behind the nodes already
    /// waiting. Before any node has been visited, this does nothing.
    pub fn expand(&mut self, children: Vec<NodeIndex>)
        requires
            old(self).inv(),
        ensures
            final(self).inv(),
            final(self).start() == old(self).start(),
            final(self).is_lifo() == old(self).is_lifo(),
            final(self).visited() == old(self).visited(),
            old(self).visited().len() == 0 ==> {
                &&& final(self).waiting() == old(self).waiting()
                &&& final(self).expanded() == old(self).expanded()
            },
            old(self).visited().len() > 0 ==> {
                let last = old(self).visited().len() - 1;
                &&& final(self).waiting() == old(self).waiting() + children@
                &&& final(self).expanded() == old(self).expanded().update(
                    last,
                    old(self).expanded()[last] + children@,
                )
            },
    {
        if self.order.len() == 0 {
            return;
        }
        let ghost old_self = *self;
        let n = children.len();
        let mut i: usize = 0;
        while i < n
            invariant
                n == children@.len(),
                i <= n,
                self.pending@ == old_self.pending@ + children@.take(i as int),
                self.start == old_self.start,
                self.lifo == old_self.lifo,
                self.order@ == old_self.order@,
                self.kids@ == old_self.kids@,
                self.order_src@ == old_self.order_src@,
                old_self.order@.len() > 0,
            decreases n - i,
        {
            self.pending.push_back(children[i]);
            i = i + 1;
            assert(self.pending@ =~= old_self.pending@ + children@.take(i as int));
        }
        proof {
            assert(children@.take(n as int) =~= children@);
            let last = old_self.order@.len() - 1;
            let base = old_self.kids@[last].len() as int;
            self.kids@ = old_self.kids@.update(last, old_self.kids@[last] + children@);
            self.pending_src@ = old_self.pending_src@ + Seq::new(
                children@.len(),
                |t: int| (last, base + t),
            );
            Self::lemma_expand_keeps_inv(old_self, *self, children@);
        }
    }

    proof fn lemma_expand_keeps_inv(a: Traversal, b: Traversal, ch: Seq<NodeIndex>)
        requires
            a.inv(),
            a.order@.len() > 0,
            b.start == a.start,
            b.lifo == a.lifo,
            b.order@ == a.order@,
            b.order_src@ == a.order_src@,
            b.pending@ == a.pending@ + ch,
            b.kids@ == a.kids@.update(a.order@.len() - 1, a.kids@[a.order@.len() - 1] + ch),
            b.pending_src@ == a.pending_src@ + Seq::new(
                ch.len(),
                |t: int| (a.order@.len() - 1, a.kids@[a.order@.len() - 1].len() + t),
            ),
        ensures
            b.inv(),
    {
        let n = a.order@.len() as int;
        let last = n - 1;
        let base = a.kids@[last].len() as int;
        let pl = a.pending@.len() as int;
        let extra = Seq::new(ch.len(), |t: int| (last, base + t));
        assert forall|j: int, m: int| 0 <= j < a.kids@.len() && 0 <= m < a.kids@[j].len() implies
            #[trigger] b.kids@[j][m] == a.kids@[j][m] && m < b.kids@[j].len() by {
            if j == last {
                assert(b.kids@[j] == a.kids@[last] + ch);
            }
        }
        assert forall|k: int| 0 <= k < b.order@.len() implies Self::listed_at(
            b.kids@, n, b.start, #[trigger] b.order_src@[k], b.order@[k], k) by {
            assert(Self::listed_at(a.kids@, n, a.start, a.order_src@[k], a.order@[k], k));
            let src = a.order_src@[k];
            if src.0 != -1 {
                assert(b.kids@[src.0][src.1] == a.kids@[src.0][src.1]);
            }
        }
        assert forall|i: int| 0 <= i < b.pending@.len() implies Self::listed_at(
            b.kids@, n, b.start, #[trigger] b.pending_src@[i], b.pending@[i], n) by {
            if i < pl {
                assert(b.pending_src@[i] == a.pending_src@[i]);
                assert(b.pending@[i] == a.pending@[i]);
                assert(Self::listed_at(a.kids@, n, a.start, a.pending_src@[i], a.pending@[i], n));
                let src = a.pending_src@[i];
                if src.0 != -1 {
                    assert(b.kids@[src.0][src.1] == a.kids@[src.0][src.1]);
                }
            } else {
                let t = i - pl;
                assert(b.pending_src@[i] == extra[t]);
                assert(b.pending@[i] == ch[t]);
                assert(b.kids@[last] == a.kids@[last] + ch);
                assert(b.kids@[last][base + t] == ch[t]);
            }
        }
        assert forall|i: int, j: int| 0 <= i < j < b.pending@.len() implies #[trigger] b.pending_src@[i]
            != #[trigger] b.pending_src@[j] by {
            if j >= pl {
                assert(b.pending_src@[j] == extra[j - pl]);
                if i >= pl {
                    assert(b.pending_src@[i] == extra[i - pl]);
                } else {
                    assert(b.pending_src@[i] == a.pending_src@[i]);
                    assert(Self::listed_at(a.kids@, n, a.start, a.pending_src@[i], a.pending@[i], n));
                }
            } else {
                assert(b.pending_src@[i] == a.pending_src@[i]);
                assert(b.pending_src@[j] == a.pending_src@[j]);
            }
        }
        assert forall|i: int, j: int| 0 <= i < b.pending@.len() && 0 <= j < b.order@.len() implies
            #[trigger] b.pending_src@[i] != #[trigger] b.order_src@[j] by {
            if i >= pl {
                assert(b.pending_src@[i] == extra[i - pl]);
                assert(Self::listed_at(a.kids@, n, a.start, a.order_src@[j], a.order@[j], j));
            } else {
                assert(b.pending_src@[i] == a.pending_src@[i]);
            }
        }
        assert forall|src: (int, int)| #[trigger] Self::accounted(a.pending_src@, a.order_src@, src)
            implies Self::accounted(b.pending_src@, b.order_src@, src) by {
            if a.pending_src@.contains(src) {
                let i = choose|i: int| 0 <= i < a.pending_src@.len() && a.pending_src@[i] == src;
                assert(b.pending_src@[i] == src);
            }
        }
        assert forall|j: int, m: int|
            0 <= j < b.kids@.len() && 0 <= m < b.kids@[j].len() implies #[trigger] Self::accounted(
            b.pending_src@, b.order_src@, (j, m)) by {
            if j == last && m >= base {
                assert(b.pending_src@[pl + (m - base)] == extra[m - base]);
                assert(b.pending_src@[pl + (m - base)] == (j, m));
            } else {
                assert(Self::accounted(a.pending_src@, a.order_src@, (j, m)));
            }
        }
        assert(Self::accounted(a.pending_src@, a.order_src@, (-1int, 0int)));
    }

    /// Returns `true` when no node waits, so that the traversal is complete.
    pub fn is_done(&self) -> (r: bool)
        ensures
            r == (self.waiting().len() == 0),
    {
        self.pending.len() == 0
    }

    /// The nodes visited so far, in order.
    pub fn visited_nodes(&self) -> (r: &Vec<NodeIndex>)
        ensures
            r@ == self.visited(),
    {
        &self.order
    }

    /// Ends the traversal, giving the nodes visited, in order.
    pub fn into_visited(self) -> (r: Vec<NodeIndex>)
        ensures
            r@ == self.visited(),
    {
        self.order
    }
}

/// A traversal visits its start node first.
pub proof fn lemma_start_visited_first(t: &Traversal)
    requires
        t.inv(),
        t.visited().len() > 0,
    ensures
        t.visited()[0] == t.start(),
{
    assert(Traversal::listed_at(
        t.kids@,
        t.order@.len() as int,
        t.start,
        t.order_src@[0],
        t.order@[0],
        0,
    ));
}

/// Every visited node other than the first was listed as a child of a node visited before it:
/// parents are visited before their children, so that in reverse order every node comes after
/// its children.
pub proof fn lemma_parent_visited_first(t: &Traversal)
    requires
        t.inv(),
    ensures
        forall|k: int| 0 < k < t.visited().len() ==> #[trigger] t.listed_by_earlier(k),
{
    assert forall|k: int| 0 < k < t.visited().len() implies #[trigger] t.listed_by_earlier(k) by {
        let src = t.order_src@[k];
        assert(Traversal::listed_at(
            t.kids@,
            t.order@.len() as int,
            t.start,
            src,
            t.order@[k],
            k,
        ));
        assert(t.kids@[src.0][src.1] == t.order@[k]);
        assert(t.expanded()[src.0].contains(t.visited()[k]));
    }
}

/// Once nothing waits, every child listed for a visited node has itself been visited, after
/// that node.
pub proof fn lemma_children_visited(t: &Traversal)
    requires
        t.inv(),
        t.waiting().len() == 0,
    ensures
        forall|j: int, m: int|
            0 <= j < t.visited().len() && 0 <= m < t.expanded()[j].len() ==> #[trigger] t.visited_after(
                j,
                t.expanded()[j][m],
            ),
{
    assert forall|j: int, m: int|
        0 <= j < t.visited().len() && 0 <= m < t.expanded()[j].len() implies #[trigger] t.visited_after(
        j,
        t.expanded()[j][m],
    ) by {
        assert(Traversal::accounted(t.pending_src@, t.order_src@, (j, m)));
        let k = choose|k: int| 0 <= k < t.order_src@.len() && t.order_src@[k] == (j, m);
        assert(Traversal::listed_at(
            t.kids@,
            t.order@.len() as int,
            t.start,
            t.order_src@[k],
            t.order@[k],
            k,
        ));
        assert(t.visited()[k] == t.expanded()[j][m]);
    }
}

/// One step of a walk: a node is entered before its subtree is walked and left after.
#[derive(Copy, Clone, Debug, PartialEq, Eq, Structural)]
pub enum WalkStep {
    /// The walk enters a node; its children are walked next.
    Enter(NodeIndex),
    /// The walk leaves a node, after all its children.
    Leave(NodeIndex),
}

/// The nodes entered and not yet left after the steps `trace`, innermost last; `None` when a
/// step leaves a node other than the innermost open one.
pub open spec fn open_after(trace: Seq<WalkStep>) -> Option<Seq<NodeIndex>>
    decreases trace.len(),
{
    if trace.len() == 0 {
        Some(Seq::empty())
    } else {
        match open_after(trace.drop_last()) {
            None => None,
            Some(open) => match trace.last() {
                WalkStep::Enter(x) => Some(open.push(x)),
                WalkStep::Leave(x) => if open.len() > 0 && open.last() == x {
                    Some(open.drop_last())
                } else {
                    None
                },
            },
        }
    }
}

/// Every step that leaves a node leaves the innermost open one, and every node entered has
/// been left.
pub open spec fn balanced(trace: Seq<WalkStep>) -> bool {
    open_after(trace) == Some(Seq::<NodeIndex>::empty())
}

/// The open node at position `k` is the child of the one below it that was entered last.
pub open spec fn linked(open: Seq<OpenNode>, k: int) -> bool {
    &&& open[k - 1].next >= 1
    &&& open[k].node == open[k - 1].children[open[k - 1].next - 1]
}

struct Frame {
    node: NodeIndex,
    children: Vec<NodeIndex>,
    next: usize,
}

/// A node being walked: the node, its children, and how many of them have been entered.
pub struct OpenNode {
    /// The node.
    pub node: NodeIndex,
    /// Its children, in the order they are walked.
    pub children: Seq<NodeIndex>,
    /// How many of its children have been entered.
    pub next: int,
}

spec fn frame_view(f: Frame) -> OpenNode {
    OpenNode { node: f.node, children: f.children@, next: f.next as int }
}

/// Walks a subtree: each node is entered, then its children are walked in order, then it is
/// left. After each step that enters a node, its children must be given with
/// [`Walk::set_children`]; a node whose children are not given is walked as a leaf.
pub struct Walk {
    start: NodeIndex,
    started: bool,
    frames: Vec<Frame>,
    trace: Ghost<Seq<WalkStep>>,
}

impl Walk {
    /// The node the walk starts from.
    pub closed spec fn start(&self) -> NodeIndex {
        self.start
    }

    /// The steps taken so far.
    pub closed spec fn trace(&self) -> Seq<WalkStep> {
        self.trace@
    }

    /// The nodes entered and not yet left, outermost first.
    pub closed spec fn open(&self) -> Seq<OpenNode> {
        self.frames@.map_values(|f: Frame| frame_view(f))
    }

    /// Whether the walk has taken its first step.
    pub closed spec fn has_started(&self) -> bool {
        self.started
    }

    /// The walk has entered and left its start node, and takes no more steps.
    pub open spec fn finished(&self) -> bool {
        self.has_started() && self.open().len() == 0
    }

    /// The well-formedness of a walk, which every walk made by this API keeps.
    pub open spec fn inv(&self) -> bool {
        let open = self.open();
        let trace = self.trace();
        &&& !self.has_started() ==> open.len() == 0 && trace.len() == 0
        &&& self.has_started() ==> trace.len() > 0 && trace[0] == WalkStep::Enter(self.start())
        &&& self.has_started() && open.len() > 0 ==> open[0].node == self.start()
        &&& self.has_started() && open.len() == 0 ==> trace.last() == WalkStep::Leave(self.start())
        &&& open_after(trace) == Some(open.map_values(|o: OpenNode| o.node))
        &&& forall|k: int| 0 <= k < open.len() ==> 0 <= #[trigger] open[k].next <= open[k].children.len()
        &&& forall|k: int| 0 < k < open.len() ==> #[trigger] linked(open, k)
    }

    /// Starts a walk at `start`; its first step enters `start`.
    pub fn new(start: NodeIndex) -> (r: Walk)
        ensures
            r.inv(),
            r.start() == start,
            !r.has_started(),
    {
        let r = Walk { start, started: false, frames: Vec::new(), trace: Ghost(Seq::empty()) };
        assert(r.open() =~= Seq::<OpenNode>::empty());
        assert(r.open().map_values(|o: OpenNode| o.node) =~= Seq::<NodeIndex>::empty());
        r
    }

    /// Takes the next step: enters the start node first; then, while the innermost open node
    /// has a child not yet entered, enters that child; otherwise leaves the innermost open node.
    /// Once the start node has been left, there are no more steps.
    pub fn step(&mut self) -> (r: Option<WalkStep>)
        requires
            old(self).inv(),
        ensures
            final(self).inv(),
            final(self).start() == old(self).start(),
            !old(self).has_started() ==> {
                &&& r == Some(WalkStep::Enter(old(self).start()))
                &&& final(self).open() == seq![
                    OpenNode { node: old(self).start(), children: Seq::empty(), next: 0 },
                ]
            },
            old(self).finished() ==> {
                &&& r is None
                &&& final(self).trace() == old(self).trace()
                &&& final(self).open() == old(self).open()
            },
            old(self).has_started() && old(self).open().len() > 0 ==> {
                let top = old(self).open().last();
                let last = old(self).open().len() - 1;
                &&& top.next < top.children.len() ==> {
                    &&& r == Some(WalkStep::Enter(top.children[top.next]))
                    &&& final(self).open() == old(self).open().update(
                        last,
                        OpenNode { next: top.next + 1, ..top },
                    ).push(OpenNode { node: top.children[top.next], children: Seq::empty(), next: 0 })
                }
                &&& top.next >= top.children.len() ==> {
                    &&& r == Some(WalkStep::Leave(top.node))
                    &&& final(self).open() == old(self).open().drop_last()
                }
            },
            r is Some ==> final(self).trace() == old(self).trace().push(r.unwrap()),
            final(self).has_started(),
    {
        let ghost old_self = *self;
        assert(old_self.inv());
        if !self.started {
            self.started = true;
            self.frames.push(Frame { node: self.start, children: Vec::new(), next: 0 });
            let ghost s = WalkStep::Enter(self.start);
            proof {
                self.trace@ = self.trace@.push(s);
                assert(self.trace@.drop_last() =~= Seq::<WalkStep>::empty());
                assert(self.open() =~= seq![
                    OpenNode { node: self.start, children: Seq::empty(), next: 0 },
                ]);
                assert(self.open().map_values(|o: OpenNode| o.node) =~= seq![self.start]);
                assert(Seq::<NodeIndex>::empty().push(self.start) =~= seq![self.start]);
                assert(open_after(self.trace@.drop_last()) == Some(Seq::<NodeIndex>::empty()));
                assert(open_after(self.trace@) == Some(seq![self.start]));
                assert(self.trace@[0] == s);
            }
            return Some(WalkStep::Enter(self.start));
        }
        if self.frames.len() == 0 {
            return None;
        }
        let mut top = self.frames.pop().unwrap();
        proof {
            assert(self.frames@ =~= old_self.frames@.drop_last());
        }
        if top.next < top.children.len() {
            let c = top.children[top.next];
            top.next = top.next + 1;
            self.frames.push(top);
            self.frames.push(Frame { node: c, children: Vec::new(), next: 0 });
            proof {
                let s = WalkStep::Enter(c);
                let old_trace = self.trace@;
                self.trace@ = self.trace@.push(s);
                assert(self.trace@.drop_last() =~= old_trace);
                let last = old_self.open().len() - 1;
                let otop = old_self.open().last();
                assert(self.open() =~= old_self.open().update(last, OpenNode { next: otop.next + 1, ..otop }).push(
                    OpenNode { node: c, children: Seq::empty(), next: 0 },
                ));
                assert(self.open().map_values(|o: OpenNode| o.node) =~= old_self.open().map_values(
                    |o: OpenNode| o.node,
                ).push(c));
                assert forall|k: int| 0 < k < self.open().len() implies #[trigger] linked(self.open(), k) by {
                    if k < last {
                        assert(self.open()[k] == old_self.open()[k]);
                        assert(self.open()[k - 1] == old_self.open()[k - 1]);
                        assert(linked(old_self.open(), k));
                    } else if k == last {
                        assert(self.open()[k].node == old_self.open()[k].node);
                        assert(self.open()[k - 1] == old_self.open()[k - 1]);
                        assert(linked(old_self.open(), k));
                    } else {
                        assert(self.open()[k - 1] == OpenNode { next: otop.next + 1, ..otop });
                        assert(self.open()[k].node == c);
                    }
                }
            }
            Some(WalkStep::Enter(c))
        } else {
            let x = top.node;
            proof {
                let s = WalkStep::Leave(x);
                let old_trace = self.trace@;
                self.trace@ = self.trace@.push(s);
                assert(self.trace@.drop_last() =~= old_trace);
                assert(self.open() =~= old_self.open().drop_last());
                assert(self.open().map_values(|o: OpenNode| o.node) =~= old_self.open().map_values(
                    |o: OpenNode| o.node,
                ).drop_last());
                assert forall|k: int| 0 < k < self.open().len() implies #[trigger] linked(self.open(), k) by {
                    assert(0 < k < old_self.open().len());
                    assert(self.open()[k] == old_self.open()[k]);
                    assert(self.open()[k - 1] == old_self.open()[k - 1]);
                    assert(linked(old_self.open(), k));
                }
            }
            Some(WalkStep::Leave(x))
        }
    }

    /// Gives the children of the innermost open node, the one entered last; they are walked
    /// next, in order. With no open node, this does nothing.
    pub fn set_children(&mut self, children: Vec<NodeIndex>)
        requires
            old(self).inv(),
        ensures
            final(self).inv(),
            final(self).start() == old(self).start(),
            final(self).trace() == old(self).trace(),
            final(self).has_started() == old(self).has_started(),
            old(self).open().len() == 0 ==> final(self).open() == old(self).open(),
            old(self).open().len() > 0 ==> final(self).open() == old(self).open().update(
                old(self).open().len() - 1,
                OpenNode { node: old(self).open().last().node, children: children@, next: 0 },
            ),
    {
        let ghost old_self = *self;
        if self.frames.len() == 0 {
            return;
        }
        let top = self.frames.pop().unwrap();
        self.frames.push(Frame { node: top.node, children, next: 0 });
        proof {
            let last = old_self.open().len() - 1;
            assert(self.open() =~= old_self.open().update(
                last,
                OpenNode { node: old_self.open().last().node, children: children@, next: 0 },
            ));
            assert(self.open().map_values(|o: OpenNode| o.node) =~= old_self.open().map_values(
                |o: OpenNode| o.node,
            ));
            assert forall|k: int| 0 < k < self.open().len() implies #[trigger] linked(self.open(), k) by {
                assert(linked(old_self.open(), k));
                assert(self.open()[k - 1] == old_self.open()[k - 1]);
            }
        }
    }
}

/// The number of steps in `trace` that enter a node.
pub open spec fn count_enters(trace: Seq<WalkStep>) -> nat
    decreases trace.len(),
{
    if trace.len() == 0 {
        0
    } else {
        count_enters(trace.drop_last()) + if trace.last() is Enter {
            1nat
        } else {
            0nat
        }
    }
}

/// The number of steps in `trace` that leave a node.
pub open spec fn count_leaves(trace: Seq<WalkStep>) -> nat
    decreases trace.len(),
{
    if trace.len() == 0 {
        0
    } else {
        count_leaves(trace.drop_last()) + if trace.last() is Leave {
            1nat
        } else {
            0nat
        }
    }
}

/// Along well-nested steps, the nodes entered outnumber those left by the nodes still open.
pub proof fn lemma_open_counts(trace: Seq<WalkStep>)
    requires
        open_after(trace) is Some,
    ensures
        count_enters(trace) == count_leaves(trace) + open_after(trace).unwrap().len(),
    decreases trace.len(),
{
    if trace.len() > 0 {
        lemma_open_counts(trace.drop_last());
    }
}

/// A finished walk entered its start node first and left it last, and its steps are balanced:
/// every step that leaves a node leaves the one entered most recently among those still open,
/// and every node entered has been left, so there are as many enter steps as leave steps.
pub proof fn lemma_finished_walk_balanced(w: &Walk)
    requires
        w.inv(),
        w.finished(),
    ensures
        balanced(w.trace()),
        w.trace()[0] == WalkStep::Enter(w.start()),
        w.trace().last() == WalkStep::Leave(w.start()),
        count_enters(w.trace()) == count_leaves(w.trace()),
{
    assert(w.open().map_values(|o: OpenNode| o.node) =~= Seq::<NodeIndex>::empty());
    lemma_open_counts(w.trace());
}

} // verus!
