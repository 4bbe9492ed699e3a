//! Behavior-tree engine over a shared key/value blackboard.
//!
//! A tree is built from five node kinds: a leaf ([`BaseNode`]) and four
//! composites that run their children in order — [`Sequence`] (all must
//! succeed), [`Selector`] (first success wins) and their stateful variants,
//! which resume from the child they stopped at instead of restarting.
//! [`BtNode`] closes the five kinds into one child type so that trees nest.
//!
//! Every node operation is specified against a mathematical tree model
//! ([`NodeV`]): [`tick_v`] is the exact state machine of one tick —
//! initialize when not running, run the update, store the returned status,
//! terminate when not running — and the executable methods are proved to
//! implement it.

use vstd::prelude::*;

verus! {

/// A value stored on the blackboard under a string key.
#[derive(Debug)]
pub enum BlackboardValue {
    /// An integer value.
    Int(i64),
    /// A text value.
    Text(String),
    /// A boolean flag.
    Flag(bool),
}

/// Mathematical content of one blackboard value.
pub enum BbValueView {
    /// An integer value.
    Int(int),
    /// A text value.
    Text(Seq<char>),
    /// A boolean flag.
    Flag(bool),
}

impl View for BlackboardValue {
    type V = BbValueView;

    closed spec fn view(&self) -> BbValueView {
        match self {
            BlackboardValue::Int(i) => BbValueView::Int(*i as int),
            BlackboardValue::Text(s) => BbValueView::Text(s@),
            BlackboardValue::Flag(b) => BbValueView::Flag(*b),
        }
    }
}

impl Clone for BlackboardValue {
    /// Clones the value; the clone has the same mathematical content.
    fn clone(&self) -> (r: Self)
        ensures
            r@ == self@,
    {
        match self {
            BlackboardValue::Int(i) => BlackboardValue::Int(*i),
            BlackboardValue::Text(s) => BlackboardValue::Text(s.clone()),
            BlackboardValue::Flag(b) => BlackboardValue::Flag(*b),
        }
    }
}

/// The map held by a sequence of blackboard entries: later entries would
/// shadow earlier ones, though a well-formed blackboard keeps its keys
/// unique.
pub open spec fn entries_map(entries: Seq<(String, BlackboardValue)>) -> Map<
    Seq<char>,
    BbValueView,
>
    decreases entries.len(),
{
    if entries.len() == 0 {
        Map::empty()
    } else {
        entries_map(entries.drop_last()).insert(entries.last().0@, entries.last().1@)
    }
}

/// Shared key/value blackboard the nodes of one tree read and write.
///
/// Its mathematical content is a map from key to value; the entries are
/// kept with unique keys, and inserting an existing key replaces its value.
#[derive(Debug)]
pub struct BlackboardPtr {
    entries: Vec<(String, BlackboardValue)>,
}

impl View for BlackboardPtr {
    type V = Map<Seq<char>, BbValueView>;

    closed spec fn view(&self) -> Map<Seq<char>, BbValueView> {
        entries_map(self.entries@)
    }
}

impl BlackboardPtr {
    /// Well-formedness: no key occurs twice.
    pub closed spec fn wf(&self) -> bool {
        forall|i: int, j: int|
            0 <= i < j < self.entries@.len() ==> self.entries@[i].0@ != self.entries@[j].0@
    }

    /// An empty blackboard.
    pub fn new() -> (r: Self)
        ensures
            r.wf(),
            r@ == Map::<Seq<char>, BbValueView>::empty(),
    {
        BlackboardPtr { entries: Vec::new() }
    }

    /// Looks a key up, returning a reference to its value if the key is
    /// bound.
    pub fn get(&self, key: &str) -> (r: Option<&BlackboardValue>)
        requires
            self.wf(),
        ensures
            match r {
                Some(v) => self@.contains_key(key@) && v@ == self@[key@],
                None => !self@.contains_key(key@),
            },
    {
        let owned: String = key.to_owned();
        let n: usize = self.entries.len();
        let mut i: usize = 0;
        while i < n
            invariant
                self.wf(),
                n == self.entries@.len(),
                i <= n,
                owned@ == key@,
                forall|j: int| 0 <= j < i ==> self.entries@[j].0@ != key@,
            decreases n - i,
        {
            if self.entries[i].0 == owned {
                proof {
                    lemma_entries_map_found(self.entries@, i as int);
                }
                return Some(&self.entries[i].1);
            }
            i = i + 1;
        }
        proof {
            lemma_entries_map_missing(self.entries@, key@);
        }
        None
    }

    /// Binds `key` to `value`, replacing any earlier binding of the same
    /// key.
    pub fn insert(&mut self, key: String, value: BlackboardValue)
        requires
            old(self).wf(),
        ensures
            final(self).wf(),
            final(self)@ == old(self)@.insert(key@, value@),
    {
        let n: usize = self.entries.len();
        let mut i: usize = 0;
        while i < n
            invariant
                self.wf(),
                self.entries@ == old(self).entries@,
                n == self.entries@.len(),
                i <= n,
                forall|j: int| 0 <= j < i ==> self.entries@[j].0@ != key@,
            decreases n - i,
        {
            if self.entries[i].0 == key {
                proof {
                    lemma_entries_map_update(self.entries@, i as int, (key, value));
                }
                self.entries.set(i, (key, value));
                return ;
            }
            i = i + 1;
        }
        proof {
            lemma_entries_map_missing(self.entries@, key@);
            assert(self.entries@.push((key, value)).drop_last() =~= self.entries@);
        }
        self.entries.push((key, value));
    }

    /// Copies the blackboard; the copy has the same mathematical content.
    pub fn duplicate(&self) -> (r: Self)
        ensures
            r@ == self@,
            self.wf() ==> r.wf(),
    {
        let n: usize = self.entries.len();
        let mut entries: Vec<(String, BlackboardValue)> = Vec::new();
        let mut i: usize = 0;
        while i < n
            invariant
                n == self.entries@.len(),
                i <= n,
                entries@.len() == i,
                forall|j: int|
                    0 <= j < i ==> (#[trigger] entries@[j]).0@ == self.entries@[j].0@
                        && entries@[j].1@ == self.entries@[j].1@,
            decreases n - i,
        {
            let k: String = self.entries[i].0.clone();
            let v: BlackboardValue = self.entries[i].1.clone();
            entries.push((k, v));
            i = i + 1;
        }
        let r = BlackboardPtr { entries };
        proof {
            lemma_entries_map_congruent(r.entries@, self.entries@);
            if self.wf() {
                assert forall|p: int, q: int|
                    0 <= p < q < r.entries@.len() implies r.entries@[p].0@
                    != r.entries@[q].0@ by {
                    assert(r.entries@[p].0@ == self.entries@[p].0@);
                    assert(r.entries@[q].0@ == self.entries@[q].0@);
                }
            }
        }
        r
    }
}

impl Clone for BlackboardPtr {
    /// Clones the blackboard; the clone has the same mathematical content.
    fn clone(&self) -> (r: Self)
        ensures
            r@ == self@,
            self.wf() ==> r.wf(),
    {
        self.duplicate()
    }
}

/// With unique keys, the map binds the key of entry `i` to that entry's
/// value.
proof fn lemma_entries_map_found(entries: Seq<(String, BlackboardValue)>, i: int)
    requires
        0 <= i < entries.len(),
        forall|p: int, q: int| 0 <= p < q < entries.len() ==> entries[p].0@ != entries[q].0@,
    ensures
        entries_map(entries).contains_key(entries[i].0@),
        entries_map(entries)[entries[i].0@] == entries[i].1@,
    decreases entries.len(),
{
    if i < entries.len() - 1 {
        lemma_entries_map_found(entries.drop_last(), i);
    }
}

/// A key bound by no entry is absent from the map.
proof fn lemma_entries_map_missing(entries: Seq<(String, BlackboardValue)>, key: Seq<char>)
    requires
        forall|j: int| 0 <= j < entries.len() ==> entries[j].0@ != key,
    ensures
        !entries_map(entries).contains_key(key),
    decreases entries.len(),
{
    if entries.len() > 0 {
        lemma_entries_map_missing(entries.drop_last(), key);
    }
}

/// Replacing entry `i` by a new entry with the same key updates exactly
/// that key's binding.
proof fn lemma_entries_map_update(
    entries: Seq<(String, BlackboardValue)>,
    i: int,
    e: (String, BlackboardValue),
)
    requires
        0 <= i < entries.len(),
        forall|p: int, q: int| 0 <= p < q < entries.len() ==> entries[p].0@ != entries[q].0@,
        e.0@ == entries[i].0@,
    ensures
        entries_map(entries.update(i, e)) == entries_map(entries).insert(e.0@, e.1@),
    decreases entries.len(),
{
    let upd = entries.update(i, e);
    if i == entries.len() - 1 {
        assert(upd.drop_last() =~= entries.drop_last());
        assert(entries_map(entries.update(i, e)) =~= entries_map(entries).insert(e.0@, e.1@));
    } else {
        assert(upd.drop_last() =~= entries.drop_last().update(i, e));
        lemma_entries_map_update(entries.drop_last(), i, e);
        assert(upd.last() == entries.last());
        assert(entries_map(upd) =~= entries_map(entries).insert(e.0@, e.1@));
    }
}

/// Two entry sequences whose keys and values agree index by index hold the
/// same map.
proof fn lemma_entries_map_congruent(
    a: Seq<(String, BlackboardValue)>,
    b: Seq<(String, BlackboardValue)>,
)
    requires
        a.len() == b.len(),
        forall|j: int| 0 <= j < a.len() ==> (#[trigger] a[j]).0@ == b[j].0@ && a[j].1@ == b[j].1@,
    ensures
        entries_map(a) == entries_map(b),
    decreases a.len(),
{
    if a.len() > 0 {
        lemma_entries_map_congruent(a.drop_last(), b.drop_last());
        assert(entries_map(a) =~= entries_map(b));
    }
}

} // verus!

verus! {

/// Execution status of a node.
#[derive(Debug, Clone, Copy, PartialEq, Eq, Structural)]
pub enum Status {
    /// Not ticked yet (or reset).
    Invalid,
    /// The node's work completed successfully.
    Success,
    /// The node's work failed.
    Failure,
    /// The node needs further ticks to finish.
    Running,
}

/// Mathematical state of a leaf node.
pub struct BaseV {
    /// Last status stored by a tick (or `Invalid`).
    pub status: Status,
    /// The node's blackboard, if one was attached.
    pub blackboard: Option<Map<Seq<char>, BbValueView>>,
}

/// Mathematical state of a composite node.
pub struct CompositeV {
    /// Last status stored by a tick (or `Invalid`).
    pub status: Status,
    /// The node's blackboard, if one was attached.
    pub blackboard: Option<Map<Seq<char>, BbValueView>>,
    /// The children, in execution order.
    pub children: Seq<NodeV>,
    /// Index of the child the next update resumes at.
    pub current: int,
}

/// Mathematical state of one tree node.
pub enum NodeV {
    /// A leaf.
    Base(BaseV),
    /// Runs children in order until one fails or runs; succeeds when all
    /// succeed. Restarts from the first child on a fresh tick.
    Sequence(CompositeV),
    /// Tries children in order until one succeeds or runs; fails when all
    /// fail. Restarts from the first child on a fresh tick.
    Selector(CompositeV),
    /// A sequence that resumes from the child it stopped at and rewinds
    /// only after running all children to the end.
    StatefulSequence(CompositeV),
    /// A selector that resumes from the child it stopped at and rewinds
    /// only after running all children to the end.
    StatefulSelector(CompositeV),
}

/// The status a node last stored.
pub open spec fn status_of(n: NodeV) -> Status {
    match n {
        NodeV::Base(b) => b.status,
        NodeV::Sequence(c) => c.status,
        NodeV::Selector(c) => c.status,
        NodeV::StatefulSequence(c) => c.status,
        NodeV::StatefulSelector(c) => c.status,
    }
}

/// The node's blackboard, if any.
pub open spec fn bb_of(n: NodeV) -> Option<Map<Seq<char>, BbValueView>> {
    match n {
        NodeV::Base(b) => b.blackboard,
        NodeV::Sequence(c) => c.blackboard,
        NodeV::Selector(c) => c.blackboard,
        NodeV::StatefulSequence(c) => c.blackboard,
        NodeV::StatefulSelector(c) => c.blackboard,
    }
}

/// The child index a composite resumes at (leaves have none and yield `0`).
pub open spec fn current_of(n: NodeV) -> int {
    match n {
        NodeV::Base(b) => 0,
        NodeV::Sequence(c) => c.current,
        NodeV::Selector(c) => c.current,
        NodeV::StatefulSequence(c) => c.current,
        NodeV::StatefulSelector(c) => c.current,
    }
}

/// The node's children (empty for leaves).
pub open spec fn children_of(n: NodeV) -> Seq<NodeV> {
    match n {
        NodeV::Base(b) => Seq::empty(),
        NodeV::Sequence(c) => c.children,
        NodeV::Selector(c) => c.children,
        NodeV::StatefulSequence(c) => c.children,
        NodeV::StatefulSelector(c) => c.children,
    }
}

/// The same node with `s` as its stored status.
pub open spec fn with_status(n: NodeV, s: Status) -> NodeV {
    match n {
        NodeV::Base(b) => NodeV::Base(BaseV { status: s, ..b }),
        NodeV::Sequence(c) => NodeV::Sequence(CompositeV { status: s, ..c }),
        NodeV::Selector(c) => NodeV::Selector(CompositeV { status: s, ..c }),
        NodeV::StatefulSequence(c) => NodeV::StatefulSequence(CompositeV { status: s, ..c }),
        NodeV::StatefulSelector(c) => NodeV::StatefulSelector(CompositeV { status: s, ..c }),
    }
}

/// The same node with its children replaced.
pub open spec fn with_children(n: NodeV, ch: Seq<NodeV>) -> NodeV {
    match n {
        NodeV::Base(b) => NodeV::Base(b),
        NodeV::Sequence(c) => NodeV::Sequence(CompositeV { children: ch, ..c }),
        NodeV::Selector(c) => NodeV::Selector(CompositeV { children: ch, ..c }),
        NodeV::StatefulSequence(c) => NodeV::StatefulSequence(CompositeV { children: ch, ..c }),
        NodeV::StatefulSelector(c) => NodeV::StatefulSelector(CompositeV { children: ch, ..c }),
    }
}

/// Effect of `initialize` on a node: plain sequences and selectors rewind
/// to their first child; the stateful variants and leaves keep their state.
pub open spec fn init_v(n: NodeV) -> NodeV {
    match n {
        NodeV::Base(b) => NodeV::Base(b),
        NodeV::Sequence(c) => NodeV::Sequence(CompositeV { current: 0, ..c }),
        NodeV::Selector(c) => NodeV::Selector(CompositeV { current: 0, ..c }),
        NodeV::StatefulSequence(c) => NodeV::StatefulSequence(c),
        NodeV::StatefulSelector(c) => NodeV::StatefulSelector(c),
    }
}

/// Effect of `terminate` on a node: none of the node kinds here does
/// teardown work.
pub open spec fn term_v(n: NodeV) -> NodeV {
    n
}

/// One pass of a composite's update loop over `s`, starting at child
/// `cur`: tick the child there; on `Running` stop and report `Running`; on
/// `a` move to the next child; on any other status stop and report it; past
/// the last child report `e`. Returns the children after the pass, the
/// index the pass stopped at, and the reported status.
pub open spec fn run_children_v(s: Seq<NodeV>, cur: int, a: Status, e: Status) -> (
    Seq<NodeV>,
    int,
    Status,
)
    decreases s, 1int, s.len() - cur,
{
    if cur < 0 || cur >= s.len() {
        (s, cur, e)
    } else {
        let (c2, st) = tick_v(s[cur]);
        if st == Status::Running {
            (s.update(cur, c2), cur, st)
        } else if st == a {
            let (rest, rcur, rst) = run_children_v(s, cur + 1, a, e);
            (rest.update(cur, c2), rcur, rst)
        } else {
            (s.update(cur, c2), cur, st)
        }
    }
}

/// Effect of `update` on a node resuming at child `cur`, and the status it
/// returns: leaves succeed immediately; composites run their update loop
/// and store where it stopped, the stateful ones rewinding to the first
/// child when the loop ran past the end. `update` itself does not store
/// the returned status — `tick` does.
pub open spec fn update_core(n: NodeV, cur: int) -> (NodeV, Status)
    decreases n, 2int, 0int,
{
    match n {
        NodeV::Base(b) => (NodeV::Base(b), Status::Success),
        NodeV::Sequence(c) => {
            let (ch, rcur, st) = run_children_v(c.children, cur, Status::Success, Status::Success);
            (NodeV::Sequence(CompositeV { children: ch, current: rcur, ..c }), st)
        },
        NodeV::Selector(c) => {
            let (ch, rcur, st) = run_children_v(c.children, cur, Status::Failure, Status::Failure);
            (NodeV::Selector(CompositeV { children: ch, current: rcur, ..c }), st)
        },
        NodeV::StatefulSequence(c) => {
            let (ch, rcur, st) = run_children_v(c.children, cur, Status::Success, Status::Success);
            let cur2 = if st == Status::Success {
                0int
            } else {
                rcur
            };
            (NodeV::StatefulSequence(CompositeV { children: ch, current: cur2, ..c }), st)
        },
        NodeV::StatefulSelector(c) => {
            let (ch, rcur, st) = run_children_v(c.children, cur, Status::Failure, Status::Failure);
            let cur2 = if st == Status::Failure {
                0int
            } else {
                rcur
            };
            (NodeV::StatefulSelector(CompositeV { children: ch, current: cur2, ..c }), st)
        },
    }
}

/// Effect of `update` on a node, resuming at its stored child index.
pub open spec fn update_node_v(n: NodeV) -> (NodeV, Status) {
    update_core(n, current_of(n))
}

/// The exact state machine of one tick: initialize when the stored status
/// is not `Running`, run the update from the (possibly re-initialized)
/// child index, store the returned status, and terminate when that status
/// is not `Running`.
pub open spec fn tick_v(n: NodeV) -> (NodeV, Status)
    decreases n, 3int, 0int,
{
    let cur0 = if status_of(n) != Status::Running {
        current_of(init_v(n))
    } else {
        current_of(n)
    };
    let (n1, st) = update_core(n, cur0);
    let n2 = with_status(n1, st);
    let n3 = if st != Status::Running {
        term_v(n2)
    } else {
        n2
    };
    (n3, st)
}

/// `update` reads a node's child index only through its explicit cursor
/// argument, so re-initializing the index beforehand changes nothing else
/// it looks at.
pub proof fn lemma_update_core_ignores_current(n: NodeV, cur: int)
    ensures
        update_core(init_v(n), cur) == update_core(n, cur),
{
}

} // verus!

verus! {

/// A reusable leaf node: succeeds on every update and stores its status
/// and an optional blackboard.
#[derive(Debug)]
pub struct BaseNode {
    status: Status,
    blackboard: Option<BlackboardPtr>,
}

/// Runs its children in order, restarting from the first child on a fresh
/// tick: fails as soon as one child fails, succeeds when all succeed.
#[derive(Debug)]
pub struct Sequence {
    base: BaseNode,
    children: Vec<BtNode>,
    current: usize,
}

/// Tries its children in order, restarting from the first child on a fresh
/// tick: succeeds as soon as one child succeeds, fails when all fail.
#[derive(Debug)]
pub struct Selector {
    base: BaseNode,
    children: Vec<BtNode>,
    current: usize,
}

/// A sequence that remembers which child it stopped at and resumes there on
/// the next tick, rewinding only after running past its last child.
#[derive(Debug)]
pub struct StatefulSequence {
    base: BaseNode,
    children: Vec<BtNode>,
    current: usize,
}

/// A selector that remembers which child it stopped at and resumes there on
/// the next tick, rewinding only after running past its last child.
#[derive(Debug)]
pub struct StatefulSelector {
    base: BaseNode,
    children: Vec<BtNode>,
    current: usize,
}

/// One tree node of any kind: the child type of every composite, closing
/// the five node kinds into arbitrarily nested trees.
#[derive(Debug)]
pub enum BtNode {
    /// A leaf.
    Base(BaseNode),
    /// A sequence.
    Sequence(Sequence),
    /// A selector.
    Selector(Selector),
    /// A stateful sequence.
    StatefulSequence(StatefulSequence),
    /// A stateful selector.
    StatefulSelector(StatefulSelector),
}

/// The mathematical content of an optional blackboard.
pub open spec fn bb_view(b: Option<BlackboardPtr>) -> Option<Map<Seq<char>, BbValueView>> {
    match b {
        Some(p) => Some(p@),
        None => None,
    }
}

/// The mathematical state of a leaf.
pub closed spec fn base_v(b: BaseNode) -> BaseV {
    BaseV { status: b.status, blackboard: bb_view(b.blackboard) }
}

/// The mathematical state of a sequence.
pub closed spec fn sequence_v(s: Sequence) -> CompositeV
    decreases s,
{
    CompositeV {
        status: s.base.status,
        blackboard: bb_view(s.base.blackboard),
        children: nodes_view(s.children@),
        current: s.current as int,
    }
}

/// The mathematical state of a selector.
pub closed spec fn selector_v(s: Selector) -> CompositeV
    decreases s,
{
    CompositeV {
        status: s.base.status,
        blackboard: bb_view(s.base.blackboard),
        children: nodes_view(s.children@),
        current: s.current as int,
    }
}

/// The mathematical state of a stateful sequence.
pub closed spec fn stateful_sequence_v(s: StatefulSequence) -> CompositeV
    decreases s,
{
    CompositeV {
        status: s.base.status,
        blackboard: bb_view(s.base.blackboard),
        children: nodes_view(s.children@),
        current: s.current as int,
    }
}

/// The mathematical state of a stateful selector.
pub closed spec fn stateful_selector_v(s: StatefulSelector) -> CompositeV
    decreases s,
{
    CompositeV {
        status: s.base.status,
        blackboard: bb_view(s.base.blackboard),
        children: nodes_view(s.children@),
        current: s.current as int,
    }
}

/// The mathematical state of a node of any kind.
pub closed spec fn node_v(n: BtNode) -> NodeV
    decreases n,
{
    match n {
        BtNode::Base(b) => NodeV::Base(base_v(b)),
        BtNode::Sequence(s) => NodeV::Sequence(sequence_v(s)),
        BtNode::Selector(s) => NodeV::Selector(selector_v(s)),
        BtNode::StatefulSequence(s) => NodeV::StatefulSequence(stateful_sequence_v(s)),
        BtNode::StatefulSelector(s) => NodeV::StatefulSelector(stateful_selector_v(s)),
    }
}

/// The mathematical states of a child list, in order.
pub closed spec fn nodes_view(s: Seq<BtNode>) -> Seq<NodeV>
    decreases s,
{
    if s.len() == 0 {
        Seq::empty()
    } else {
        nodes_view(s.drop_last()).push(node_v(s.last()))
    }
}

/// A child list's view has one entry per child: that child's view.
pub proof fn lemma_nodes_view(s: Seq<BtNode>)
    ensures
        nodes_view(s).len() == s.len(),
        forall|i: int| 0 <= i < s.len() ==> nodes_view(s)[i] == node_v(#[trigger] s[i]),
    decreases s.len(),
{
    if s.len() > 0 {
        lemma_nodes_view(s.drop_last());
        assert forall|i: int| 0 <= i < s.len() implies nodes_view(s)[i] == node_v(
            #[trigger] s[i],
        ) by {
            if i < s.len() - 1 {
                assert(nodes_view(s.drop_last())[i] == node_v(s.drop_last()[i]));
                assert(s.drop_last()[i] == s[i]);
            }
        }
    }
}

impl View for BaseNode {
    type V = BaseV;

    closed spec fn view(&self) -> BaseV {
        base_v(*self)
    }
}

impl View for Sequence {
    type V = CompositeV;

    closed spec fn view(&self) -> CompositeV {
        sequence_v(*self)
    }
}

impl View for Selector {
    type V = CompositeV;

    closed spec fn view(&self) -> CompositeV {
        selector_v(*self)
    }
}

impl View for StatefulSequence {
    type V = CompositeV;

    closed spec fn view(&self) -> CompositeV {
        stateful_sequence_v(*self)
    }
}

impl View for StatefulSelector {
    type V = CompositeV;

    closed spec fn view(&self) -> CompositeV {
        stateful_selector_v(*self)
    }
}

impl View for BtNode {
    type V = NodeV;

    closed spec fn view(&self) -> NodeV {
        node_v(*self)
    }
}

/// Effect of attaching blackboard `bb` to a node: the node and every node
/// below it hold `bb` afterwards; nothing else changes.
pub open spec fn set_bb_v(n: NodeV, bb: Map<Seq<char>, BbValueView>) -> NodeV
    decreases n,
{
    match n {
        NodeV::Base(b) => NodeV::Base(BaseV { blackboard: Some(bb), ..b }),
        NodeV::Sequence(c) => NodeV::Sequence(
            CompositeV { blackboard: Some(bb), children: set_bb_children_v(c.children, bb), ..c },
        ),
        NodeV::Selector(c) => NodeV::Selector(
            CompositeV { blackboard: Some(bb), children: set_bb_children_v(c.children, bb), ..c },
        ),
        NodeV::StatefulSequence(c) => NodeV::StatefulSequence(
            CompositeV { blackboard: Some(bb), children: set_bb_children_v(c.children, bb), ..c },
        ),
        NodeV::StatefulSelector(c) => NodeV::StatefulSelector(
            CompositeV { blackboard: Some(bb), children: set_bb_children_v(c.children, bb), ..c },
        ),
    }
}

/// Effect of attaching blackboard `bb` to every node of a child list.
pub open spec fn set_bb_children_v(s: Seq<NodeV>, bb: Map<Seq<char>, BbValueView>) -> Seq<NodeV>
    decreases s,
{
    if s.len() == 0 {
        Seq::empty()
    } else {
        set_bb_children_v(s.drop_last(), bb).push(set_bb_v(s.last(), bb))
    }
}

/// Attaching a blackboard to a child list works child by child.
pub proof fn lemma_set_bb_children_v(s: Seq<NodeV>, bb: Map<Seq<char>, BbValueView>)
    ensures
        set_bb_children_v(s, bb).len() == s.len(),
        forall|i: int| 0 <= i < s.len() ==> set_bb_children_v(s, bb)[i] == set_bb_v(#[trigger] s[i], bb),
    decreases s.len(),
{
    if s.len() > 0 {
        lemma_set_bb_children_v(s.drop_last(), bb);
        assert forall|i: int| 0 <= i < s.len() implies set_bb_children_v(s, bb)[i] == set_bb_v(
            #[trigger] s[i],
            bb,
        ) by {
            if i < s.len() - 1 {
                assert(set_bb_children_v(s.drop_last(), bb)[i] == set_bb_v(s.drop_last()[i], bb));
                assert(s.drop_last()[i] == s[i]);
            }
        }
    }
}

/// A pass of the update loop keeps the number of children.
pub proof fn lemma_run_len(s: Seq<NodeV>, cur: int, a: Status, e: Status)
    ensures
        run_children_v(s, cur, a, e).0.len() == s.len(),
    decreases s.len() - cur,
{
    if 0 <= cur < s.len() {
        let (c2, st) = tick_v(s[cur]);
        if st != Status::Running && st == a {
            lemma_run_len(s, cur + 1, a, e);
        }
    }
}

/// A pass of the update loop never reads the children before its starting
/// index, so replacing one of them only carries that replacement through
/// into the result.
pub proof fn lemma_run_prefix(s: Seq<NodeV>, i: int, x: NodeV, cur: int, a: Status, e: Status)
    requires
        0 <= i < cur,
        i < s.len(),
    ensures
        ({
            let (r0, r1, r2) = run_children_v(s, cur, a, e);
            run_children_v(s.update(i, x), cur, a, e) == (r0.update(i, x), r1, r2)
        }),
    decreases s.len() - cur,
{
    let su = s.update(i, x);
    if cur < s.len() {
        assert(su[cur] == s[cur]);
        let (c2, st) = tick_v(s[cur]);
        if st == Status::Running {
            assert(su.update(cur, c2) =~= s.update(cur, c2).update(i, x));
        } else if st == a {
            lemma_run_prefix(s, i, x, cur + 1, a, e);
            lemma_run_len(s, cur + 1, a, e);
            let (r0, r1, r2) = run_children_v(s, cur + 1, a, e);
            assert(r0.update(i, x).update(cur, c2) =~= r0.update(cur, c2).update(i, x));
        } else {
            assert(su.update(cur, c2) =~= s.update(cur, c2).update(i, x));
        }
    }
}

} // verus!

verus! {

/// One pass of a composite's update loop, on the real children: implements
/// [`run_children_v`] exactly. `advance_on` is the child status the pass
/// moves past, `exhausted` what it reports after the last child.
#[verifier::loop_isolation(false)]
fn run_children(nodes: Vec<BtNode>, start: usize, advance_on: Status, exhausted: Status) -> (r: (
    Vec<BtNode>,
    usize,
    Status,
))
    requires
        exhausted != Status::Invalid,
    ensures
        ({
            let (sv, cv, stv) = run_children_v(
                nodes_view(nodes@),
                start as int,
                advance_on,
                exhausted,
            );
            nodes_view(r.0@) == sv && r.1 as int == cv && r.2 == stv
        }),
        r.2 != Status::Invalid,
    decreases nodes,
{
    let ghost entry = nodes;
    let mut children = nodes;
    let mut current: usize = start;
    proof {
        lemma_nodes_view(children@);
    }
    while current < children.len()
        invariant
            exhausted != Status::Invalid,
            children@.len() == entry@.len(),
            forall|j: int| current <= j < entry@.len() ==> children@[j] == entry@[j],
            run_children_v(nodes_view(children@), current as int, advance_on, exhausted)
                == run_children_v(nodes_view(entry@), start as int, advance_on, exhausted),
        decreases children@.len() - current,
    {
        let ghost pre = children@;
        let child: BtNode = children.remove(current);
        proof {
            lemma_nodes_view(pre);
            assert(child == pre[current as int]);
            assert(child == entry@[current as int]);
            assert(decreases_to!(entry => entry@));
            assert(decreases_to!(entry@ => entry@[current as int]));
            assert(decreases_to!(entry => child));
        }
        let (child2, st) = tick_node(child);
        children.insert(current, child2);
        proof {
            assert(children@ =~= pre.update(current as int, child2));
            lemma_nodes_view(children@);
            assert forall|j: int| 0 <= j < pre.len() implies nodes_view(children@)[j]
                == nodes_view(pre).update(current as int, node_v(child2))[j] by {
                assert(nodes_view(children@)[j] == node_v(children@[j]));
                assert(nodes_view(pre)[j] == node_v(pre[j]));
            }
            assert(nodes_view(children@) =~= nodes_view(pre).update(
                current as int,
                node_v(child2),
            ));
            assert(nodes_view(pre)[current as int] == node_v(child));
        }
        if st == Status::Running {
            proof {
                assert((nodes_view(children@), current as int, st) == run_children_v(
                    nodes_view(pre),
                    current as int,
                    advance_on,
                    exhausted,
                ));
            }
            return (children, current, st);
        } else if st == advance_on {
            proof {
                lemma_run_prefix(
                    nodes_view(pre),
                    current as int,
                    node_v(child2),
                    current as int + 1,
                    advance_on,
                    exhausted,
                );
            }
            current = current + 1;
        } else {
            proof {
                assert((nodes_view(children@), current as int, st) == run_children_v(
                    nodes_view(pre),
                    current as int,
                    advance_on,
                    exhausted,
                ));
            }
            return (children, current, st);
        }
    }
    proof {
        lemma_nodes_view(children@);
    }
    (children, current, exhausted)
}

/// One full tick of a node, by value: implements [`tick_v`] exactly. The
/// returned status is never `Invalid`.
fn tick_node(n: BtNode) -> (r: (BtNode, Status))
    ensures
        (node_v(r.0), r.1) == tick_v(node_v(n)),
        r.1 != Status::Invalid,
    decreases n,
{
    let ghost n0 = n;
    match n {
        BtNode::Base(mut b) => {
            b.status = Status::Success;
            (BtNode::Base(b), Status::Success)
        },
        BtNode::Sequence(mut s) => {
            let ghost s0 = s;
            proof {
                assert(decreases_to!(n0 => n0->Sequence_0));
                assert(decreases_to!(s0 => s0.children));
            }
            if s.base.status != Status::Running {
                s.current = 0;
            }
            let mut children: Vec<BtNode> = Vec::new();
            core::mem::swap(&mut s.children, &mut children);
            let (children2, cur2, st) = run_children(
                children,
                s.current,
                Status::Success,
                Status::Success,
            );
            s.children = children2;
            s.current = cur2;
            s.base.status = st;
            (BtNode::Sequence(s), st)
        },
        BtNode::Selector(mut s) => {
            let ghost s0 = s;
            proof {
                assert(decreases_to!(n0 => n0->Selector_0));
                assert(decreases_to!(s0 => s0.children));
            }
            if s.base.status != Status::Running {
                s.current = 0;
            }
            let mut children: Vec<BtNode> = Vec::new();
            core::mem::swap(&mut s.children, &mut children);
            let (children2, cur2, st) = run_children(
                children,
                s.current,
                Status::Failure,
                Status::Failure,
            );
            s.children = children2;
            s.current = cur2;
            s.base.status = st;
            (BtNode::Selector(s), st)
        },
        BtNode::StatefulSequence(mut s) => {
            let ghost s0 = s;
            proof {
                assert(decreases_to!(n0 => n0->StatefulSequence_0));
                assert(decreases_to!(s0 => s0.children));
            }
            let mut children: Vec<BtNode> = Vec::new();
            core::mem::swap(&mut s.children, &mut children);
            let (children2, cur2, st) = run_children(
                children,
                s.current,
                Status::Success,
                Status::Success,
            );
            s.children = children2;
            s.current = if st == Status::Success {
                0
            } else {
                cur2
            };
            s.base.status = st;
            (BtNode::StatefulSequence(s), st)
        },
        BtNode::StatefulSelector(mut s) => {
            let ghost s0 = s;
            proof {
                assert(decreases_to!(n0 => n0->StatefulSelector_0));
                assert(decreases_to!(s0 => s0.children));
            }
            let mut children: Vec<BtNode> = Vec::new();
            core::mem::swap(&mut s.children, &mut children);
            let (children2, cur2, st) = run_children(
                children,
                s.current,
                Status::Failure,
                Status::Failure,
            );
            s.children = children2;
            s.current = if st == Status::Failure {
                0
            } else {
                cur2
            };
            s.base.status = st;
            (BtNode::StatefulSelector(s), st)
        },
    }
}

} // verus!

verus! {

/// Attaches a blackboard to every node of a child list, by value:
/// implements [`set_bb_children_v`] exactly.
#[verifier::loop_isolation(false)]
fn set_bb_children(nodes: Vec<BtNode>, bb: &BlackboardPtr) -> (r: Vec<BtNode>)
    ensures
        nodes_view(r@) == set_bb_children_v(nodes_view(nodes@), bb@),
    decreases nodes,
{
    let ghost entry = nodes;
    let mut children = nodes;
    let mut i: usize = 0;
    while i < children.len()
        invariant
            children@.len() == entry@.len(),
            i <= children@.len(),
            forall|j: int| i <= j < entry@.len() ==> children@[j] == entry@[j],
            forall|j: int|
                0 <= j < i ==> node_v(#[trigger] children@[j]) == set_bb_v(
                    node_v(entry@[j]),
                    bb@,
                ),
        decreases children@.len() - i,
    {
        let ghost pre = children@;
        let child: BtNode = children.remove(i);
        proof {
            assert(child == entry@[i as int]);
            assert(decreases_to!(entry => entry@));
            assert(decreases_to!(entry@ => entry@[i as int]));
            assert(decreases_to!(entry => child));
        }
        let child2: BtNode = set_bb_node(child, bb);
        children.insert(i, child2);
        proof {
            assert(children@ =~= pre.update(i as int, child2));
        }
        i = i + 1;
    }
    proof {
        lemma_nodes_view(children@);
        lemma_nodes_view(entry@);
        lemma_set_bb_children_v(nodes_view(entry@), bb@);
        assert forall|j: int| 0 <= j < entry@.len() implies nodes_view(children@)[j]
            == set_bb_children_v(nodes_view(entry@), bb@)[j] by {
            assert(nodes_view(children@)[j] == node_v(children@[j]));
            assert(nodes_view(entry@)[j] == node_v(entry@[j]));
        }
        assert(nodes_view(children@) =~= set_bb_children_v(nodes_view(entry@), bb@));
    }
    children
}

/// Attaches a blackboard to a node and everything below it, by value:
/// implements [`set_bb_v`] exactly.
fn set_bb_node(n: BtNode, bb: &BlackboardPtr) -> (r: BtNode)
    ensures
        node_v(r) == set_bb_v(node_v(n), bb@),
    decreases n,
{
    let ghost n0 = n;
    match n {
        BtNode::Base(mut b) => {
            b.blackboard = Some(bb.clone());
            BtNode::Base(b)
        },
        BtNode::Sequence(mut s) => {
            let ghost s0 = s;
            proof {
                assert(decreases_to!(n0 => n0->Sequence_0));
                assert(decreases_to!(s0 => s0.children));
            }
            s.base.blackboard = Some(bb.clone());
            let mut children: Vec<BtNode> = Vec::new();
            core::mem::swap(&mut s.children, &mut children);
            s.children = set_bb_children(children, bb);
            BtNode::Sequence(s)
        },
        BtNode::Selector(mut s) => {
            let ghost s0 = s;
            proof {
                assert(decreases_to!(n0 => n0->Selector_0));
                assert(decreases_to!(s0 => s0.children));
            }
            s.base.blackboard = Some(bb.clone());
            let mut children: Vec<BtNode> = Vec::new();
            core::mem::swap(&mut s.children, &mut children);
            s.children = set_bb_children(children, bb);
            BtNode::Selector(s)
        },
        BtNode::StatefulSequence(mut s) => {
            let ghost s0 = s;
            proof {
                assert(decreases_to!(n0 => n0->StatefulSequence_0));
                assert(decreases_to!(s0 => s0.children));
            }
            s.base.blackboard = Some(bb.clone());
            let mut children: Vec<BtNode> = Vec::new();
            core::mem::swap(&mut s.children, &mut children);
            s.children = set_bb_children(children, bb);
            BtNode::StatefulSequence(s)
        },
        BtNode::StatefulSelector(mut s) => {
            let ghost s0 = s;
            proof {
                assert(decreases_to!(n0 => n0->StatefulSelector_0));
                assert(decreases_to!(s0 => s0.children));
            }
            s.base.blackboard = Some(bb.clone());
            let mut children: Vec<BtNode> = Vec::new();
            core::mem::swap(&mut s.children, &mut children);
            s.children = set_bb_children(children, bb);
            BtNode::StatefulSelector(s)
        },
    }
}

/// One update of a node, by value, resuming at its stored child index:
/// implements [`update_node_v`] exactly. The returned status is never
/// `Invalid`.
fn update_node(n: BtNode) -> (r: (BtNode, Status))
    ensures
        (node_v(r.0), r.1) == update_node_v(node_v(n)),
        r.1 != Status::Invalid,
{
    match n {
        BtNode::Base(b) => (BtNode::Base(b), Status::Success),
        BtNode::Sequence(mut s) => {
            let mut children: Vec<BtNode> = Vec::new();
            core::mem::swap(&mut s.children, &mut children);
            let (children2, cur2, st) = run_children(
                children,
                s.current,
                Status::Success,
                Status::Success,
            );
            s.children = children2;
            s.current = cur2;
            (BtNode::Sequence(s), st)
        },
        BtNode::Selector(mut s) => {
            let mut children: Vec<BtNode> = Vec::new();
            core::mem::swap(&mut s.children, &mut children);
            let (children2, cur2, st) = run_children(
                children,
                s.current,
                Status::Failure,
                Status::Failure,
            );
            s.children = children2;
            s.current = cur2;
            (BtNode::Selector(s), st)
        },
        BtNode::StatefulSequence(mut s) => {
            let mut children: Vec<BtNode> = Vec::new();
            core::mem::swap(&mut s.children, &mut children);
            let (children2, cur2, st) = run_children(
                children,
                s.current,
                Status::Success,
                Status::Success,
            );
            s.children = children2;
            s.current = if st == Status::Success {
                0
            } else {
                cur2
            };
            (BtNode::StatefulSequence(s), st)
        },
        BtNode::StatefulSelector(mut s) => {
            let mut children: Vec<BtNode> = Vec::new();
            core::mem::swap(&mut s.children, &mut children);
            let (children2, cur2, st) = run_children(
                children,
                s.current,
                Status::Failure,
                Status::Failure,
            );
            s.children = children2;
            s.current = if st == Status::Failure {
                0
            } else {
                cur2
            };
            (BtNode::StatefulSelector(s), st)
        },
    }
}

/// Re-initializes a node, by value: implements [`init_v`] exactly.
fn init_node(n: BtNode) -> (r: BtNode)
    ensures
        node_v(r) == init_v(node_v(n)),
{
    match n {
        BtNode::Base(b) => BtNode::Base(b),
        BtNode::Sequence(mut s) => {
            s.current = 0;
            BtNode::Sequence(s)
        },
        BtNode::Selector(mut s) => {
            s.current = 0;
            BtNode::Selector(s)
        },
        BtNode::StatefulSequence(s) => BtNode::StatefulSequence(s),
        BtNode::StatefulSelector(s) => BtNode::StatefulSelector(s),
    }
}

/// Stores a status in a node, by value: implements [`with_status`] exactly.
fn set_status_node(n: BtNode, st: Status) -> (r: BtNode)
    ensures
        node_v(r) == with_status(node_v(n), st),
{
    match n {
        BtNode::Base(mut b) => {
            b.status = st;
            BtNode::Base(b)
        },
        BtNode::Sequence(mut s) => {
            s.base.status = st;
            BtNode::Sequence(s)
        },
        BtNode::Selector(mut s) => {
            s.base.status = st;
            BtNode::Selector(s)
        },
        BtNode::StatefulSequence(mut s) => {
            s.base.status = st;
            BtNode::StatefulSequence(s)
        },
        BtNode::StatefulSelector(mut s) => {
            s.base.status = st;
            BtNode::StatefulSelector(s)
        },
    }
}

} // verus!

verus! {

/// A behavior-tree node.
///
/// The trait pins down the whole observable behavior of a node through
/// [`NodeV`], the node's mathematical state: what each operation does is an
/// equation over `node_view`, and `tick` — provided for every node — is the
/// state machine [`tick_v`].
pub trait Node {
    /// The node's mathematical state.
    spec fn node_view(&self) -> NodeV;

    /// The attached blackboard, if any.
    fn get_blackboard(&self) -> (r: Option<BlackboardPtr>)
        ensures
            match r {
                Some(b) => bb_of(self.node_view()) == Some(b@),
                None => bb_of(self.node_view()) is None,
            },
    ;

    /// Attaches `bb` to this node and every node below it.
    fn set_blackboard(&mut self, bb: BlackboardPtr)
        ensures
            final(self).node_view() == set_bb_v(old(self).node_view(), bb@),
    ;

    /// Runs the node's work once, resuming composites at their stored
    /// child, and reports the outcome without storing it.
    fn update(&mut self) -> (s: Status)
        ensures
            (final(self).node_view(), s) == update_node_v(old(self).node_view()),
            s != Status::Invalid,
    ;

    /// Prepares the node for a fresh run.
    fn initialize(&mut self)
        ensures
            final(self).node_view() == init_v(old(self).node_view()),
    ;

    /// Called once a run ends with a final status.
    fn terminate(&mut self)
        ensures
            final(self).node_view() == term_v(old(self).node_view()),
    ;

    /// One tick of the node's state machine: initialize unless the node was
    /// left running, update, store the returned status, and terminate
    /// unless the node is still running.
    fn tick(&mut self) -> (s: Status)
        ensures
            (final(self).node_view(), s) == tick_v(old(self).node_view()),
            s != Status::Invalid,
    {
        let status = self.get_status();
        if status != Status::Running {
            self.initialize();
        }
        proof {
            lemma_update_core_ignores_current(old(self).node_view(), current_of(self.node_view()));
        }
        let new_status = self.update();
        self.set_status(new_status);
        if new_status != Status::Running {
            self.terminate();
        }
        new_status
    }

    /// Whether the last stored status is `Success`.
    fn is_success(&self) -> (b: bool)
        ensures
            b == (status_of(self.node_view()) == Status::Success),
    {
        let s = self.get_status();
        s == Status::Success
    }

    /// Whether the last stored status is `Failure`.
    fn is_failure(&self) -> (b: bool)
        ensures
            b == (status_of(self.node_view()) == Status::Failure),
    {
        let s = self.get_status();
        s == Status::Failure
    }

    /// Whether the last stored status is `Running`.
    fn is_running(&self) -> (b: bool)
        ensures
            b == (status_of(self.node_view()) == Status::Running),
    {
        let s = self.get_status();
        s == Status::Running
    }

    /// Whether the node finished its run, successfully or not.
    fn is_terminated(&self) -> (b: bool)
        ensures
            b == (status_of(self.node_view()) == Status::Success || status_of(self.node_view())
                == Status::Failure),
    {
        self.is_success() || self.is_failure()
    }

    /// Forgets the stored status.
    fn reset(&mut self)
        ensures
            final(self).node_view() == with_status(old(self).node_view(), Status::Invalid),
    {
        self.set_status(Status::Invalid);
    }

    /// The last stored status.
    fn get_status(&self) -> (s: Status)
        ensures
            s == status_of(self.node_view()),
    ;

    /// Stores a status.
    fn set_status(&mut self, s: Status)
        ensures
            final(self).node_view() == with_status(old(self).node_view(), s),
    ;
}

/// A node with children that can be edited after construction.
pub trait Composite: Node {
    /// Appends a child.
    fn add_child(&mut self, child: BtNode)
        ensures
            final(self).node_view() == with_children(
                old(self).node_view(),
                children_of(old(self).node_view()).push(node_v(child)),
            ),
    ;

    /// Removes and returns the child at `index`, if there is one.
    fn remove_child(&mut self, index: usize) -> (r: Option<BtNode>)
        ensures
            match r {
                Some(c) => {
                    &&& index < children_of(old(self).node_view()).len()
                    &&& node_v(c) == children_of(old(self).node_view())[index as int]
                    &&& final(self).node_view() == with_children(
                        old(self).node_view(),
                        children_of(old(self).node_view()).remove(index as int),
                    )
                },
                None => {
                    &&& index >= children_of(old(self).node_view()).len()
                    &&& final(self).node_view() == old(self).node_view()
                },
            },
    ;

    /// Removes all children.
    fn clear_children(&mut self)
        ensures
            final(self).node_view() == with_children(old(self).node_view(), Seq::empty()),
    ;

    /// The current children.
    fn get_children(&self) -> (r: &Vec<BtNode>)
        ensures
            nodes_view(r@) == children_of(self.node_view()),
    ;
}

/// Removing a child removes exactly its entry from the child list's view.
proof fn lemma_nodes_view_remove(s: Seq<BtNode>, i: int)
    requires
        0 <= i < s.len(),
    ensures
        nodes_view(s.remove(i)) == nodes_view(s).remove(i),
{
    lemma_nodes_view(s);
    lemma_nodes_view(s.remove(i));
    assert forall|j: int| 0 <= j < s.len() - 1 implies nodes_view(s.remove(i))[j] == nodes_view(
        s,
    ).remove(i)[j] by {
        assert(nodes_view(s.remove(i))[j] == node_v(s.remove(i)[j]));
        if j < i {
            assert(nodes_view(s)[j] == node_v(s[j]));
        } else {
            assert(nodes_view(s)[j + 1] == node_v(s[j + 1]));
        }
    }
    assert(nodes_view(s.remove(i)) =~= nodes_view(s).remove(i));
}

/// Appending a child appends exactly its view to the child list's view.
proof fn lemma_nodes_view_push(s: Seq<BtNode>, x: BtNode)
    ensures
        nodes_view(s.push(x)) == nodes_view(s).push(node_v(x)),
{
    assert(s.push(x).drop_last() =~= s);
    assert(s.push(x).last() == x);
}

impl BaseNode {
    /// A fresh leaf: no status stored yet, no blackboard attached.
    pub fn new() -> (r: Self)
        ensures
            (r@ == BaseV { status: Status::Invalid, blackboard: None }),
    {
        BaseNode { status: Status::Invalid, blackboard: None }
    }
}

impl Node for BaseNode {
    closed spec fn node_view(&self) -> NodeV {
        NodeV::Base(base_v(*self))
    }

    fn get_blackboard(&self) -> (r: Option<BlackboardPtr>) {
        match &self.blackboard {
            Some(b) => Some(b.clone()),
            None => None,
        }
    }

    fn set_blackboard(&mut self, bb: BlackboardPtr) {
        self.blackboard = Some(bb);
    }

    fn update(&mut self) -> (s: Status) {
        Status::Success
    }

    fn initialize(&mut self) {
    }

    fn terminate(&mut self) {
    }

    fn get_status(&self) -> (s: Status) {
        self.status
    }

    fn set_status(&mut self, s: Status) {
        self.status = s;
    }
}

impl Node for BtNode {
    closed spec fn node_view(&self) -> NodeV {
        node_v(*self)
    }

    fn get_blackboard(&self) -> (r: Option<BlackboardPtr>) {
        match self {
            BtNode::Base(b) => b.get_blackboard(),
            BtNode::Sequence(s) => s.get_blackboard(),
            BtNode::Selector(s) => s.get_blackboard(),
            BtNode::StatefulSequence(s) => s.get_blackboard(),
            BtNode::StatefulSelector(s) => s.get_blackboard(),
        }
    }

    fn set_blackboard(&mut self, bb: BlackboardPtr) {
        let mut tmp: BtNode = BtNode::Base(BaseNode::new());
        core::mem::swap(self, &mut tmp);
        let mut done: BtNode = set_bb_node(tmp, &bb);
        core::mem::swap(self, &mut done);
    }

    fn update(&mut self) -> (s: Status) {
        let mut tmp: BtNode = BtNode::Base(BaseNode::new());
        core::mem::swap(self, &mut tmp);
        let (n2, st) = update_node(tmp);
        let mut done: BtNode = n2;
        core::mem::swap(self, &mut done);
        st
    }

    fn initialize(&mut self) {
        let mut tmp: BtNode = BtNode::Base(BaseNode::new());
        core::mem::swap(self, &mut tmp);
        let mut done: BtNode = init_node(tmp);
        core::mem::swap(self, &mut done);
    }

    fn terminate(&mut self) {
    }

    fn get_status(&self) -> (s: Status) {
        match self {
            BtNode::Base(b) => b.get_status(),
            BtNode::Sequence(s) => s.get_status(),
            BtNode::Selector(s) => s.get_status(),
            BtNode::StatefulSequence(s) => s.get_status(),
            BtNode::StatefulSelector(s) => s.get_status(),
        }
    }

    fn set_status(&mut self, s: Status) {
        let mut tmp: BtNode = BtNode::Base(BaseNode::new());
        core::mem::swap(self, &mut tmp);
        let mut done: BtNode = set_status_node(tmp, s);
        core::mem::swap(self, &mut done);
    }
}

} // verus!

verus! {

impl Sequence {
    /// A fresh sequence over the given children.
    pub fn new(children: Vec<BtNode>) -> (r: Self)
        ensures
            (r.node_view() == NodeV::Sequence(
                CompositeV {
                    status: Status::Invalid,
                    blackboard: None,
                    children: nodes_view(children@),
                    current: 0,
                },
            )),
    {
        Sequence { base: BaseNode::new(), children, current: 0 }
    }
}

impl Node for Sequence {
    closed spec fn node_view(&self) -> NodeV {
        NodeV::Sequence(sequence_v(*self))
    }

    fn get_blackboard(&self) -> (r: Option<BlackboardPtr>) {
        self.base.get_blackboard()
    }

    fn set_blackboard(&mut self, bb: BlackboardPtr) {
        self.base.set_blackboard(bb.clone());
        let mut children: Vec<BtNode> = Vec::new();
        core::mem::swap(&mut self.children, &mut children);
        self.children = set_bb_children(children, &bb);
    }

    fn update(&mut self) -> (s: Status) {
        let mut children: Vec<BtNode> = Vec::new();
        core::mem::swap(&mut self.children, &mut children);
        let (children2, cur2, st) = run_children(
            children,
            self.current,
            Status::Success,
            Status::Success,
        );
        self.children = children2;
        self.current = cur2;
        st
    }

    fn initialize(&mut self) {
        self.current = 0;
    }

    fn terminate(&mut self) {
    }

    fn get_status(&self) -> (s: Status) {
        let s = self.base.get_status();
        proof {
            assert(s == base_v(self.base).status);
            assert(status_of(self.node_view()) == sequence_v(*self).status);
        }
        s
    }

    fn set_status(&mut self, s: Status) {
        self.base.set_status(s);
    }
}

impl Composite for Sequence {
    fn add_child(&mut self, child: BtNode) {
        proof {
            lemma_nodes_view_push(self.children@, child);
        }
        self.children.push(child);
    }

    fn remove_child(&mut self, index: usize) -> (r: Option<BtNode>) {
        if index < self.children.len() {
            let ghost pre = self.children@;
            let c: BtNode = self.children.remove(index);
            proof {
                lemma_nodes_view_remove(pre, index as int);
                lemma_nodes_view(pre);
                assert(c == pre[index as int]);
                assert(node_v(c) == nodes_view(pre)[index as int]);
            }
            Some(c)
        } else {
            proof {
                lemma_nodes_view(self.children@);
            }
            None
        }
    }

    fn clear_children(&mut self) {
        self.children.clear();
    }

    fn get_children(&self) -> (r: &Vec<BtNode>) {
        &self.children
    }
}


impl Selector {
    /// A fresh selector over the given children.
    pub fn new(children: Vec<BtNode>) -> (r: Self)
        ensures
            (r.node_view() == NodeV::Selector(
                CompositeV {
                    status: Status::Invalid,
                    blackboard: None,
                    children: nodes_view(children@),
                    current: 0,
                },
            )),
    {
        Selector { base: BaseNode::new(), children, current: 0 }
    }
}

impl Node for Selector {
    closed spec fn node_view(&self) -> NodeV {
        NodeV::Selector(selector_v(*self))
    }

    fn get_blackboard(&self) -> (r: Option<BlackboardPtr>) {
        self.base.get_blackboard()
    }

    fn set_blackboard(&mut self, bb: BlackboardPtr) {
        self.base.set_blackboard(bb.clone());
        let mut children: Vec<BtNode> = Vec::new();
        core::mem::swap(&mut self.children, &mut children);
        self.children = set_bb_children(children, &bb);
    }

    fn update(&mut self) -> (s: Status) {
        let mut children: Vec<BtNode> = Vec::new();
        core::mem::swap(&mut self.children, &mut children);
        let (children2, cur2, st) = run_children(
            children,
            self.current,
            Status::Failure,
            Status::Failure,
        );
        self.children = children2;
        self.current = cur2;
        st
    }

    fn initialize(&mut self) {
        self.current = 0;
    }

    fn terminate(&mut self) {
    }

    fn get_status(&self) -> (s: Status) {
        let s = self.base.get_status();
        proof {
            assert(s == base_v(self.base).status);
            assert(status_of(self.node_view()) == selector_v(*self).status);
        }
        s
    }

    fn set_status(&mut self, s: Status) {
        self.base.set_status(s);
    }
}

impl Composite for Selector {
    fn add_child(&mut self, child: BtNode) {
        proof {
            lemma_nodes_view_push(self.children@, child);
        }
        self.children.push(child);
    }

    fn remove_child(&mut self, index: usize) -> (r: Option<BtNode>) {
        if index < self.children.len() {
            let ghost pre = self.children@;
            let c: BtNode = self.children.remove(index);
            proof {
                lemma_nodes_view_remove(pre, index as int);
                lemma_nodes_view(pre);
                assert(c == pre[index as int]);
                assert(node_v(c) == nodes_view(pre)[index as int]);
            }
            Some(c)
        } else {
            proof {
                lemma_nodes_view(self.children@);
            }
            None
        }
    }

    fn clear_children(&mut self) {
        self.children.clear();
    }

    fn get_children(&self) -> (r: &Vec<BtNode>) {
        &self.children
    }
}


impl StatefulSequence {
    /// A fresh stateful sequence over the given children.
    pub fn new(children: Vec<BtNode>) -> (r: Self)
        ensures
            (r.node_view() == NodeV::StatefulSequence(
                CompositeV {
                    status: Status::Invalid,
                    blackboard: None,
                    children: nodes_view(children@),
                    current: 0,
                },
            )),
    {
        StatefulSequence { base: BaseNode::new(), children, current: 0 }
    }
}

impl Node for StatefulSequence {
    closed spec fn node_view(&self) -> NodeV {
        NodeV::StatefulSequence(stateful_sequence_v(*self))
    }

    fn get_blackboard(&self) -> (r: Option<BlackboardPtr>) {
        self.base.get_blackboard()
    }

    fn set_blackboard(&mut self, bb: BlackboardPtr) {
        self.base.set_blackboard(bb.clone());
        let mut children: Vec<BtNode> = Vec::new();
        core::mem::swap(&mut self.children, &mut children);
        self.children = set_bb_children(children, &bb);
    }

    fn update(&mut self) -> (s: Status) {
        let mut children: Vec<BtNode> = Vec::new();
        core::mem::swap(&mut self.children, &mut children);
        let (children2, cur2, st) = run_children(
            children,
            self.current,
            Status::Success,
            Status::Success,
        );
        self.children = children2;
        self.current = if st == Status::Success {
            0
        } else {
            cur2
        };
        st
    }

    fn initialize(&mut self) {
    }

    fn terminate(&mut self) {
    }

    fn get_status(&self) -> (s: Status) {
        let s = self.base.get_status();
        proof {
            assert(s == base_v(self.base).status);
            assert(status_of(self.node_view()) == stateful_sequence_v(*self).status);
        }
        s
    }

    fn set_status(&mut self, s: Status) {
        self.base.set_status(s);
    }
}

impl Composite for StatefulSequence {
    fn add_child(&mut self, child: BtNode) {
        proof {
            lemma_nodes_view_push(self.children@, child);
        }
        self.children.push(child);
    }

    fn remove_child(&mut self, index: usize) -> (r: Option<BtNode>) {
        if index < self.children.len() {
            let ghost pre = self.children@;
            let c: BtNode = self.children.remove(index);
            proof {
                lemma_nodes_view_remove(pre, index as int);
                lemma_nodes_view(pre);
                assert(c == pre[index as int]);
                assert(node_v(c) == nodes_view(pre)[index as int]);
            }
            Some(c)
        } else {
            proof {
                lemma_nodes_view(self.children@);
            }
            None
        }
    }

    fn clear_children(&mut self) {
        self.children.clear();
    }

    fn get_children(&self) -> (r: &Vec<BtNode>) {
        &self.children
    }
}


impl StatefulSelector {
    /// A fresh stateful selector over the given children.
    pub fn new(children: Vec<BtNode>) -> (r: Self)
        ensures
            (r.node_view() == NodeV::StatefulSelector(
                CompositeV {
                    status: Status::Invalid,
                    blackboard: None,
                    children: nodes_view(children@),
                    current: 0,
                },
            )),
    {
        StatefulSelector { base: BaseNode::new(), children, current: 0 }
    }
}

impl Node for StatefulSelector {
    closed spec fn node_view(&self) -> NodeV {
        NodeV::StatefulSelector(stateful_selector_v(*self))
    }

    fn get_blackboard(&self) -> (r: Option<BlackboardPtr>) {
        self.base.get_blackboard()
    }

    fn set_blackboard(&mut self, bb: BlackboardPtr) {
        self.base.set_blackboard(bb.clone());
        let mut children: Vec<BtNode> = Vec::new();
        core::mem::swap(&mut self.children, &mut children);
        self.children = set_bb_children(children, &bb);
    }

    fn update(&mut self) -> (s: Status) {
        let mut children: Vec<BtNode> = Vec::new();
        core::mem::swap(&mut self.children, &mut children);
        let (children2, cur2, st) = run_children(
            children,
            self.current,
            Status::Failure,
            Status::Failure,
        );
        self.children = children2;
        self.current = if st == Status::Failure {
            0
        } else {
            cur2
        };
        st
    }

    fn initialize(&mut self) {
    }

    fn terminate(&mut self) {
    }

    fn get_status(&self) -> (s: Status) {
        let s = self.base.get_status();
        proof {
            assert(s == base_v(self.base).status);
            assert(status_of(self.node_view()) == stateful_selector_v(*self).status);
        }
        s
    }

    fn set_status(&mut self, s: Status) {
        self.base.set_status(s);
    }
}

impl Composite for StatefulSelector {
    fn add_child(&mut self, child: BtNode) {
        proof {
            lemma_nodes_view_push(self.children@, child);
        }
        self.children.push(child);
    }

    fn remove_child(&mut self, index: usize) -> (r: Option<BtNode>) {
        if index < self.children.len() {
            let ghost pre = self.children@;
            let c: BtNode = self.children.remove(index);
            proof {
                lemma_nodes_view_remove(pre, index as int);
                lemma_nodes_view(pre);
                assert(c == pre[index as int]);
                assert(node_v(c) == nodes_view(pre)[index as int]);
            }
            Some(c)
        } else {
            proof {
                lemma_nodes_view(self.children@);
            }
            None
        }
    }

    fn clear_children(&mut self) {
        self.children.clear();
    }

    fn get_children(&self) -> (r: &Vec<BtNode>) {
        &self.children
    }
}

} // verus!
