//! Ordered labelled trees: traversals, searches, mappings and rewrites.
//!
//! `Node` is an exclusively owned, finite, ordered tree. Its mathematical
//! model is `Tree`, which structural equality and deep copies are stated
//! over. Every rewrite returns a new tree and leaves its input untouched.

use vstd::prelude::*;
use vstd::std_specs::cmp::PartialEqSpec;
use vstd::string::StringExecFns;
use crate::text::{join_lines, join_with_newlines, padded2, padded2_string, spaces, spaces_string, views};

verus! {

/// Mathematical model of a tree: a label and the ordered models of its children.
pub struct Tree {
    pub label: Seq<char>,
    pub children: Seq<Tree>,
}

/// A node of an ordered tree, owning its children.
#[derive(Debug)]
pub struct Node {
    pub label: String,
    pub children: Vec<Node>,
}

/// Placeholder model used outside the index range of a children sequence.
pub open spec fn empty_tree() -> Tree {
    Tree { label: Seq::empty(), children: Seq::empty() }
}

/// The nodes of `n`, each before its children, children left to right.
pub open spec fn preorder(n: Node) -> Seq<Node>
    decreases n, n.children.len() + 1,
{
    seq![n] + preorder_children(n, n.children.len() as int)
}

/// Pre-order nodes of the first `k` children of `n`, concatenated.
pub open spec fn preorder_children(n: Node, k: int) -> Seq<Node>
    decreases n, k,
{
    if k <= 0 || k > n.children.len() {
        Seq::empty()
    } else {
        preorder_children(n, k - 1) + preorder(n.children@[k - 1])
    }
}

/// The nodes of `n`, children left to right before the node itself.
pub open spec fn postorder(n: Node) -> Seq<Node>
    decreases n, n.children.len() + 1,
{
    postorder_children(n, n.children.len() as int) + seq![n]
}

/// Post-order nodes of the first `k` children of `n`, concatenated.
pub open spec fn postorder_children(n: Node, k: int) -> Seq<Node>
    decreases n, k,
{
    if k <= 0 || k > n.children.len() {
        Seq::empty()
    } else {
        postorder_children(n, k - 1) + postorder(n.children@[k - 1])
    }
}

/// The nodes that a sequence of references points to.
pub open spec fn derefs(s: Seq<&Node>) -> Seq<Node> {
    s.map_values(|r: &Node| *r)
}

/// Both traversals visit every node once: pre-order starts at the node
/// itself and post-order ends there, and each lists the children's
/// traversals left to right.
pub proof fn lemma_traversal_orders(n: Node)
    ensures
        preorder(n)[0] == n,
        postorder(n).last() == n,
        preorder(n).len() == postorder(n).len(),
        preorder(n) == seq![n] + preorder_children(n, n.children.len() as int),
        postorder(n) == postorder_children(n, n.children.len() as int) + seq![n],
    decreases n, n.children.len() + 1,
{
    lemma_children_traversal_lengths(n, n.children.len() as int);
}

proof fn lemma_children_traversal_lengths(n: Node, k: int)
    ensures
        preorder_children(n, k).len() == postorder_children(n, k).len(),
    decreases n, k,
{
    if 0 < k <= n.children.len() {
        lemma_children_traversal_lengths(n, k - 1);
        lemma_traversal_orders(n.children@[k - 1]);
    }
}

/// Structural equality compares labels and then children, in order: two
/// nodes have equal models iff their labels are equal, they have as many
/// children, and children at the same position have equal models.
pub proof fn lemma_model_equality(a: Node, b: Node)
    ensures
        a.model() == b.model() <==> {
            &&& a.label@ == b.label@
            &&& a.children.len() == b.children.len()
            &&& forall|i: int|
                0 <= i < a.children.len() ==> (#[trigger] a.children@[i]).model()
                    == b.children@[i].model()
        },
{
    if a.label@ == b.label@ && a.children.len() == b.children.len() && forall|i: int|
        0 <= i < a.children.len() ==> (#[trigger] a.children@[i]).model() == b.children@[i].model() {
        assert(a.model().children =~= b.model().children);
    }
    if a.model() == b.model() {
        assert(a.model().children.len() == a.children.len());
        assert(b.model().children.len() == b.children.len());
        assert forall|i: int| 0 <= i < a.children.len() implies (#[trigger] a.children@[i]).model()
            == b.children@[i].model() by {
            assert(a.model().children[i] == b.model().children[i]);
        }
    }
}

/// A deep copy equals the tree it was made from, and nodes whose models differ are never
/// equal: `c` is what `a.clone_tree()` may return, `b` any other tree.
pub proof fn lemma_copy_equality(a: Node, c: Node, b: Node)
    requires
        c.tree_model() == a.tree_model(),
    ensures
        a.eq_spec(&c),
        c.eq_spec(&a),
        a.model() != b.model() ==> !a.eq_spec(&b) && !b.eq_spec(&a),
{
}

/// `func` may be called on each node of `s`.
pub open spec fn callable_on<F: Fn(&Node) -> R, R>(func: F, s: Seq<Node>) -> bool {
    forall|i: int| 0 <= i < s.len() ==> call_requires(func, (&s[i],))
}

/// `func` answered `false` for each of the first `k` nodes of `s`.
pub open spec fn rejects_prefix<F: Fn(&Node) -> bool>(func: F, s: Seq<Node>, k: int) -> bool {
    forall|j: int| 0 <= j < k ==> call_ensures(func, (&s[j],), false)
}

/// `outs[i]` is an answer of `func` on `s[i]`, for every node of `s`.
pub open spec fn answers<F: Fn(&Node) -> R, R>(func: F, s: Seq<Node>, outs: Seq<R>) -> bool {
    &&& outs.len() == s.len()
    &&& forall|i: int| 0 <= i < s.len() ==> call_ensures(func, (&s[i],), outs[i])
}

/// The concatenation of the given vectors, in order.
pub open spec fn concat<R>(outs: Seq<Vec<R>>) -> Seq<R>
    decreases outs.len(),
{
    if outs.len() == 0 {
        Seq::empty()
    } else {
        concat(outs.drop_last()) + outs.last()@
    }
}

/// The present values of `outs`, in order.
pub open spec fn somes<R>(outs: Seq<Option<R>>) -> Seq<R>
    decreases outs.len(),
{
    if outs.len() == 0 {
        Seq::empty()
    } else {
        match outs.last() {
            Some(v) => somes(outs.drop_last()).push(v),
            None => somes(outs.drop_last()),
        }
    }
}

/// The leaf nodes of `s`, in order.
pub open spec fn leaves(s: Seq<Node>) -> Seq<Node>
    decreases s.len(),
{
    if s.len() == 0 {
        Seq::empty()
    } else if s.last().children.len() == 0 {
        leaves(s.drop_last()).push(s.last())
    } else {
        leaves(s.drop_last())
    }
}

/// The models of the given nodes.
pub open spec fn models(s: Seq<Node>) -> Seq<Tree> {
    s.map_values(|n: Node| n.model())
}

/// Number of levels of `n`: one for a leaf.
pub open spec fn height(n: Node) -> nat
    decreases n, n.children.len() + 1,
{
    1 + max_child_height(n, n.children.len() as int)
}

/// Largest height among the first `k` children of `n`, zero when there are none.
pub open spec fn max_child_height(n: Node, k: int) -> nat
    decreases n, k,
{
    if k <= 0 || k > n.children.len() {
        0
    } else {
        let h = height(n.children@[k - 1]);
        let rest = max_child_height(n, k - 1);
        if h > rest {
            h
        } else {
            rest
        }
    }
}

/// Each child is strictly lower than its parent.
pub proof fn lemma_child_lower(n: Node)
    ensures
        forall|i: int| 0 <= i < n.children.len() ==> height(#[trigger] n.children@[i]) < height(n),
{
    assert forall|i: int| 0 <= i < n.children.len() implies height(
        #[trigger] n.children@[i],
    ) < height(n) by {
        lemma_max_child_height(n, i, n.children.len() as int);
    }
}

proof fn lemma_max_child_height(n: Node, i: int, k: int)
    requires
        0 <= i < k <= n.children.len(),
    ensures
        height(n.children@[i]) <= max_child_height(n, k),
    decreases k,
{
    if i < k - 1 {
        lemma_max_child_height(n, i, k - 1);
    }
}

/// Each child of any node is strictly lower than that node.
pub proof fn lemma_children_lower()
    ensures
        forall|n: Node, i: int|
            0 <= i < n.children.len() ==> height(#[trigger] n.children@[i]) < height(n),
{
    assert forall|n: Node, i: int| 0 <= i < n.children.len() implies height(
        #[trigger] n.children@[i],
    ) < height(n) by {
        lemma_child_lower(n);
    }
}

/// `rule` may be applied to any node.
pub open spec fn total<F: Fn(&Node) -> Option<Node>>(rule: F) -> bool {
    forall|n: &Node| call_requires(rule, (n,))
}

/// No replacement that `rule` produces is higher than the node it replaces.
pub open spec fn keeps_height<F: Fn(&Node) -> Option<Node>>(rule: F) -> bool {
    forall|n: &Node, m: Node| call_ensures(rule, (n,), Some(m)) ==> height(m) <= height(*n)
}

/// `t` models the result of rewriting `n` top-down with `rule`: the rule is
/// applied to `n` first; its replacement, or `n` itself when there is none,
/// keeps its label, and each of its children is rewritten the same way.
pub open spec fn rewritten_down<F: Fn(&Node) -> Option<Node>>(rule: F, n: Node, t: Tree) -> bool
    decreases height(n),
    via rewritten_down_decreases::<F>
{
    ||| {
        &&& call_ensures(rule, (&n,), None)
        &&& t.label == n.label@
        &&& t.children.len() == n.children.len()
        &&& forall|i: int|
            0 <= i < n.children.len() ==> rewritten_down(rule, #[trigger] n.children@[i], t.children[i])
    }
    ||| exists|m: Node|
        {
            &&& call_ensures(rule, (&n,), Some(m))
            &&& height(m) <= height(n)
            &&& t.label == m.label@
            &&& t.children.len() == m.children.len()
            &&& forall|i: int|
                0 <= i < m.children.len() ==> rewritten_down(
                    rule,
                    #[trigger] m.children@[i],
                    t.children[i],
                )
        }
}

#[via_fn]
proof fn rewritten_down_decreases<F: Fn(&Node) -> Option<Node>>(rule: F, n: Node, t: Tree) {
    lemma_children_lower();
}

/// `t` models the result of rewriting `n` bottom-up with `rule`: every child
/// is rewritten first, then the rule is applied to the node carrying the
/// rewritten children; its replacement, or that node when there is none, is
/// the result.
pub open spec fn rewritten_up<F: Fn(&Node) -> Option<Node>>(rule: F, n: Node, t: Tree) -> bool
    decreases n,
{
    exists|m: Node, o: Option<Node>|
        {
            &&& m.label@ == n.label@
            &&& m.children.len() == n.children.len()
            &&& forall|i: int|
                0 <= i < n.children.len() ==> rewritten_up(
                    rule,
                    #[trigger] n.children@[i],
                    m.children@[i].model(),
                )
            &&& call_ensures(rule, (&m,), o)
            &&& t == match o {
                Some(a) => a.model(),
                None => m.model(),
            }
        }
}

/// The branch marker in front of a label: nothing at the root, `+- ` for a
/// last child and `- ` for any other child, whose `:` comes from the prefix.
pub open spec fn marker(root: bool, is_last: bool) -> Seq<char> {
    if root {
        Seq::empty()
    } else if is_last {
        seq!['+', '-', ' ']
    } else {
        seq!['-', ' ']
    }
}

/// The printed lines of `n` and its descendants, in pre-order. `prefix` is
/// what stands before the marker of `n`.
pub open spec fn tree_lines(n: Node, root: bool, prefix: Seq<char>, is_last: bool) -> Seq<Seq<char>>
    decreases n, n.children.len() + 1,
{
    seq![prefix + marker(root, is_last) + n.label@] + children_lines(
        n,
        prefix + spaces(marker(root, is_last).len()),
        n.children.len() as int,
    )
}

/// The printed lines of the first `k` children of `n`. Each child's prefix is
/// `base`, followed by `:` unless the child is the last one, so that a
/// finished branch draws no continuation line below it.
pub open spec fn children_lines(n: Node, base: Seq<char>, k: int) -> Seq<Seq<char>>
    decreases n, k,
{
    if k <= 0 || k > n.children.len() {
        Seq::empty()
    } else {
        let last = k == n.children.len();
        children_lines(n, base, k - 1) + tree_lines(
            n.children@[k - 1],
            false,
            if last {
                base
            } else {
                base.push(':')
            },
            last,
        )
    }
}

/// The lines of the rendering of `n`.
pub open spec fn rendered_lines(n: Node) -> Seq<Seq<char>> {
    tree_lines(n, true, Seq::empty(), false)
}

/// Each line prefixed by its 1-based position, zero-padded to two digits, and a space.
pub open spec fn numbered(ls: Seq<Seq<char>>) -> Seq<Seq<char>> {
    Seq::new(ls.len(), |i: int| padded2((i + 1) as nat) + seq![' '] + ls[i])
}

/// What it takes for a value to be a node of a finite ordered tree: a label,
/// children that can be counted, read and replaced, a deep copy and a
/// structural equality. The model of a node is a `Tree`.
pub trait TreeNode: Sized {
    /// The model of this node and all its descendants.
    spec fn tree_model(&self) -> Tree;

    /// The label of this node.
    fn node_name(&self) -> (r: String)
        ensures
            r@ == self.tree_model().label,
    ;

    /// A one-line description of this node.
    fn verbose_string(&self) -> String;

    /// Number of children of this node.
    fn num_children(&self) -> (r: usize)
        ensures
            r == self.tree_model().children.len(),
    ;

    /// The child at `idx`, or `None` when `idx` is out of range.
    fn get_child(&self, idx: usize) -> (r: Option<&Self>)
        ensures
            idx < self.tree_model().children.len() ==> (r matches Some(c) && c.tree_model()
                == self.tree_model().children[idx as int]),
            idx >= self.tree_model().children.len() ==> (r is None),
    ;

    /// Replaces the child at `idx`; does nothing when `idx` is out of range.
    fn set_child(&mut self, idx: usize, child: Self)
        ensures
            idx < old(self).tree_model().children.len() ==> final(self).tree_model() == (Tree {
                label: old(self).tree_model().label,
                children: old(self).tree_model().children.update(idx as int, child.tree_model()),
            }),
            idx >= old(self).tree_model().children.len() ==> final(self).tree_model()
                == old(self).tree_model(),
    ;

    /// A deep copy of this tree.
    fn clone_tree(&self) -> (r: Self)
        ensures
            r.tree_model() == self.tree_model(),
    ;

    /// Structural equality: labels equal and children equal, in order.
    fn equals(&self, other: &Self) -> (r: bool)
        ensures
            r == (self.tree_model() == other.tree_model()),
    ;

    /// Returns `true` iff the node has no children.
    fn is_leaf(&self) -> (r: bool)
        ensures
            r == (self.tree_model().children.len() == 0),
    ;
}

impl Clone for Node {
    fn clone(&self) -> (r: Node)
        ensures
            r.model() == self.model(),
    {
        self.clone_tree()
    }
}

impl PartialEq for Node {
    fn eq(&self, other: &Node) -> (r: bool) {
        self.equals(other)
    }
}

impl vstd::std_specs::cmp::PartialEqSpecImpl for Node {
    open spec fn obeys_eq_spec() -> bool {
        true
    }

    open spec fn eq_spec(&self, other: &Node) -> bool {
        self.model() == other.model()
    }
}

impl TreeNode for Node {
    open spec fn tree_model(&self) -> Tree {
        self.model()
    }

    fn node_name(&self) -> (r: String) {
        self.label.clone()
    }

    fn verbose_string(&self) -> (r: String) {
        proof {
            reveal_strlit("(");
            reveal_strlit(")");
        }
        "(".to_owned().concat(self.label.as_str()).concat(")")
    }

    fn num_children(&self) -> (r: usize) {
        self.children.len()
    }

    fn get_child(&self, idx: usize) -> (r: Option<&Node>) {
        if idx < self.children.len() {
            Some(&self.children[idx])
        } else {
            None
        }
    }

    fn set_child(&mut self, idx: usize, child: Node) {
        if idx < self.children.len() {
            let ghost before = self.model();
            self.children.set(idx, child);
            assert(self.model().children =~= before.children.update(idx as int, child.model()));
        }
    }

    fn is_leaf(&self) -> (r: bool) {
        self.children.len() == 0
    }

    /// A deep copy of this tree.
    fn clone_tree(&self) -> (r: Node)
        ensures
            r.tree_model() == self.tree_model(),
        decreases self,
    {
        let n = self.children.len();
        let mut children: Vec<Node> = Vec::new();
        let mut i: usize = 0;
        while i < n
            invariant
                n == self.children.len(),
                0 <= i <= n,
                children.len() == i,
                forall|j: int| 0 <= j < i ==> (#[trigger] children@[j]).model() == self.children@[j].model(),
            decreases n - i,
        {
            let c = self.children[i].clone_tree();
            children.push(c);
            i += 1;
        }
        let r = Node { label: self.label.clone(), children };
        assert(r.model().children =~= self.model().children);
        r
    }

    /// Structural equality: labels equal and children equal, in order.
    fn equals(&self, other: &Node) -> (r: bool)
        ensures
            r == (self.tree_model() == other.tree_model()),
        decreases self,
    {
        if !(self.label == other.label) {
            assert(self.model().label != other.model().label);
            return false;
        }
        let n = self.children.len();
        if n != other.children.len() {
            assert(self.model().children.len() != other.model().children.len());
            return false;
        }
        let mut i: usize = 0;
        while i < n
            invariant
                n == self.children.len(),
                n == other.children.len(),
                0 <= i <= n,
                forall|j: int| 0 <= j < i ==> (#[trigger] self.children@[j]).model() == other.children@[j].model(),
            decreases n - i,
        {
            if !self.children[i].equals(&other.children[i]) {
                assert(self.model().children[i as int] != other.model().children[i as int]);
                return false;
            }
            i += 1;
        }
        assert(self.model().children =~= other.model().children);
        true
    }
}

impl Node {
    /// The model of this node and all its descendants.
    pub open spec fn model(self) -> Tree
        decreases self,
    {
        Tree {
            label: self.label@,
            children: Seq::new(
                self.children.len() as nat,
                |i: int|
                    if 0 <= i < self.children.len() {
                        self.children@[i].model()
                    } else {
                        empty_tree()
                    },
            ),
        }
    }

    /// Creates a node from its label and its ordered children.
    pub fn new(label: String, children: Vec<Node>) -> (r: Node)
        ensures
            r.label == label,
            r.children == children,
    {
        Node { label, children }
    }

    /// References to all nodes of this tree in pre-order.
    pub fn pre_order(&self) -> (r: Vec<&Node>)
        ensures
            derefs(r@) == preorder(*self),
    {
        let mut out: Vec<&Node> = Vec::new();
        self.push_pre_order(&mut out);
        out
    }

    fn push_pre_order<'a>(&'a self, out: &mut Vec<&'a Node>)
        ensures
            derefs(final(out)@) == derefs(old(out)@) + preorder(*self),
        decreases self,
    {
        out.push(self);
        assert(derefs(out@) =~= derefs(old(out)@) + seq![*self]);
        let n = self.children.len();
        let mut i: usize = 0;
        while i < n
            invariant
                n == self.children.len(),
                0 <= i <= n,
                derefs(out@) == derefs(old(out)@) + seq![*self] + preorder_children(*self, i as int),
            decreases n - i,
        {
            let child = &self.children[i];
            child.push_pre_order(out);
            proof {
                assert(preorder_children(*self, i + 1) == preorder_children(*self, i as int)
                    + preorder(self.children@[i as int]));
            }
            i += 1;
        }
        assert(derefs(out@) =~= derefs(old(out)@) + preorder(*self));
    }

    /// References to all nodes of this tree in post-order.
    pub fn post_order(&self) -> (r: Vec<&Node>)
        ensures
            derefs(r@) == postorder(*self),
    {
        let mut out: Vec<&Node> = Vec::new();
        self.push_post_order(&mut out);
        out
    }

    fn push_post_order<'a>(&'a self, out: &mut Vec<&'a Node>)
        ensures
            derefs(final(out)@) == derefs(old(out)@) + postorder(*self),
        decreases self,
    {
        let n = self.children.len();
        let mut i: usize = 0;
        while i < n
            invariant
                n == self.children.len(),
                0 <= i <= n,
                derefs(out@) == derefs(old(out)@) + postorder_children(*self, i as int),
            decreases n - i,
        {
            let child = &self.children[i];
            child.push_post_order(out);
            proof {
                assert(postorder_children(*self, i + 1) == postorder_children(*self, i as int)
                    + postorder(self.children@[i as int]));
            }
            i += 1;
        }
        let ghost mid = out@;
        out.push(self);
        assert(derefs(out@) =~= derefs(mid) + seq![*self]);
        assert(derefs(out@) =~= derefs(old(out)@) + postorder(*self));
    }

    /// Calls `func` on every node, each node before its children, children
    /// left to right.
    pub fn foreach<F: FnMut(&Node)>(&self, func: &mut F)
        requires
            forall|n: &Node| call_requires(*old(func), (n,)),
        ensures
            forall|i: int|
                0 <= i < preorder(*self).len() ==> call_ensures(
                    *old(func),
                    (&preorder(*self)[i],),
                    (),
                ),
    {
        let nodes = self.pre_order();
        let n = nodes.len();
        let mut i: usize = 0;
        while i < n
            invariant
                n == nodes.len(),
                derefs(nodes@) == preorder(*self),
                0 <= i <= n,
                *func == *old(func),
                forall|n: &Node| call_requires(*old(func), (n,)),
                forall|j: int| 0 <= j < i ==> call_ensures(*old(func), (&preorder(*self)[j],), ()),
            decreases n - i,
        {
            let node = nodes[i];
            assert(derefs(nodes@)[i as int] == *node);
            func(node);
            i += 1;
        }
    }

    /// Calls `func` on every node, children left to right before the node
    /// itself.
    pub fn foreach_up<F: FnMut(&Node)>(&self, func: &mut F)
        requires
            forall|n: &Node| call_requires(*old(func), (n,)),
        ensures
            forall|i: int|
                0 <= i < postorder(*self).len() ==> call_ensures(
                    *old(func),
                    (&postorder(*self)[i],),
                    (),
                ),
    {
        let nodes = self.post_order();
        let n = nodes.len();
        let mut i: usize = 0;
        while i < n
            invariant
                n == nodes.len(),
                derefs(nodes@) == postorder(*self),
                0 <= i <= n,
                *func == *old(func),
                forall|n: &Node| call_requires(*old(func), (n,)),
                forall|j: int| 0 <= j < i ==> call_ensures(*old(func), (&postorder(*self)[j],), ()),
            decreases n - i,
        {
            let node = nodes[i];
            assert(derefs(nodes@)[i as int] == *node);
            func(node);
            i += 1;
        }
    }

    /// The first node in pre-order on which `func` answers `true`, or `None`
    /// when it answers `false` on every node. Nodes after the first match are
    /// not examined.
    pub fn find<F: Fn(&Node) -> bool>(&self, func: &F) -> (r: Option<&Node>)
        requires
            callable_on(*func, preorder(*self)),
        ensures
            match r {
                Some(n) => exists|k: int|
                    #![trigger preorder(*self)[k]]
                    0 <= k < preorder(*self).len() && *n == preorder(*self)[k] && call_ensures(
                        *func,
                        (&preorder(*self)[k],),
                        true,
                    ) && rejects_prefix(*func, preorder(*self), k),
                None => rejects_prefix(*func, preorder(*self), preorder(*self).len() as int),
            },
    {
        let nodes = self.pre_order();
        let n = nodes.len();
        let mut i: usize = 0;
        while i < n
            invariant
                n == nodes.len(),
                derefs(nodes@) == preorder(*self),
                0 <= i <= n,
                callable_on(*func, preorder(*self)),
                rejects_prefix(*func, preorder(*self), i as int),
            decreases n - i,
        {
            let node = nodes[i];
            assert(derefs(nodes@)[i as int] == *node);
            if func(node) {
                return Some(node);
            }
            i += 1;
        }
        None
    }

    /// The answers of `func` on all nodes, in pre-order.
    pub fn map<F: Fn(&Node) -> R, R>(&self, func: &F) -> (r: Vec<R>)
        requires
            callable_on(*func, preorder(*self)),
        ensures
            answers(*func, preorder(*self), r@),
    {
        let nodes = self.pre_order();
        let n = nodes.len();
        let mut res: Vec<R> = Vec::new();
        let mut i: usize = 0;
        while i < n
            invariant
                n == nodes.len(),
                derefs(nodes@) == preorder(*self),
                0 <= i <= n,
                callable_on(*func, preorder(*self)),
                answers(*func, preorder(*self).take(i as int), res@),
            decreases n - i,
        {
            let node = nodes[i];
            assert(derefs(nodes@)[i as int] == *node);
            let v = func(node);
            res.push(v);
            i += 1;
        }
        assert(preorder(*self).take(n as int) =~= preorder(*self));
        res
    }

    /// The answers of `func` on all nodes, in pre-order, concatenated.
    pub fn flat_map<F: Fn(&Node) -> Vec<R>, R>(&self, func: &F) -> (r: Vec<R>)
        requires
            callable_on(*func, preorder(*self)),
        ensures
            exists|outs: Seq<Vec<R>>| answers(*func, preorder(*self), outs) && r@ == concat(outs),
    {
        let nodes = self.pre_order();
        let n = nodes.len();
        let mut res: Vec<R> = Vec::new();
        let ghost mut outs: Seq<Vec<R>> = Seq::empty();
        let mut i: usize = 0;
        while i < n
            invariant
                n == nodes.len(),
                derefs(nodes@) == preorder(*self),
                0 <= i <= n,
                callable_on(*func, preorder(*self)),
                answers(*func, preorder(*self).take(i as int), outs),
                res@ == concat(outs),
            decreases n - i,
        {
            let node = nodes[i];
            assert(derefs(nodes@)[i as int] == *node);
            let mut v = func(node);
            let ghost prev = outs;
            proof {
                outs = outs.push(v);
                assert(outs.drop_last() =~= prev);
            }
            res.append(&mut v);
            i += 1;
        }
        assert(preorder(*self).take(n as int) =~= preorder(*self));
        res
    }

    /// The present answers of `func` on all nodes, in pre-order.
    pub fn collect<F: Fn(&Node) -> Option<R>, R>(&self, func: &F) -> (r: Vec<R>)
        requires
            callable_on(*func, preorder(*self)),
        ensures
            exists|outs: Seq<Option<R>>| answers(*func, preorder(*self), outs) && r@ == somes(outs),
    {
        let nodes = self.pre_order();
        let n = nodes.len();
        let mut res: Vec<R> = Vec::new();
        let ghost mut outs: Seq<Option<R>> = Seq::empty();
        let mut i: usize = 0;
        while i < n
            invariant
                n == nodes.len(),
                derefs(nodes@) == preorder(*self),
                0 <= i <= n,
                callable_on(*func, preorder(*self)),
                answers(*func, preorder(*self).take(i as int), outs),
                res@ == somes(outs),
            decreases n - i,
        {
            let node = nodes[i];
            assert(derefs(nodes@)[i as int] == *node);
            let v = func(node);
            let ghost prev = outs;
            proof {
                outs = outs.push(v);
                assert(outs.drop_last() =~= prev);
            }
            match v {
                Some(x) => {
                    res.push(x);
                },
                None => {},
            }
            i += 1;
        }
        assert(preorder(*self).take(n as int) =~= preorder(*self));
        res
    }

    /// Deep copies of the leaves of this tree, in pre-order.
    pub fn collect_leaves(&self) -> (r: Vec<Node>)
        ensures
            models(r@) == models(leaves(preorder(*self))),
    {
        let nodes = self.pre_order();
        let n = nodes.len();
        let mut res: Vec<Node> = Vec::new();
        let mut i: usize = 0;
        while i < n
            invariant
                n == nodes.len(),
                derefs(nodes@) == preorder(*self),
                0 <= i <= n,
                models(res@) == models(leaves(preorder(*self).take(i as int))),
            decreases n - i,
        {
            let node = nodes[i];
            assert(derefs(nodes@)[i as int] == *node);
            let ghost prev = res@;
            assert(preorder(*self).take(i + 1).drop_last() =~= preorder(*self).take(i as int));
            if node.is_leaf() {
                let c = node.clone_tree();
                res.push(c);
                assert(models(res@) =~= models(prev).push(c.model()));
                assert(models(leaves(preorder(*self).take(i + 1))) =~= models(
                    leaves(preorder(*self).take(i as int)),
                ).push(node.model()));
            } else {
                assert(res@ == prev);
            }
            i += 1;
        }
        assert(preorder(*self).take(n as int) =~= preorder(*self));
        res
    }

    /// A copy of this node whose immediate children are the answers of `func`
    /// on its children, in order.
    pub fn map_children<F: Fn(&Node) -> Node>(&self, func: &F) -> (r: Node)
        requires
            forall|i: int|
                0 <= i < self.children.len() ==> call_requires(*func, (&self.children@[i],)),
        ensures
            r.label@ == self.label@,
            r.children.len() == self.children.len(),
            forall|i: int|
                0 <= i < self.children.len() ==> call_ensures(
                    *func,
                    (&self.children@[i],),
                    #[trigger] r.children@[i],
                ),
    {
        let n = self.children.len();
        let mut children: Vec<Node> = Vec::new();
        let mut i: usize = 0;
        while i < n
            invariant
                n == self.children.len(),
                0 <= i <= n,
                children.len() == i,
                forall|j: int|
                    0 <= j < n ==> call_requires(*func, (&self.children@[j],)),
                forall|j: int|
                    0 <= j < i ==> call_ensures(*func, (&self.children@[j],), #[trigger] children@[j]),
            decreases n - i,
        {
            let c = func(&self.children[i]);
            children.push(c);
            i += 1;
        }
        Node { label: self.label.clone(), children }
    }

    /// Rewrites the tree top-down: `rule` is applied to this node first, then
    /// each child of its replacement (or of this node, when there is none) is
    /// rewritten the same way. A replaced node is not offered to `rule` again.
    pub fn transform_down<F: Fn(&Node) -> Option<Node>>(&self, rule: &F) -> (r: Node)
        requires
            total(*rule),
            keeps_height(*rule),
        ensures
            rewritten_down(*rule, *self, r.model()),
        decreases height(*self),
    {
        let replaced = rule(self);
        let base: &Node = match &replaced {
            Some(m) => m,
            None => self,
        };
        proof {
            lemma_child_lower(*base);
        }
        let n = base.children.len();
        let mut children: Vec<Node> = Vec::new();
        let mut i: usize = 0;
        while i < n
            invariant
                n == base.children.len(),
                height(*base) <= height(*self),
                total(*rule),
                keeps_height(*rule),
                forall|j: int| 0 <= j < n ==> height(#[trigger] base.children@[j]) < height(*base),
                0 <= i <= n,
                children.len() == i,
                forall|j: int|
                    0 <= j < i ==> rewritten_down(*rule, base.children@[j], (#[trigger] children@[j]).model()),
            decreases n - i,
        {
            let c = base.children[i].transform_down(rule);
            children.push(c);
            i += 1;
        }
        let r = Node { label: base.label.clone(), children };
        assert(forall|j: int| 0 <= j < n ==> r.model().children[j] == (#[trigger] r.children@[j]).model());
        match &replaced {
            Some(m) => {
                assert(call_ensures(*rule, (self,), Some(*m)));
            },
            None => {},
        }
        r
    }

    /// Rewrites the tree bottom-up: every child is rewritten first, then
    /// `rule` is applied to the node carrying the rewritten children; its
    /// replacement, or that node when there is none, is the result.
    pub fn transform_up<F: Fn(&Node) -> Option<Node>>(&self, rule: &F) -> (r: Node)
        requires
            total(*rule),
        ensures
            rewritten_up(*rule, *self, r.model()),
        decreases self,
    {
        let n = self.children.len();
        let mut children: Vec<Node> = Vec::new();
        let mut i: usize = 0;
        while i < n
            invariant
                n == self.children.len(),
                total(*rule),
                0 <= i <= n,
                children.len() == i,
                forall|j: int|
                    0 <= j < i ==> rewritten_up(*rule, self.children@[j], (#[trigger] children@[j]).model()),
            decreases n - i,
        {
            let c = self.children[i].transform_up(rule);
            children.push(c);
            i += 1;
        }
        let updated = Node { label: self.label.clone(), children };
        let ghost m = updated;
        let replaced = rule(&updated);
        let ghost o = replaced;
        assert(call_ensures(*rule, (&m,), o));
        let r = match replaced {
            Some(a) => a,
            None => updated,
        };
        assert(forall|j: int|
            0 <= j < n ==> rewritten_up(*rule, #[trigger] self.children@[j], m.children@[j].model()));
        assert(r.model() == match o {
            Some(a) => a.model(),
            None => m.model(),
        });
        r
    }

    fn gen_tree_lines(&self, root: bool, prefix: &str, is_last: bool, buffer: &mut Vec<String>)
        ensures
            views(final(buffer)@) == views(old(buffer)@) + tree_lines(*self, root, prefix@, is_last),
        decreases self,
    {
        proof {
            reveal_strlit("");
            reveal_strlit("+- ");
            reveal_strlit("- ");
        }
        let (mark, width): (&str, usize) = if root {
            ("", 0)
        } else if is_last {
            ("+- ", 3)
        } else {
            ("- ", 2)
        };
        assert(mark@ =~= marker(root, is_last));
        let line = prefix.to_owned().concat(mark).concat(self.label.as_str());
        let ghost start = buffer@;
        buffer.push(line);
        assert(views(buffer@) =~= views(start) + seq![prefix@ + marker(root, is_last) + self.label@]);
        let base = prefix.to_owned().concat(spaces_string(width).as_str());
        let ghost b = base@;
        assert(b =~= prefix@ + spaces(marker(root, is_last).len()));
        let n = self.children.len();
        let mut i: usize = 0;
        while i < n
            invariant
                n == self.children.len(),
                0 <= i <= n,
                base@ == b,
                views(buffer@) == views(start) + seq![prefix@ + marker(root, is_last) + self.label@]
                    + children_lines(*self, b, i as int),
            decreases n - i,
        {
            let last = i == n - 1;
            let child_prefix = if last {
                base.clone()
            } else {
                proof {
                    reveal_strlit(":");
                }
                let p = base.clone().concat(":");
                assert(p@ =~= b.push(':'));
                p
            };
            self.children[i].gen_tree_lines(false, child_prefix.as_str(), last, buffer);
            i += 1;
        }
        assert(views(buffer@) =~= views(old(buffer)@) + tree_lines(*self, root, prefix@, is_last));
    }

    fn rendered(&self) -> (r: Vec<String>)
        ensures
            views(r@) == rendered_lines(*self),
    {
        let mut buffer: Vec<String> = Vec::new();
        proof {
            reveal_strlit("");
        }
        self.gen_tree_lines(true, "", false, &mut buffer);
        assert(views(buffer@) =~= rendered_lines(*self));
        buffer
    }

    /// The tree drawn one node per line, in pre-order, children indented
    /// under their parent.
    pub fn tree_string(&self) -> (r: String)
        ensures
            r@ == join_lines(rendered_lines(*self)),
    {
        let lines = self.rendered();
        join_with_newlines(&lines)
    }

    /// The lines of `tree_string`, each prefixed by its 1-based number,
    /// zero-padded to two digits, and a space.
    pub fn numbered_tree_string(&self) -> (r: String)
        ensures
            r@ == join_lines(numbered(rendered_lines(*self))),
    {
        let lines = self.rendered();
        let n = lines.len();
        let mut out: Vec<String> = Vec::new();
        let mut i: usize = 0;
        while i < n
            invariant
                n == lines.len(),
                views(lines@) == rendered_lines(*self),
                0 <= i <= n,
                views(out@) == numbered(rendered_lines(*self)).take(i as int),
            decreases n - i,
        {
            let line = padded2_string((i + 1) as u64).concat(" ").concat(lines[i].as_str());
            let ghost prev = out@;
            out.push(line);
            assert(views(out@) =~= numbered(rendered_lines(*self)).take(i + 1)) by {
                reveal_strlit(" ");
                assert(" "@ =~= seq![' ']);
                assert(views(out@) =~= views(prev).push(line@));
            }
            i += 1;
        }
        assert(numbered(rendered_lines(*self)).take(n as int) =~= numbered(rendered_lines(*self)));
        join_with_newlines(&out)
    }
}

} // verus!
