//! The nodes of a reconstructed chapter tree.
//!
//! The tree lives in an arena: each node addresses its parent and its
//! children by index into the arena's node list, so the whole tree is
//! owned by one vector and carries no shared-mutability bookkeeping.

use vstd::prelude::*;

use vstd::string::StringExecFns;

verus! {

/// One node of a chapter tree: a tag, its CSS classes in order, the text
/// gathered directly under it, and its place in the arena.
#[derive(Debug, Clone)]
pub struct ChapterNode {
    pub tag: String,
    pub classes: Vec<String>,
    pub content: String,
    pub parent: Option<usize>,
    pub children: Vec<usize>,
}

/// The mathematical value of a [`ChapterNode`].
#[verifier::ext_equal]
pub struct ChapterNodeModel {
    pub tag: Seq<char>,
    pub classes: Seq<Seq<char>>,
    pub content: Seq<char>,
    pub parent: Option<usize>,
    pub children: Seq<usize>,
}

impl DeepView for ChapterNode {
    type V = ChapterNodeModel;

    open spec fn deep_view(&self) -> ChapterNodeModel {
        ChapterNodeModel {
            tag: self.tag@,
            classes: self.classes.deep_view(),
            content: self.content@,
            parent: self.parent,
            children: self.children@,
        }
    }
}

impl ChapterNode {
    /// A fresh node, attached to nothing.
    pub fn new(tag: String, classes: Vec<String>, content: String) -> (r: ChapterNode)
        ensures
            r.deep_view() == (ChapterNodeModel {
                tag: tag@,
                classes: classes.deep_view(),
                content: content@,
                parent: None,
                children: Seq::empty(),
            }),
    {
        let r = ChapterNode { tag, classes, content, parent: None, children: Vec::new() };
        proof {
            assert(r.children@ =~= Seq::<usize>::empty());
        }
        r
    }

    /// Appends text to what this node holds directly; a node's text can
    /// arrive in several pieces around nested children.
    pub fn append_to_content(&mut self, content: &str)
        ensures
            final(self).deep_view() == (ChapterNodeModel {
                content: old(self).content@ + content@,
                ..old(self).deep_view()
            }),
    {
        self.content.append(content);
    }

    /// The text gathered directly under this node.
    pub fn get_content(&self) -> (r: String)
        ensures
            r@ == self.content@,
    {
        self.content.clone()
    }

    /// The arena positions of this node's children, in document order.
    pub fn get_children(&self) -> (r: &Vec<usize>)
        ensures
            r@ == self.children@,
    {
        &self.children
    }

    /// The arena position of this node's parent; the root has none.
    pub fn get_parent(&self) -> (r: Option<usize>)
        ensures
            r == self.parent,
    {
        self.parent
    }
}

/// A chapter tree: an arena of nodes.  Position 0 holds the node the
/// arena was created around; parents always stand before their children.
#[derive(Debug, Clone)]
pub struct ChapterStructure {
    pub nodes: Vec<ChapterNode>,
}

/// The well-formedness of one node: its parent link points strictly
/// backwards, its child links strictly forwards, all within bounds.
pub open spec fn node_wf(nodes: Seq<ChapterNodeModel>, i: int) -> bool {
    &&& (nodes[i].parent matches Some(p) ==> p < i)
    &&& (forall|j: int|
        0 <= j < nodes[i].children.len() ==> i < #[trigger] nodes[i].children[j] < nodes.len())
}

/// The well-formedness of an arena: every node's links are.
pub open spec fn arena_wf(nodes: Seq<ChapterNodeModel>) -> bool {
    forall|i: int| 0 <= i < nodes.len() ==> #[trigger] node_wf(nodes, i)
}

impl ChapterStructure {
    /// The arena's nodes as mathematical values.
    pub open spec fn model(self) -> Seq<ChapterNodeModel> {
        self.nodes.deep_view()
    }

    /// Whether the arena is a well-formed tree.
    pub open spec fn wf(self) -> bool {
        arena_wf(self.model())
    }

    /// An arena holding `root` alone.  Whatever links the given node
    /// carried are severed: it starts the tree.
    pub fn with_root(root: ChapterNode) -> (r: ChapterStructure)
        ensures
            r.model() == seq![
                ChapterNodeModel { parent: None, children: Seq::empty(), ..root.deep_view() },
            ],
            r.wf(),
    {
        let mut base = root;
        base.parent = None;
        base.children = Vec::new();
        let mut nodes: Vec<ChapterNode> = Vec::new();
        nodes.push(base);
        let r = ChapterStructure { nodes };
        proof {
            assert(r.nodes@.len() == 1);
            assert(r.model() =~= seq![r.nodes@[0].deep_view()]);
            assert(r.nodes@[0].children@ =~= Seq::<usize>::empty());
        }
        r
    }

    /// How many nodes the arena holds.
    pub fn len(&self) -> (r: usize)
        ensures
            r == self.nodes@.len(),
    {
        self.nodes.len()
    }

    /// Decides [`ChapterStructure::wf`] at run time, so that callers
    /// outside the proofs can test it before walking the tree.
    pub fn is_well_formed(&self) -> (r: bool)
        ensures
            r == self.wf(),
    {
        let n = self.nodes.len();
        let mut i: usize = 0;
        while i < n
            invariant
                i <= n == self.nodes@.len(),
                forall|k: int| 0 <= k < i ==> node_wf(self.model(), k),
            decreases n - i,
        {
            proof {
                assert(self.model()[i as int] == self.nodes@[i as int].deep_view());
            }
            let node = &self.nodes[i];
            match node.parent {
                Some(p) => {
                    if p >= i {
                        proof {
                            assert(!node_wf(self.model(), i as int));
                        }
                        return false;
                    }
                },
                None => {},
            }
            let mut j: usize = 0;
            while j < node.children.len()
                invariant
                    i < n == self.nodes@.len(),
                    j <= node.children.len(),
                    node == self.nodes@[i as int],
                    forall|t: int|
                        0 <= t < j ==> i < #[trigger] self.model()[i as int].children[t] < n,
                decreases node.children.len() - j,
            {
                let c = node.children[j];
                if c <= i || c >= n {
                    proof {
                        assert(self.model()[i as int] == self.nodes@[i as int].deep_view());
                        assert(self.model()[i as int].children[j as int] == c);
                        assert(!node_wf(self.model(), i as int));
                    }
                    return false;
                }
                proof {
                    assert(self.model()[i as int] == self.nodes@[i as int].deep_view());
                    assert(self.model()[i as int].children[j as int] == c);
                }
                j = j + 1;
            }
            proof {
                assert(node_wf(self.model(), i as int));
            }
            i = i + 1;
        }
        true
    }

    /// The node at position `i`.
    pub fn node(&self, i: usize) -> (r: &ChapterNode)
        requires
            i < self.nodes@.len(),
        ensures
            r.deep_view() == self.model()[i as int],
    {
        &self.nodes[i]
    }

    /// Attaches `child` under the node at `parent` and returns the new
    /// node's position: the child goes to the end of the arena, the
    /// parent's child list grows by that position.
    pub fn add_child(&mut self, parent: usize, child: ChapterNode) -> (idx: usize)
        requires
            parent < old(self).nodes@.len(),
        ensures
            idx == old(self).nodes@.len(),
            final(self).model() == old(self).model().update(
                parent as int,
                ChapterNodeModel {
                    children: old(self).model()[parent as int].children.push(idx),
                    ..old(self).model()[parent as int]
                },
            ).push(
                ChapterNodeModel {
                    parent: Some(parent),
                    children: Seq::empty(),
                    ..child.deep_view()
                },
            ),
            old(self).wf() ==> final(self).wf(),
    {
        let idx = self.nodes.len();
        let mut base = child;
        base.parent = Some(parent);
        base.children = Vec::new();
        let p = &mut self.nodes[parent];
        p.children.push(idx);
        self.nodes.push(base);
        proof {
            let pre = old(self).model();
            let post = self.model();
            let target = pre.update(
                parent as int,
                ChapterNodeModel {
                    children: pre[parent as int].children.push(idx),
                    ..pre[parent as int]
                },
            ).push(
                ChapterNodeModel {
                    parent: Some(parent),
                    children: Seq::empty(),
                    ..child.deep_view()
                },
            );
            assert(self.nodes@[idx as int].children@ =~= Seq::<usize>::empty());
            assert(post =~= target);
            if arena_wf(pre) {
                assert forall|i: int| 0 <= i < post.len() implies #[trigger] node_wf(post, i) by {
                    if i < pre.len() {
                        assert(node_wf(pre, i));
                        if i == parent as int {
                            assert forall|j: int|
                                0 <= j < post[i].children.len() implies i < #[trigger] post[
                                i
                            ].children[j] < post.len() by {
                                if j < pre[i].children.len() {
                                    assert(post[i].children[j] == pre[i].children[j]);
                                }
                            }
                        } else {
                            assert(post[i] == pre[i]);
                        }
                    }
                }
            }
        }
        idx
    }

    /// Appends text to the node at position `i`.
    pub fn append_to_content(&mut self, i: usize, content: &str)
        requires
            i < old(self).nodes@.len(),
        ensures
            final(self).model() == old(self).model().update(
                i as int,
                ChapterNodeModel {
                    content: old(self).model()[i as int].content + content@,
                    ..old(self).model()[i as int]
                },
            ),
            old(self).wf() ==> final(self).wf(),
    {
        let n = &mut self.nodes[i];
        n.append_to_content(content);
        proof {
            let pre = old(self).model();
            let post = self.model();
            let target = pre.update(
                i as int,
                ChapterNodeModel {
                    content: pre[i as int].content + content@,
                    ..pre[i as int]
                },
            );
            assert(post =~= target);
            if arena_wf(pre) {
                assert forall|k: int| 0 <= k < post.len() implies #[trigger] node_wf(post, k) by {
                    assert(node_wf(pre, k));
                    assert(post[k].parent == pre[k].parent);
                    assert(post[k].children == pre[k].children);
                }
            }
        }
    }
}

} // verus!
