//! Trees of text and their drawing as indented, connector-decorated lines.
//!
//! This file holds the tree itself, what it stands for, and the ways to
//! build one. `layout` says what a tree is drawn as, `formatter` draws it,
//! and `laws` states what holds of every drawing.

use std::fmt::Display;
use vstd::prelude::*;
use vstd::string::*;

pub mod formatter;
pub mod laws;
pub mod layout;

verus! {

/// A terminal leaf: one piece of text.
#[derive(Debug)]
pub struct PrettyValue {
    pub text: String,
}

/// A labelled interior node with ordered children.
#[derive(Debug)]
pub struct PrettyBranch {
    pub label: String,
    pub children: Vec<PrettyTree>,
}

/// An unlabelled group whose nodes are spliced into the surrounding sibling list.
#[derive(Debug)]
pub struct PrettyFragment {
    pub nodes: Vec<PrettyTree>,
}

/// A renderable tree.
#[derive(Debug)]
pub enum PrettyTree {
    /// Nothing to show. Where it is drawn it is a line without text.
    Empty,
    /// A terminal leaf node.
    Value(PrettyValue),
    /// A branch node.
    Branch(PrettyBranch),
    /// A fragment node.
    Fragment(PrettyFragment),
}

/// The mathematical tree that a `PrettyTree` stands for.
pub enum TreeView {
    Empty,
    Value { text: Seq<char> },
    Branch { label: Seq<char>, children: Seq<TreeView> },
    Fragment { nodes: Seq<TreeView> },
}

/// The views of a sequence of trees, in order.
pub open spec fn views_of(nodes: Seq<PrettyTree>) -> Seq<TreeView>
    decreases nodes,
{
    Seq::new(
        nodes.len(),
        |i: int|
            if 0 <= i < nodes.len() {
                nodes[i]@
            } else {
                TreeView::Empty
            },
    )
}

impl View for PrettyTree {
    type V = TreeView;

    open spec fn view(&self) -> TreeView
        decreases self,
    {
        match self {
            PrettyTree::Empty => TreeView::Empty,
            PrettyTree::Value(v) => TreeView::Value { text: v.text@ },
            PrettyTree::Branch(b) => TreeView::Branch {
                label: b.label@,
                children: views_of(b.children@),
            },
            PrettyTree::Fragment(f) => TreeView::Fragment { nodes: views_of(f.nodes@) },
        }
    }
}

impl View for PrettyValue {
    type V = TreeView;

    open spec fn view(&self) -> TreeView {
        TreeView::Value { text: self.text@ }
    }
}

impl View for PrettyBranch {
    type V = TreeView;

    open spec fn view(&self) -> TreeView {
        TreeView::Branch { label: self.label@, children: views_of(self.children@) }
    }
}

impl View for PrettyFragment {
    type V = TreeView;

    open spec fn view(&self) -> TreeView {
        TreeView::Fragment { nodes: views_of(self.nodes@) }
    }
}

/// Copies a sequence of trees, one by one.
fn clone_nodes(nodes: &[PrettyTree]) -> (copy: Vec<PrettyTree>)
    ensures
        views_of(copy@) == views_of(nodes@),
    decreases nodes@,
{
    let mut copy: Vec<PrettyTree> = Vec::new();
    let mut i: usize = 0;
    while i < nodes.len()
        invariant
            i <= nodes.len(),
            copy.len() == i,
            forall|j: int| 0 <= j < i ==> copy[j]@ == nodes[j]@,
        decreases nodes.len() - i,
    {
        let node = nodes[i].clone();
        copy.push(node);
        i += 1;
    }
    copy
}

impl Clone for PrettyTree {
    fn clone(&self) -> (copy: Self)
        ensures
            copy@ == self@,
        decreases self,
    {
        match self {
            PrettyTree::Empty => PrettyTree::Empty,
            PrettyTree::Value(v) => PrettyTree::Value(PrettyValue { text: v.text.clone() }),
            PrettyTree::Branch(b) => PrettyTree::Branch(
                PrettyBranch {
                    label: b.label.clone(),
                    children: clone_nodes(b.children.as_slice()),
                },
            ),
            PrettyTree::Fragment(f) => PrettyTree::Fragment(
                PrettyFragment { nodes: clone_nodes(f.nodes.as_slice()) },
            ),
        }
    }
}

impl Clone for PrettyValue {
    fn clone(&self) -> (copy: Self)
        ensures
            copy@ == self@,
    {
        PrettyValue { text: self.text.clone() }
    }
}

impl Clone for PrettyBranch {
    fn clone(&self) -> (copy: Self)
        ensures
            copy@ == self@,
    {
        PrettyBranch { label: self.label.clone(), children: clone_nodes(self.children.as_slice()) }
    }
}

impl Clone for PrettyFragment {
    fn clone(&self) -> (copy: Self)
        ensures
            copy@ == self@,
    {
        PrettyFragment { nodes: clone_nodes(self.nodes.as_slice()) }
    }
}

impl Default for PrettyTree {
    fn default() -> (tree: Self)
        ensures
            tree@ == TreeView::Empty,
    {
        PrettyTree::Empty
    }
}

/// The conversion that lets a type of the caller be rendered as a tree.
pub trait ToPrettyTree {
    /// The tree that stands for `self`.
    fn to_pretty_tree(&self) -> PrettyTree;
}

impl ToPrettyTree for PrettyTree {
    /// A tree converts to a copy of itself.
    fn to_pretty_tree(&self) -> (tree: PrettyTree)
        ensures
            tree@ == self@,
    {
        self.clone()
    }
}

/// `nodes` holds, in order, one tree for each item: a tree that the item's
/// own conversion may hand out for it.
pub open spec fn converted<T: ToPrettyTree>(items: Seq<T>, nodes: Seq<PrettyTree>) -> bool {
    &&& nodes.len() == items.len()
    &&& forall|i: int|
        0 <= i < items.len() ==> call_ensures(T::to_pretty_tree, (&items[i],), #[trigger] nodes[i])
}

/// Converts each item to its tree, in order.
fn convert_all<T: ToPrettyTree>(items: &[T]) -> (nodes: Vec<PrettyTree>)
    ensures
        converted(items@, nodes@),
{
    let mut nodes: Vec<PrettyTree> = Vec::new();
    let mut i: usize = 0;
    while i < items.len()
        invariant
            i <= items.len(),
            nodes.len() == i,
            forall|j: int|
                0 <= j < i ==> call_ensures(T::to_pretty_tree, (&items[j],), #[trigger] nodes[j]),
        decreases items.len() - i,
    {
        let node = items[i].to_pretty_tree();
        nodes.push(node);
        i += 1;
    }
    nodes
}

impl PrettyTree {
    /// The node that holds nothing.
    pub fn empty() -> (tree: Self)
        ensures
            tree@ == TreeView::Empty,
    {
        PrettyTree::Empty
    }

    /// A leaf whose text is what `value` displays as.
    pub fn value<T: Display + ?Sized>(value: &T) -> (tree: Self)
        ensures
            tree matches PrettyTree::Value(leaf) && to_string_from_display_ensures::<T>(
                value,
                leaf.text,
            ),
    {
        PrettyTree::Value(PrettyValue { text: value.to_string() })
    }

    /// A leaf whose text is what `value` displays as.
    pub fn string<T: Display>(value: T) -> (tree: Self)
        ensures
            tree matches PrettyTree::Value(leaf) && to_string_from_display_ensures::<T>(
                &value,
                leaf.text,
            ),
    {
        PrettyTree::Value(PrettyValue { text: value.to_string() })
    }

    /// A leaf with the given text.
    pub fn str(value: &str) -> (tree: Self)
        ensures
            tree@ == (TreeView::Value { text: value@ }),
    {
        PrettyTree::Value(PrettyValue { text: value.to_owned() })
    }

    /// A fragment of the trees that the items convert to, in their order.
    pub fn fragment<T: ToPrettyTree>(list: Vec<T>) -> (tree: Self)
        ensures
            tree matches PrettyTree::Fragment(group) && converted(list@, group.nodes@),
    {
        PrettyTree::Fragment(PrettyFragment { nodes: convert_all(list.as_slice()) })
    }

    /// A branch with the given label over copies of the given children.
    pub fn branch_of(label: &str, children: &[PrettyTree]) -> (tree: Self)
        ensures
            tree@ == (TreeView::Branch { label: label@, children: views_of(children@) }),
    {
        PrettyTree::Branch(
            PrettyBranch { label: label.to_owned(), children: clone_nodes(children) },
        )
    }

    /// The leaf as a tree.
    pub fn some_value(value: PrettyValue) -> (tree: Self)
        ensures
            tree == PrettyTree::Value(value),
            tree@ == value@,
    {
        PrettyTree::Value(value)
    }

    /// The branch as a tree.
    pub fn some_branch(branch: PrettyBranch) -> (tree: Self)
        ensures
            tree == PrettyTree::Branch(branch),
            tree@ == branch@,
    {
        PrettyTree::Branch(branch)
    }

    /// The fragment as a tree.
    pub fn some_fragment(fragment: PrettyFragment) -> (tree: Self)
        ensures
            tree == PrettyTree::Fragment(fragment),
            tree@ == fragment@,
    {
        PrettyTree::Fragment(fragment)
    }
}

impl PrettyValue {
    /// A leaf with the given text.
    pub fn from_str(value: &str) -> (leaf: Self)
        ensures
            leaf@ == (TreeView::Value { text: value@ }),
    {
        PrettyValue { text: value.to_owned() }
    }

    /// A leaf whose text is what `value` displays as.
    pub fn from_string<T: Display>(value: T) -> (leaf: Self)
        ensures
            to_string_from_display_ensures::<T>(&value, leaf.text),
    {
        PrettyValue { text: value.to_string() }
    }
}

impl PrettyBranch {
    /// A branch labelled with what `label` displays as, over the trees that
    /// the children convert to, in their order.
    pub fn from_iter<Label: Display + ?Sized, Child: ToPrettyTree>(
        label: &Label,
        children: Vec<Child>,
    ) -> (branch: Self)
        ensures
            to_string_from_display_ensures::<Label>(label, branch.label),
            converted(children@, branch.children@),
    {
        PrettyBranch { label: label.to_string(), children: convert_all(children.as_slice()) }
    }
}

impl PrettyFragment {
    /// A fragment of the trees that the items convert to, in their order.
    pub fn from_iter<Value: ToPrettyTree>(list: Vec<Value>) -> (group: Self)
        ensures
            converted(list@, group.nodes@),
    {
        PrettyFragment { nodes: convert_all(list.as_slice()) }
    }
}

} // verus!
