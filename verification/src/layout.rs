//! What a tree is drawn as, stated over the trees themselves.
//!
//! Siblings are flattened first: a fragment gives way to its nodes. A tree
//! then has its lines: a leaf one, a branch its label and below it one
//! block for each child, the child's own lines behind a connector and a
//! continuation. The empty node is a line without text, so that it keeps
//! its place, and its connector, among its siblings.

use crate::TreeView;
use vstd::prelude::*;

verus! {

/// The strings that a rendering is drawn with.
pub struct ConfigView {
    pub indent_width: nat,
    pub branch_connector: Seq<char>,
    pub last_connector: Seq<char>,
    pub continuation: Seq<char>,
    pub blank_continuation: Seq<char>,
}

/// A sibling list with every fragment replaced, in place, by its own
/// flattened nodes. No element of the result is a fragment.
pub open spec fn flatten(nodes: Seq<TreeView>) -> Seq<TreeView>
    decreases nodes,
{
    if nodes.len() == 0 {
        Seq::empty()
    } else {
        let before = flatten(nodes.drop_last());
        match nodes.last() {
            TreeView::Fragment { nodes: inner } => before + flatten(inner),
            node => before.push(node),
        }
    }
}

/// Every flattened node sits strictly inside the list it was flattened from.
pub proof fn lemma_flatten_decreases(nodes: Seq<TreeView>, i: int)
    requires
        0 <= i < flatten(nodes).len(),
    ensures
        decreases_to!(nodes => flatten(nodes)[i]),
    decreases nodes,
{
    let before = flatten(nodes.drop_last());
    if i < before.len() {
        lemma_flatten_decreases(nodes.drop_last(), i);
    } else {
        match nodes.last() {
            TreeView::Fragment { nodes: inner } => {
                lemma_flatten_decreases(inner, i - before.len());
            },
            node => {},
        }
    }
}

/// No flattened node is a fragment.
pub proof fn lemma_flatten_no_fragment(nodes: Seq<TreeView>, i: int)
    requires
        0 <= i < flatten(nodes).len(),
    ensures
        !(flatten(nodes)[i] is Fragment),
    decreases nodes,
{
    let before = flatten(nodes.drop_last());
    if i < before.len() {
        lemma_flatten_no_fragment(nodes.drop_last(), i);
    } else {
        match nodes.last() {
            TreeView::Fragment { nodes: inner } => {
                lemma_flatten_no_fragment(inner, i - before.len());
            },
            node => {},
        }
    }
}

/// The lines of one laid-out node with `first` in front of its first line
/// and `rest` in front of each line after it.
pub open spec fn decorate(lines: Seq<Seq<char>>, first: Seq<char>, rest: Seq<char>) -> Seq<
    Seq<char>,
> {
    Seq::new(
        lines.len(),
        |i: int|
            if i == 0 {
                first + lines[i]
            } else {
                rest + lines[i]
            },
    )
}

/// Indenting decorated lines by `indent` decorates the plain lines with the
/// longer prefixes.
pub proof fn lemma_decorate_indented(
    lines: Seq<Seq<char>>,
    first: Seq<char>,
    rest: Seq<char>,
    indent: Seq<char>,
)
    ensures
        decorate(decorate(lines, first, rest), indent, indent) == decorate(
            lines,
            indent + first,
            indent + rest,
        ),
{
    let inner = decorate(lines, first, rest);
    assert forall|i: int| 0 <= i < lines.len() implies decorate(inner, indent, indent)[i]
        == decorate(lines, indent + first, indent + rest)[i] by {
        assert(indent + (first + lines[i]) =~= (indent + first) + lines[i]);
        assert(indent + (rest + lines[i]) =~= (indent + rest) + lines[i]);
    }
}

/// The connector drawn in front of child `i` of `count`.
pub open spec fn connector_at(cfg: ConfigView, i: int, count: int) -> Seq<char> {
    if i + 1 == count {
        cfg.last_connector
    } else {
        cfg.branch_connector
    }
}

/// The indentation drawn in front of what hangs below child `i` of `count`.
pub open spec fn continuation_at(cfg: ConfigView, i: int, count: int) -> Seq<char> {
    if i + 1 == count {
        cfg.blank_continuation
    } else {
        cfg.continuation
    }
}

/// The lines of a tree that stands alone: a leaf is its text, the empty
/// node a line without text, a branch its label above the blocks of its
/// children, a fragment the lines of its flattened nodes one after another.
pub open spec fn lines(tree: TreeView, cfg: ConfigView) -> Seq<Seq<char>>
    decreases tree,
{
    match tree {
        TreeView::Empty => seq![Seq::empty()],
        TreeView::Value { text } => seq![text],
        TreeView::Branch { label, children } => seq![label] + child_blocks(children, cfg).flatten(),
        TreeView::Fragment { nodes } => root_blocks(nodes, cfg).flatten(),
    }
}

/// One block of lines for each flattened child of a branch: the child's own
/// lines behind its connector and, from the second line on, its continuation.
pub open spec fn child_blocks(children: Seq<TreeView>, cfg: ConfigView) -> Seq<Seq<Seq<char>>>
    decreases children,
{
    let kids = flatten(children);
    Seq::new(
        kids.len(),
        |i: int|
            if 0 <= i < kids.len() {
                proof {
                    lemma_flatten_decreases(children, i);
                }
                decorate(
                    lines(kids[i], cfg),
                    connector_at(cfg, i, kids.len() as int),
                    continuation_at(cfg, i, kids.len() as int),
                )
            } else {
                Seq::empty()
            },
    )
}

/// One block of lines for each flattened node of a fragment that stands alone.
pub open spec fn root_blocks(nodes: Seq<TreeView>, cfg: ConfigView) -> Seq<Seq<Seq<char>>>
    decreases nodes,
{
    let kids = flatten(nodes);
    Seq::new(
        kids.len(),
        |i: int|
            if 0 <= i < kids.len() {
                proof {
                    lemma_flatten_decreases(nodes, i);
                }
                lines(kids[i], cfg)
            } else {
                Seq::empty()
            },
    )
}

/// The number of lines in the blocks that stand before block `i`.
pub open spec fn lines_before(blocks: Seq<Seq<Seq<char>>>, i: int) -> int
    decreases i,
{
    if i <= 0 {
        0
    } else {
        lines_before(blocks, i - 1) + blocks[i - 1].len()
    }
}

/// The lines with one line feed between each two neighbours, and none at
/// either end.
pub open spec fn joined(lines: Seq<Seq<char>>) -> Seq<char>
    decreases lines.len(),
{
    if lines.len() == 0 {
        Seq::empty()
    } else if lines.len() == 1 {
        lines[0]
    } else {
        joined(lines.drop_last()) + seq!['\n'] + lines.last()
    }
}

/// The text of a tree that stands alone.
pub open spec fn render(tree: TreeView, cfg: ConfigView) -> Seq<char> {
    joined(lines(tree, cfg))
}

/// The strings of the customary box-drawing layout.
pub open spec fn default_config() -> ConfigView {
    ConfigView {
        indent_width: 2,
        branch_connector: "├── "@,
        last_connector: "└── "@,
        continuation: "│   "@,
        blank_continuation: "    "@,
    }
}

} // verus!
