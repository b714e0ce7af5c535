//! What holds of every drawing.

use crate::formatter::RenderConfig;
use crate::layout::{
    child_blocks, connector_at, continuation_at, default_config, flatten,
    lemma_flatten_decreases, lemma_flatten_no_fragment, lines, lines_before, render, root_blocks,
    ConfigView,
};
use crate::PrettyTree;
use crate::TreeView;
use vstd::prelude::*;

verus! {

// Flattening.

/// A sibling list that holds no fragment is its own flattening.
pub proof fn lemma_flatten_plain(nodes: Seq<TreeView>)
    requires
        forall|i: int| 0 <= i < nodes.len() ==> !(#[trigger] nodes[i] is Fragment),
    ensures
        flatten(nodes) == nodes,
    decreases nodes.len(),
{
    if nodes.len() > 0 {
        lemma_flatten_plain(nodes.drop_last());
    }
}

/// Flattening is idempotent: a flattened sibling list flattens to itself.
pub proof fn lemma_flatten_idempotent(nodes: Seq<TreeView>)
    ensures
        flatten(flatten(nodes)) == flatten(nodes),
{
    assert forall|i: int| 0 <= i < flatten(nodes).len() implies !(#[trigger] flatten(nodes)[i]
        is Fragment) by {
        lemma_flatten_no_fragment(nodes, i);
    }
    lemma_flatten_plain(flatten(nodes));
}

/// Flattening goes through concatenation: two sibling lists one after the
/// other flatten to their flattenings one after the other.
pub proof fn lemma_flatten_concat(front: Seq<TreeView>, back: Seq<TreeView>)
    ensures
        flatten(front + back) == flatten(front) + flatten(back),
    decreases back.len(),
{
    if back.len() > 0 {
        assert((front + back).drop_last() =~= front + back.drop_last());
        lemma_flatten_concat(front, back.drop_last());
    }
}

/// A fragment alone among its siblings flattens to its own flattened nodes.
pub proof fn lemma_flatten_fragment(inner: Seq<TreeView>)
    ensures
        flatten(seq![TreeView::Fragment { nodes: inner }]) == flatten(inner),
{
    let single = seq![TreeView::Fragment { nodes: inner }];
    assert(flatten(single.drop_last()) =~= Seq::<TreeView>::empty());
}

/// Flattening is associative: a fragment among its siblings flattens as if
/// its nodes stood there in its place.
pub proof fn lemma_flatten_splice(before: Seq<TreeView>, inner: Seq<TreeView>, after: Seq<TreeView>)
    ensures
        flatten(before + seq![TreeView::Fragment { nodes: inner }] + after) == flatten(
            before + inner + after,
        ),
{
    let single = seq![TreeView::Fragment { nodes: inner }];
    lemma_flatten_concat(before + single, after);
    lemma_flatten_concat(before, single);
    lemma_flatten_fragment(inner);
    lemma_flatten_concat(before + inner, after);
    lemma_flatten_concat(before, inner);
}

// Fragments add no level.

/// Sibling lists with one flattening are laid out below a branch alike.
pub proof fn lemma_child_blocks_by_flattening(
    left: Seq<TreeView>,
    right: Seq<TreeView>,
    cfg: ConfigView,
)
    requires
        flatten(left) == flatten(right),
    ensures
        child_blocks(left, cfg) == child_blocks(right, cfg),
{
}

/// Sibling lists with one flattening are laid out at the root alike.
pub proof fn lemma_root_blocks_by_flattening(
    left: Seq<TreeView>,
    right: Seq<TreeView>,
    cfg: ConfigView,
)
    requires
        flatten(left) == flatten(right),
    ensures
        root_blocks(left, cfg) == root_blocks(right, cfg),
{
}

/// A fragment that holds fragments renders as the one fragment that holds
/// its fully flattened nodes.
pub proof fn lemma_fragment_renders_flattened(nodes: Seq<TreeView>, cfg: ConfigView)
    ensures
        lines(TreeView::Fragment { nodes }, cfg) == lines(
            TreeView::Fragment { nodes: flatten(nodes) },
            cfg,
        ),
        render(TreeView::Fragment { nodes }, cfg) == render(
            TreeView::Fragment { nodes: flatten(nodes) },
            cfg,
        ),
{
    lemma_flatten_idempotent(nodes);
}

/// A branch over fragments renders as the branch over its fully flattened
/// children.
pub proof fn lemma_branch_renders_flattened(
    label: Seq<char>,
    children: Seq<TreeView>,
    cfg: ConfigView,
)
    ensures
        lines(TreeView::Branch { label, children }, cfg) == lines(
            TreeView::Branch { label, children: flatten(children) },
            cfg,
        ),
        render(TreeView::Branch { label, children }, cfg) == render(
            TreeView::Branch { label, children: flatten(children) },
            cfg,
        ),
{
    lemma_flatten_idempotent(children);
}

/// A fragment among the children of a branch adds no level: the branch
/// renders as if the fragment's nodes were its children at that place.
pub proof fn lemma_fragment_is_transparent(
    label: Seq<char>,
    before: Seq<TreeView>,
    inner: Seq<TreeView>,
    after: Seq<TreeView>,
    cfg: ConfigView,
)
    ensures
        render(
            TreeView::Branch {
                label,
                children: before + seq![TreeView::Fragment { nodes: inner }] + after,
            },
            cfg,
        ) == render(TreeView::Branch { label, children: before + inner + after }, cfg),
{
    lemma_flatten_splice(before, inner, after);
}

/// A fragment that stands alone is drawn as its flattened nodes one below
/// the other, each as if it stood alone: no line of its own, no connector.
pub proof fn lemma_root_fragment_blocks(nodes: Seq<TreeView>, cfg: ConfigView)
    ensures
        lines(TreeView::Fragment { nodes }, cfg) == root_blocks(nodes, cfg).flatten(),
        root_blocks(nodes, cfg).len() == flatten(nodes).len(),
        forall|i: int|
            0 <= i < flatten(nodes).len() ==> #[trigger] root_blocks(nodes, cfg)[i] == lines(
                flatten(nodes)[i],
                cfg,
            ),
{
}

// Nodes without children.

/// A leaf is one line, its text, whatever the configuration: nothing is
/// drawn below it.
pub proof fn lemma_value_is_one_line(text: Seq<char>, cfg: ConfigView)
    ensures
        lines(TreeView::Value { text }, cfg) == seq![text],
        render(TreeView::Value { text }, cfg) == text,
{
}

/// The empty node is one line without text.
pub proof fn lemma_empty_is_one_blank_line(cfg: ConfigView)
    ensures
        lines(TreeView::Empty, cfg) == seq![Seq::<char>::empty()],
        render(TreeView::Empty, cfg) == Seq::<char>::empty(),
{
}

/// A branch whose children flatten to nothing is one line, its label, and
/// renders as the label alone.
pub proof fn lemma_childless_branch(label: Seq<char>, children: Seq<TreeView>, cfg: ConfigView)
    requires
        flatten(children).len() == 0,
    ensures
        lines(TreeView::Branch { label, children }, cfg) == seq![label],
        render(TreeView::Branch { label, children }, cfg) == label,
{
}

/// Every tree but a fragment has a first line.
pub proof fn lemma_node_has_a_line(tree: TreeView, cfg: ConfigView)
    requires
        !(tree is Fragment),
    ensures
        lines(tree, cfg).len() >= 1,
{
}

// The children of a branch.

/// Below a branch stands one block of lines for each flattened child, in
/// order. A block is the child's own lines: the first behind the child's
/// connector, each further one behind the child's continuation. So the
/// lines that carry a connector of this branch are as many as its
/// flattened children.
pub proof fn lemma_one_block_per_child(label: Seq<char>, children: Seq<TreeView>, cfg: ConfigView)
    ensures
        lines(TreeView::Branch { label, children }, cfg) == seq![label] + child_blocks(
            children,
            cfg,
        ).flatten(),
        child_blocks(children, cfg).len() == flatten(children).len(),
        forall|i: int|
            #![trigger child_blocks(children, cfg)[i]]
            0 <= i < flatten(children).len() ==> {
                let count = flatten(children).len() as int;
                let block = child_blocks(children, cfg)[i];
                let own = lines(flatten(children)[i], cfg);
                &&& block.len() == own.len()
                &&& block.len() >= 1
                &&& block[0] == connector_at(cfg, i, count) + own[0]
                &&& forall|j: int|
                    1 <= j < block.len() ==> #[trigger] block[j] == continuation_at(cfg, i, count)
                        + own[j]
            },
{
    assert forall|i: int| 0 <= i < flatten(children).len() implies lines(
        #[trigger] flatten(children)[i],
        cfg,
    ).len() >= 1 by {
        lemma_flatten_no_fragment(children, i);
    }
}

/// A leaf among the children of a branch is the single line of its block:
/// its connector and its text.
pub proof fn lemma_leaf_block(children: Seq<TreeView>, i: int, cfg: ConfigView)
    requires
        0 <= i < flatten(children).len(),
        flatten(children)[i] is Value,
    ensures
        child_blocks(children, cfg)[i] == seq![
            connector_at(cfg, i, flatten(children).len() as int) + flatten(children)[i]->text,
        ],
{
}

/// The blocks before block `i`, laid end to end, are as many lines as
/// `lines_before` counts.
proof fn lemma_lines_before(blocks: Seq<Seq<Seq<char>>>, i: int)
    requires
        0 <= i <= blocks.len(),
    ensures
        blocks.take(i).flatten().len() == lines_before(blocks, i),
    decreases i,
{
    if i > 0 {
        lemma_lines_before(blocks, i - 1);
        assert(blocks.take(i) =~= blocks.take(i - 1).push(blocks[i - 1]));
        blocks.take(i - 1).lemma_flatten_push(blocks[i - 1]);
    }
}

/// Blocks laid end to end keep their lines in place: line `j` of block `i`
/// comes after all the lines of the blocks before it.
pub proof fn lemma_block_in_place(blocks: Seq<Seq<Seq<char>>>, i: int, j: int)
    requires
        0 <= i < blocks.len(),
        0 <= j < blocks[i].len(),
    ensures
        0 <= lines_before(blocks, i) + j < blocks.flatten().len(),
        blocks.flatten()[lines_before(blocks, i) + j] == blocks[i][j],
        blocks.flatten().len() == lines_before(blocks, blocks.len() as int),
{
    lemma_lines_before(blocks, i);
    lemma_lines_before(blocks, blocks.len() as int);
    assert(blocks.take(blocks.len() as int) =~= blocks);
    assert(blocks =~= blocks.take(i) + blocks.skip(i));
    vstd::seq_lib::lemma_flatten_concat(blocks.take(i), blocks.skip(i));
}

/// In the lines of a branch each flattened child has its place: after the
/// label and the blocks of the children before it comes its first line
/// behind its connector, then its further lines behind its continuation.
pub proof fn lemma_child_in_place(
    label: Seq<char>,
    children: Seq<TreeView>,
    cfg: ConfigView,
    i: int,
)
    requires
        0 <= i < flatten(children).len(),
    ensures
        ({
            let count = flatten(children).len() as int;
            let all = lines(TreeView::Branch { label, children }, cfg);
            let own = lines(flatten(children)[i], cfg);
            let start = 1 + lines_before(child_blocks(children, cfg), i);
            &&& all[0] == label
            &&& all.len() == 1 + lines_before(child_blocks(children, cfg), count)
            &&& own.len() >= 1
            &&& start + own.len() <= all.len()
            &&& all[start] == connector_at(cfg, i, count) + own[0]
            &&& forall|j: int|
                1 <= j < own.len() ==> #[trigger] all[start + j] == continuation_at(cfg, i, count)
                    + own[j]
        }),
{
    let blocks = child_blocks(children, cfg);
    let body = blocks.flatten();
    let all = lines(TreeView::Branch { label, children }, cfg);
    let own = lines(flatten(children)[i], cfg);
    let before = lines_before(blocks, i);
    lemma_flatten_no_fragment(children, i);
    assert forall|j: int| 0 <= j < own.len() implies {
        &&& 0 <= before + j < body.len()
        &&& #[trigger] all[1 + before + j] == blocks[i][j]
    } by {
        lemma_block_in_place(blocks, i, j);
    }
    lemma_block_in_place(blocks, i, 0);
    lemma_block_in_place(blocks, i, own.len() - 1);
}

// Connectors.

/// In a group of siblings the last one is drawn behind the last connector
/// and every other one behind the branch connector.
pub proof fn lemma_last_child_connector(cfg: ConfigView, count: int)
    requires
        count >= 1,
    ensures
        connector_at(cfg, count - 1, count) == cfg.last_connector,
        continuation_at(cfg, count - 1, count) == cfg.blank_continuation,
        forall|i: int|
            0 <= i < count - 1 ==> #[trigger] connector_at(cfg, i, count) == cfg.branch_connector,
        forall|i: int|
            0 <= i < count - 1 ==> #[trigger] continuation_at(cfg, i, count) == cfg.continuation,
{
}

/// Where the two connectors differ, exactly one sibling of a group is
/// drawn behind the last connector: the last one.
pub proof fn lemma_one_last_connector(cfg: ConfigView, count: int, i: int)
    requires
        0 <= i < count,
        cfg.branch_connector != cfg.last_connector,
    ensures
        connector_at(cfg, i, count) == cfg.last_connector <==> i == count - 1,
{
}

/// Where the two connectors are equally long and differ, the lines of a
/// branch show which child is the last: the first line of a child begins
/// with the last connector if and only if no sibling follows it.
pub proof fn lemma_last_connector_marks_last_child(
    label: Seq<char>,
    children: Seq<TreeView>,
    cfg: ConfigView,
    i: int,
)
    requires
        0 <= i < flatten(children).len(),
        cfg.branch_connector.len() == cfg.last_connector.len(),
        cfg.branch_connector != cfg.last_connector,
    ensures
        ({
            let all = lines(TreeView::Branch { label, children }, cfg);
            let start = 1 + lines_before(child_blocks(children, cfg), i);
            cfg.last_connector.is_prefix_of(all[start]) <==> i + 1 == flatten(children).len()
        }),
{
    let all = lines(TreeView::Branch { label, children }, cfg);
    let start = 1 + lines_before(child_blocks(children, cfg), i);
    let width = cfg.last_connector.len() as int;
    lemma_child_in_place(label, children, cfg, i);
    assert(all[start].subrange(0, width) =~= connector_at(
        cfg,
        i,
        flatten(children).len() as int,
    ));
}

/// The customary connectors are equally long and differ.
pub proof fn lemma_default_connectors_differ()
    ensures
        default_config().branch_connector.len() == default_config().last_connector.len(),
        default_config().branch_connector != default_config().last_connector,
{
    reveal_strlit("├── ");
    reveal_strlit("└── ");
    assert("├── "@[0] != "└── "@[0]);
}

// Two drawings, for any texts and strings.

/// A branch over two leaves draws the first behind the branch connector
/// and the second behind the last connector.
pub proof fn lemma_two_leaves_shape(
    label: Seq<char>,
    one: Seq<char>,
    two: Seq<char>,
    cfg: ConfigView,
)
    ensures
        lines(
            TreeView::Branch {
                label,
                children: seq![TreeView::Value { text: one }, TreeView::Value { text: two }],
            },
            cfg,
        ) == seq![label, cfg.branch_connector + one, cfg.last_connector + two],
{
    let kids = seq![TreeView::Value { text: one }, TreeView::Value { text: two }];
    reveal_with_fuel(flatten, 3);
    assert(kids.drop_last() =~= seq![TreeView::Value { text: one }]);
    assert(kids.drop_last().drop_last() =~= seq![]);
    assert(flatten(kids) =~= kids);
    let blocks = child_blocks(kids, cfg);
    assert(blocks[0] =~= seq![cfg.branch_connector + one]);
    assert(blocks[1] =~= seq![cfg.last_connector + two]);
    assert(blocks =~= seq![seq![cfg.branch_connector + one], seq![cfg.last_connector + two]]);
    reveal_with_fuel(Seq::flatten, 3);
    assert(blocks.flatten() =~= seq![cfg.branch_connector + one, cfg.last_connector + two]);
    assert(lines(TreeView::Branch { label, children: kids }, cfg) =~= seq![
        label,
        cfg.branch_connector + one,
        cfg.last_connector + two,
    ]);
}

/// What hangs below an only child is indented by the blank continuation;
/// what hangs below a child with a later sibling, by the continuation.
pub proof fn lemma_nested_shape(
    root: Seq<char>,
    mid: Seq<char>,
    one: Seq<char>,
    two: Seq<char>,
    late: Seq<char>,
    cfg: ConfigView,
)
    ensures
        ({
            let inner = TreeView::Branch {
                label: mid,
                children: seq![TreeView::Value { text: one }, TreeView::Value { text: two }],
            };
            &&& lines(TreeView::Branch { label: root, children: seq![inner] }, cfg) == seq![
                root,
                cfg.last_connector + mid,
                cfg.blank_continuation + (cfg.branch_connector + one),
                cfg.blank_continuation + (cfg.last_connector + two),
            ]
            &&& lines(
                TreeView::Branch {
                    label: root,
                    children: seq![inner, TreeView::Value { text: late }],
                },
                cfg,
            ) == seq![
                root,
                cfg.branch_connector + mid,
                cfg.continuation + (cfg.branch_connector + one),
                cfg.continuation + (cfg.last_connector + two),
                cfg.last_connector + late,
            ]
        }),
{
    let inner = TreeView::Branch {
        label: mid,
        children: seq![TreeView::Value { text: one }, TreeView::Value { text: two }],
    };
    lemma_two_leaves_shape(mid, one, two, cfg);
    reveal_with_fuel(flatten, 3);
    reveal_with_fuel(Seq::flatten, 3);
    let alone = seq![inner];
    assert(alone.drop_last() =~= seq![]);
    assert(flatten(alone) =~= alone);
    let blocks = child_blocks(alone, cfg);
    let block = seq![
        cfg.last_connector + mid,
        cfg.blank_continuation + (cfg.branch_connector + one),
        cfg.blank_continuation + (cfg.last_connector + two),
    ];
    assert(blocks[0] =~= block);
    assert(blocks =~= seq![block]);
    assert(blocks.flatten() =~= block);
    assert(lines(TreeView::Branch { label: root, children: alone }, cfg) =~= seq![root] + block);

    let pair = seq![inner, TreeView::Value { text: late }];
    assert(pair.drop_last() =~= alone);
    assert(flatten(pair) =~= pair);
    let blocks2 = child_blocks(pair, cfg);
    let block2 = seq![
        cfg.branch_connector + mid,
        cfg.continuation + (cfg.branch_connector + one),
        cfg.continuation + (cfg.last_connector + two),
    ];
    assert(blocks2[0] =~= block2);
    assert(blocks2[1] =~= seq![cfg.last_connector + late]);
    assert(blocks2 =~= seq![block2, seq![cfg.last_connector + late]]);
    assert(blocks2.flatten() =~= block2 + seq![cfg.last_connector + late]);
    assert(lines(TreeView::Branch { label: root, children: pair }, cfg) =~= seq![root] + block2
        + seq![cfg.last_connector + late]);
}

// One tree, one text.

/// The four strings fix the drawing: configurations that agree in them
/// draw every tree alike, whatever their indent widths.
pub proof fn lemma_strings_fix_the_drawing(tree: TreeView, left: ConfigView, right: ConfigView)
    requires
        left.branch_connector == right.branch_connector,
        left.last_connector == right.last_connector,
        left.continuation == right.continuation,
        left.blank_continuation == right.blank_continuation,
    ensures
        lines(tree, left) == lines(tree, right),
        render(tree, left) == render(tree, right),
    decreases tree,
{
    match tree {
        TreeView::Branch { label, children } => {
            assert forall|i: int| 0 <= i < flatten(children).len() implies lines(
                #[trigger] flatten(children)[i],
                left,
            ) == lines(flatten(children)[i], right) by {
                lemma_flatten_decreases(children, i);
                lemma_strings_fix_the_drawing(flatten(children)[i], left, right);
            }
            assert(child_blocks(children, left) =~= child_blocks(children, right));
        },
        TreeView::Fragment { nodes } => {
            assert forall|i: int| 0 <= i < flatten(nodes).len() implies lines(
                #[trigger] flatten(nodes)[i],
                left,
            ) == lines(flatten(nodes)[i], right) by {
                lemma_flatten_decreases(nodes, i);
                lemma_strings_fix_the_drawing(flatten(nodes)[i], left, right);
            }
            assert(root_blocks(nodes, left) =~= root_blocks(nodes, right));
        },
        _ => {},
    }
}

/// Rendering is a function of what the tree and the configuration stand
/// for: two texts that `format` hands out for one tree and one
/// configuration are the same.
pub proof fn lemma_format_deterministic(
    tree: PrettyTree,
    config: RenderConfig,
    first: String,
    second: String,
)
    requires
        call_ensures(PrettyTree::format, (&tree, &config), first),
        call_ensures(PrettyTree::format, (&tree, &config), second),
    ensures
        first@ == second@,
{
}

/// A copy of a tree renders to the very text of the tree.
pub proof fn lemma_copy_renders_alike(
    tree: PrettyTree,
    copy: PrettyTree,
    config: RenderConfig,
    first: String,
    second: String,
)
    requires
        call_ensures(PrettyTree::clone, (&tree,), copy),
        call_ensures(PrettyTree::format, (&tree, &config), first),
        call_ensures(PrettyTree::format, (&copy, &config), second),
    ensures
        first@ == second@,
{
}

} // verus!
