//! The renderer: from a tree and the strings to draw with, to text.

use crate::layout::{
    child_blocks, connector_at, continuation_at, decorate, default_config, flatten, joined,
    lemma_decorate_indented, lemma_flatten_decreases, lemma_flatten_no_fragment, lines, render,
    root_blocks, ConfigView,
};
use crate::views_of;
use crate::PrettyTree;
use crate::ToPrettyTree;
use crate::TreeView;
use vstd::prelude::*;
use vstd::string::*;

verus! {

/// The strings that a tree is drawn with.
#[derive(Debug)]
pub struct RenderConfig {
    /// The number of columns that the customary connectors draw their rule
    /// with. The layout itself is fixed by the four strings below.
    pub indent_width: usize,
    /// Drawn in front of every child but the last.
    pub branch_connector: String,
    /// Drawn in front of the last child.
    pub last_connector: String,
    /// Drawn in front of what hangs below a child that has later siblings.
    pub continuation: String,
    /// Drawn in front of what hangs below the last child.
    pub blank_continuation: String,
}

impl View for RenderConfig {
    type V = ConfigView;

    open spec fn view(&self) -> ConfigView {
        ConfigView {
            indent_width: self.indent_width as nat,
            branch_connector: self.branch_connector@,
            last_connector: self.last_connector@,
            continuation: self.continuation@,
            blank_continuation: self.blank_continuation@,
        }
    }
}

impl Default for RenderConfig {
    fn default() -> (config: Self)
        ensures
            config@ == default_config(),
    {
        RenderConfig {
            indent_width: 2,
            branch_connector: "├── ".to_owned(),
            last_connector: "└── ".to_owned(),
            continuation: "│   ".to_owned(),
            blank_continuation: "    ".to_owned(),
        }
    }
}

impl Clone for RenderConfig {
    fn clone(&self) -> (copy: Self)
        ensures
            copy@ == self@,
    {
        RenderConfig {
            indent_width: self.indent_width,
            branch_connector: self.branch_connector.clone(),
            last_connector: self.last_connector.clone(),
            continuation: self.continuation.clone(),
            blank_continuation: self.blank_continuation.clone(),
        }
    }
}

/// The trees that a sequence of borrowed nodes stands for, in order.
pub open spec fn ref_views(nodes: Seq<&PrettyTree>) -> Seq<TreeView> {
    Seq::new(nodes.len(), |i: int| nodes[i]@)
}

/// Appends the flattening of `nodes` to `flat`.
fn flatten_into<'a>(nodes: &'a [PrettyTree], flat: &mut Vec<&'a PrettyTree>)
    ensures
        ref_views(final(flat)@) == ref_views(old(flat)@) + flatten(views_of(nodes@)),
    decreases nodes@,
{
    let ghost all = views_of(nodes@);
    let mut i: usize = 0;
    while i < nodes.len()
        invariant
            i <= nodes.len(),
            all == views_of(nodes@),
            ref_views(flat@) == ref_views(old(flat)@) + flatten(all.take(i as int)),
        decreases nodes.len() - i,
    {
        let ghost before = flat@;
        assert(all.take(i + 1).drop_last() =~= all.take(i as int));
        match &nodes[i] {
            PrettyTree::Fragment(f) => {
                flatten_into(f.nodes.as_slice(), flat);
            },
            node => {
                flat.push(node);
                assert(ref_views(flat@) =~= ref_views(before).push(node@));
            },
        }
        i += 1;
    }
    assert(all.take(nodes.len() as int) =~= all);
}

/// Splices every fragment of a sibling list into the list, at every depth
/// of nesting, and leaves each other node where it stood.
pub fn flatten_nodes<'a>(nodes: &'a [PrettyTree]) -> (flat: Vec<&'a PrettyTree>)
    ensures
        ref_views(flat@) == flatten(views_of(nodes@)),
{
    let mut flat: Vec<&'a PrettyTree> = Vec::new();
    flatten_into(nodes, &mut flat);
    flat
}

/// The texts of a sequence of strings, in order.
pub open spec fn texts(strings: Seq<String>) -> Seq<Seq<char>> {
    Seq::new(strings.len(), |i: int| strings[i]@)
}

/// One string after the other.
fn concat(head: &str, tail: &str) -> (text: String)
    ensures
        text@ == head@ + tail@,
{
    let mut text = head.to_owned();
    text.append(tail);
    text
}

/// Appends the lines of one node that is no fragment, with `first` in front
/// of its own line and `rest` in front of every line below it.
fn write_node(
    tree: &PrettyTree,
    config: &RenderConfig,
    first: &str,
    rest: &str,
    out: &mut Vec<String>,
)
    requires
        !(tree@ is Fragment),
    ensures
        texts(final(out)@) == texts(old(out)@) + decorate(lines(tree@, config@), first@, rest@),
    decreases tree@,
{
    let ghost before = out@;
    match tree {
        PrettyTree::Empty => {
            out.push(first.to_owned());
        },
        PrettyTree::Value(v) => {
            out.push(concat(first, v.text.as_str()));
        },
        PrettyTree::Branch(b) => {
            out.push(concat(first, b.label.as_str()));
            let kids = flatten_nodes(b.children.as_slice());
            let count = kids.len();
            let ghost children = views_of(b.children@);
            let ghost blocks = child_blocks(children, config@);
            let ghost heading = seq![first@ + b.label@];
            let mut i: usize = 0;
            while i < count
                invariant
                    i <= count,
                    count == kids.len(),
                    tree@ == (TreeView::Branch { label: b.label@, children }),
                    ref_views(kids@) == flatten(children),
                    blocks == child_blocks(children, config@),
                    blocks.len() == count,
                    texts(out@) == texts(before) + heading + decorate(
                        blocks.take(i as int).flatten(),
                        rest@,
                        rest@,
                    ),
                decreases count - i,
            {
                let last = i + 1 == count;
                let child_first = concat(
                    rest,
                    if last {
                        config.last_connector.as_str()
                    } else {
                        config.branch_connector.as_str()
                    },
                );
                let child_rest = concat(
                    rest,
                    if last {
                        config.blank_continuation.as_str()
                    } else {
                        config.continuation.as_str()
                    },
                );
                proof {
                    lemma_flatten_decreases(children, i as int);
                    lemma_flatten_no_fragment(children, i as int);
                    assert(decreases_to!(tree@ => tree@->children));
                    lemma_decorate_indented(
                        lines(kids[i as int]@, config@),
                        connector_at(config@, i as int, count as int),
                        continuation_at(config@, i as int, count as int),
                        rest@,
                    );
                    assert(blocks.take(i + 1) =~= blocks.take(i as int).push(blocks[i as int]));
                    blocks.take(i as int).lemma_flatten_push(blocks[i as int]);
                }
                write_node(kids[i], config, child_first.as_str(), child_rest.as_str(), out);
                i += 1;
            }
            assert(blocks.take(count as int) =~= blocks);
        },
        // Left out by `requires`: siblings are flattened before they come here.
        PrettyTree::Fragment(_) => {},
    }
}

/// Joins lines into one text, a single line feed between each two
/// neighbours and none after the last.
pub fn join_lines(lines: &[String]) -> (text: String)
    ensures
        text@ == joined(texts(lines@)),
{
    let ghost all = texts(lines@);
    let mut text = String::new();
    let mut i: usize = 0;
    while i < lines.len()
        invariant
            i <= lines.len(),
            all == texts(lines@),
            text@ == joined(all.take(i as int)),
        decreases lines.len() - i,
    {
        proof {
            reveal_strlit("\n");
            assert(all.take(i + 1).drop_last() =~= all.take(i as int));
        }
        if i > 0 {
            text.append("\n");
        }
        text.append(lines[i].as_str());
        i += 1;
    }
    assert(all.take(lines.len() as int) =~= all);
    text
}

impl PrettyTree {
    /// The lines that the tree is drawn as, from the top down.
    pub fn lines(&self, config: &RenderConfig) -> (out: Vec<String>)
        ensures
            texts(out@) == lines(self@, config@),
    {
        let mut out: Vec<String> = Vec::new();
        let nothing = String::new();
        match self {
            PrettyTree::Fragment(f) => {
                let kids = flatten_nodes(f.nodes.as_slice());
                let ghost nodes = views_of(f.nodes@);
                let ghost blocks = root_blocks(nodes, config@);
                let mut i: usize = 0;
                while i < kids.len()
                    invariant
                        i <= kids.len(),
                        nothing@ == Seq::<char>::empty(),
                        ref_views(kids@) == flatten(nodes),
                        blocks == root_blocks(nodes, config@),
                        blocks.len() == kids.len(),
                        texts(out@) == blocks.take(i as int).flatten(),
                    decreases kids.len() - i,
                {
                    proof {
                        lemma_flatten_no_fragment(nodes, i as int);
                        assert(blocks.take(i + 1) =~= blocks.take(i as int).push(blocks[i as int]));
                        blocks.take(i as int).lemma_flatten_push(blocks[i as int]);
                    }
                    write_node(kids[i], config, nothing.as_str(), nothing.as_str(), &mut out);
                    i += 1;
                }
                assert(blocks.take(kids.len() as int) =~= blocks);
            },
            _ => {
                write_node(self, config, nothing.as_str(), nothing.as_str(), &mut out);
            },
        }
        out
    }

    /// The tree as text: its lines with a line feed between each two, and
    /// none after the last.
    pub fn format(&self, config: &RenderConfig) -> (text: String)
        ensures
            text@ == render(self@, config@),
    {
        let lines = self.lines(config);
        join_lines(lines.as_slice())
    }
}

/// The text that an item is shown as: the tree it converts to, drawn with
/// the customary strings.
pub fn render_pretty_tree<T: ToPrettyTree>(item: &T) -> (text: String)
    ensures
        exists|tree: PrettyTree|
            call_ensures(T::to_pretty_tree, (item,), tree) && text@ == render(
                tree@,
                default_config(),
            ),
{
    let tree = item.to_pretty_tree();
    let config = RenderConfig::default();
    tree.format(&config)
}

} // verus!
