use tree_formatter::formatter::{flatten_nodes, join_lines, render_pretty_tree, RenderConfig};
use tree_formatter::{PrettyTree, ToPrettyTree};

fn render(tree: &PrettyTree) -> String {
    tree.format(&RenderConfig::default())
}

fn leaf(text: &str) -> PrettyTree {
    PrettyTree::str(text)
}

fn ascii() -> RenderConfig {
    RenderConfig {
        indent_width: 1,
        branch_connector: "+-".to_string(),
        last_connector: "`-".to_string(),
        continuation: "| ".to_string(),
        blank_continuation: "  ".to_string(),
    }
}

#[test]
fn branch_with_two_children() {
    let tree = PrettyTree::branch_of(
        "A",
        &[PrettyTree::branch_of("B", &[]), PrettyTree::value("C")],
    );
    assert_eq!(render(&tree), "A\n├── B\n└── C");
}

#[test]
fn nested_branches() {
    let tree = PrettyTree::branch_of(
        "Root",
        &[PrettyTree::branch_of(
            "Mid",
            &[PrettyTree::value("Leaf1"), PrettyTree::value("Leaf2")],
        )],
    );
    assert_eq!(render(&tree), "Root\n└── Mid\n    ├── Leaf1\n    └── Leaf2");
}

#[test]
fn fragment_at_the_root() {
    let tree = PrettyTree::fragment(vec![PrettyTree::value("one"), PrettyTree::value("two")]);
    assert_eq!(render(&tree), "one\ntwo");
}

#[test]
fn childless_branch_is_its_label() {
    let tree = PrettyTree::branch_of("A", &[]);
    assert_eq!(render(&tree), "A");
    assert_eq!(tree.lines(&RenderConfig::default()), vec!["A".to_string()]);
}

#[test]
fn branch_over_empty_fragments_is_its_label() {
    let hollow = PrettyTree::fragment(vec![PrettyTree::fragment(Vec::<PrettyTree>::new())]);
    let tree = PrettyTree::branch_of("A", &[hollow.clone(), hollow]);
    assert_eq!(render(&tree), "A");
}

#[test]
fn leaf_is_its_text() {
    assert_eq!(render(&leaf("C")), "C");
    assert_eq!(leaf("C").lines(&RenderConfig::default()), vec!["C".to_string()]);
}

#[test]
fn leaf_below_a_branch_is_one_line() {
    let tree = PrettyTree::branch_of("A", &[leaf("only")]);
    assert_eq!(
        tree.lines(&RenderConfig::default()),
        vec!["A".to_string(), "└── only".to_string()]
    );
}

#[test]
fn empty_root_is_no_text() {
    assert_eq!(render(&PrettyTree::empty()), "");
    assert_eq!(PrettyTree::empty().lines(&RenderConfig::default()), vec![String::new()]);
}

#[test]
fn empty_child_keeps_its_place() {
    let tree = PrettyTree::branch_of("A", &[PrettyTree::empty(), leaf("b"), PrettyTree::empty()]);
    assert_eq!(render(&tree), "A\n├── \n├── b\n└── ");
}

#[test]
fn empty_fragment_at_the_root_is_no_line() {
    let tree = PrettyTree::fragment(Vec::<PrettyTree>::new());
    assert_eq!(tree.lines(&RenderConfig::default()), Vec::<String>::new());
    assert_eq!(render(&tree), "");
}

#[test]
fn empty_nodes_at_the_root_are_blank_lines() {
    let tree = PrettyTree::fragment(vec![leaf("a"), PrettyTree::empty(), leaf("b")]);
    assert_eq!(render(&tree), "a\n\nb");
}

#[test]
fn bars_run_while_a_sibling_is_still_to_come() {
    let first = PrettyTree::branch_of("first", &[leaf("a"), leaf("b")]);
    let second = PrettyTree::branch_of("second", &[leaf("c")]);
    let tree = PrettyTree::branch_of("root", &[first, second]);
    assert_eq!(
        render(&tree),
        "root\n├── first\n│   ├── a\n│   └── b\n└── second\n    └── c"
    );
}

#[test]
fn three_levels_deep() {
    let deep = PrettyTree::branch_of("c", &[leaf("d"), leaf("e")]);
    let mid = PrettyTree::branch_of("b", &[deep, leaf("f")]);
    let tree = PrettyTree::branch_of("a", &[mid, leaf("g")]);
    assert_eq!(
        render(&tree),
        "a\n├── b\n│   ├── c\n│   │   ├── d\n│   │   └── e\n│   └── f\n└── g"
    );
}

#[test]
fn last_branch_indents_with_blanks_at_every_level() {
    let deep = PrettyTree::branch_of("c", &[leaf("d")]);
    let mid = PrettyTree::branch_of("b", &[deep]);
    let tree = PrettyTree::branch_of("a", &[mid]);
    assert_eq!(render(&tree), "a\n└── b\n    └── c\n        └── d");
}

#[test]
fn fragment_child_adds_no_level() {
    let group = PrettyTree::fragment(vec![leaf("x"), leaf("y")]);
    let with_group = PrettyTree::branch_of("A", &[leaf("w"), group, leaf("z")]);
    let spliced = PrettyTree::branch_of("A", &[leaf("w"), leaf("x"), leaf("y"), leaf("z")]);
    assert_eq!(render(&with_group), "A\n├── w\n├── x\n├── y\n└── z");
    assert_eq!(render(&with_group), render(&spliced));
}

#[test]
fn trailing_fragment_hands_the_last_connector_to_its_last_node() {
    let group = PrettyTree::fragment(vec![leaf("x"), leaf("y")]);
    let tree = PrettyTree::branch_of("A", &[leaf("w"), group]);
    assert_eq!(render(&tree), "A\n├── w\n├── x\n└── y");
}

#[test]
fn trailing_empty_fragment_leaves_the_last_connector_to_the_node_before() {
    let tree = PrettyTree::branch_of(
        "A",
        &[leaf("w"), leaf("x"), PrettyTree::fragment(Vec::<PrettyTree>::new())],
    );
    assert_eq!(render(&tree), "A\n├── w\n└── x");
}

#[test]
fn nested_fragments_flatten_fully() {
    let inner = PrettyTree::fragment(vec![leaf("b"), leaf("c")]);
    let outer = PrettyTree::fragment(vec![leaf("a"), inner, leaf("d")]);
    let flat = PrettyTree::fragment(vec![leaf("a"), leaf("b"), leaf("c"), leaf("d")]);
    assert_eq!(render(&outer), "a\nb\nc\nd");
    assert_eq!(render(&outer), render(&flat));
}

#[test]
fn fragments_group_in_any_way_alike() {
    let left = PrettyTree::fragment(vec![
        PrettyTree::fragment(vec![leaf("a"), leaf("b")]),
        leaf("c"),
    ]);
    let right = PrettyTree::fragment(vec![
        leaf("a"),
        PrettyTree::fragment(vec![leaf("b"), leaf("c")]),
    ]);
    assert_eq!(render(&left), render(&right));
    assert_eq!(render(&left), "a\nb\nc");
}

#[test]
fn fragment_below_a_nested_branch_is_spliced_too() {
    let group = PrettyTree::fragment(vec![leaf("x"), PrettyTree::fragment(vec![leaf("y")])]);
    let mid = PrettyTree::branch_of("mid", &[group]);
    let tree = PrettyTree::branch_of("root", &[mid, leaf("end")]);
    assert_eq!(render(&tree), "root\n├── mid\n│   ├── x\n│   └── y\n└── end");
}

#[test]
fn branches_at_the_root_of_a_fragment_start_afresh() {
    let one = PrettyTree::branch_of("one", &[leaf("a")]);
    let two = PrettyTree::branch_of("two", &[leaf("b"), leaf("c")]);
    let tree = PrettyTree::fragment(vec![one, two]);
    assert_eq!(render(&tree), "one\n└── a\ntwo\n├── b\n└── c");
}

#[test]
fn rendering_twice_gives_one_text() {
    let tree = PrettyTree::branch_of("A", &[leaf("b"), PrettyTree::branch_of("c", &[leaf("d")])]);
    let config = RenderConfig::default();
    assert_eq!(tree.format(&config), tree.format(&config));
}

#[test]
fn copy_renders_as_the_tree() {
    let tree = PrettyTree::branch_of(
        "A",
        &[leaf("b"), PrettyTree::fragment(vec![leaf("c"), PrettyTree::empty()])],
    );
    let copy = tree.clone();
    assert_eq!(render(&copy), render(&tree));
    assert_eq!(render(&copy).as_bytes(), render(&tree).as_bytes());
    assert_eq!(render(&tree), "A\n├── b\n├── c\n└── ");
}

#[test]
fn one_connector_line_for_each_child() {
    let tree = PrettyTree::branch_of(
        "A",
        &[
            leaf("b"),
            PrettyTree::fragment(vec![leaf("c"), leaf("d")]),
            PrettyTree::branch_of("e", &[leaf("f"), leaf("g")]),
            leaf("h"),
        ],
    );
    let lines = tree.lines(&ascii());
    let direct = lines
        .iter()
        .filter(|line| line.starts_with("+-") || line.starts_with("`-"))
        .count();
    assert_eq!(direct, 5);
    assert_eq!(
        lines,
        vec!["A", "+-b", "+-c", "+-d", "+-e", "| +-f", "| `-g", "`-h"]
    );
}

#[test]
fn one_last_connector_in_each_group() {
    let tree = PrettyTree::branch_of("A", &[leaf("b"), leaf("c"), leaf("d")]);
    let lines = tree.lines(&ascii());
    assert_eq!(lines.iter().filter(|line| line.starts_with("`-")).count(), 1);
    assert_eq!(lines.iter().filter(|line| line.starts_with("+-")).count(), 2);
    assert_eq!(lines[3], "`-d");
}

#[test]
fn only_child_takes_the_last_connector() {
    let tree = PrettyTree::branch_of("A", &[leaf("b")]);
    assert_eq!(tree.lines(&ascii()), vec!["A", "`-b"]);
}

#[test]
fn custom_strings_are_drawn_as_given() {
    let inner = PrettyTree::branch_of("b", &[leaf("c"), leaf("d")]);
    let tree = PrettyTree::branch_of("a", &[inner, leaf("e")]);
    assert_eq!(tree.format(&ascii()), "a\n+-b\n| +-c\n| `-d\n`-e");
}

#[test]
fn indent_width_alone_moves_nothing() {
    let tree = PrettyTree::branch_of("a", &[PrettyTree::branch_of("b", &[leaf("c")])]);
    let mut wide = RenderConfig::default();
    wide.indent_width = 9;
    assert_eq!(tree.format(&wide), render(&tree));
}

#[test]
fn default_config_holds_the_box_drawing_strings() {
    let config = RenderConfig::default();
    assert_eq!(config.indent_width, 2);
    assert_eq!(config.branch_connector, "├── ");
    assert_eq!(config.last_connector, "└── ");
    assert_eq!(config.continuation, "│   ");
    assert_eq!(config.blank_continuation, "    ");
}

#[test]
fn config_copy_holds_the_same_strings() {
    let config = ascii();
    let copy = config.clone();
    assert_eq!(copy.indent_width, 1);
    assert_eq!(copy.branch_connector, "+-");
    assert_eq!(copy.last_connector, "`-");
    assert_eq!(copy.continuation, "| ");
    assert_eq!(copy.blank_continuation, "  ");
}

#[test]
fn no_line_feed_at_the_end() {
    let tree = PrettyTree::branch_of("A", &[leaf("b")]);
    assert!(!render(&tree).ends_with('\n'));
}

#[test]
fn labels_beyond_ascii_pass_through() {
    let tree = PrettyTree::branch_of("Übersicht", &[leaf("日本語"), leaf("naïve")]);
    assert_eq!(render(&tree), "Übersicht\n├── 日本語\n└── naïve");
}

#[test]
fn join_lines_puts_one_line_feed_between() {
    assert_eq!(join_lines(&[]), "");
    assert_eq!(join_lines(&["a".to_string()]), "a");
    assert_eq!(join_lines(&["a".to_string(), "b".to_string()]), "a\nb");
    assert_eq!(
        join_lines(&["a".to_string(), String::new(), "c".to_string()]),
        "a\n\nc"
    );
}

#[test]
fn flatten_nodes_splices_in_place() {
    let nodes = vec![
        leaf("a"),
        PrettyTree::fragment(vec![
            leaf("b"),
            PrettyTree::fragment(vec![leaf("c")]),
            PrettyTree::fragment(Vec::<PrettyTree>::new()),
        ]),
        PrettyTree::branch_of("d", &[PrettyTree::fragment(vec![leaf("e")])]),
        PrettyTree::empty(),
    ];
    let flat = flatten_nodes(&nodes);
    assert_eq!(flat.len(), 5);
    let texts: Vec<String> = flat.iter().map(|node| render(node)).collect();
    assert_eq!(texts, vec!["a", "b", "c", "d\n└── e", ""]);
    assert!(flat.iter().all(|node| !matches!(node, PrettyTree::Fragment(_))));
}

#[test]
fn flatten_nodes_twice_changes_nothing() {
    let nodes = vec![
        PrettyTree::fragment(vec![leaf("a"), PrettyTree::fragment(vec![leaf("b")])]),
        leaf("c"),
    ];
    let once: Vec<PrettyTree> = flatten_nodes(&nodes).into_iter().cloned().collect();
    let twice = flatten_nodes(&once);
    assert_eq!(twice.len(), once.len());
    let first: Vec<String> = once.iter().map(render).collect();
    let second: Vec<String> = twice.iter().map(|node| render(node)).collect();
    assert_eq!(first, second);
    assert_eq!(first, vec!["a", "b", "c"]);
}

struct DocumentSection {
    title: String,
    subsections: Vec<DocumentSection>,
}

impl DocumentSection {
    fn new(title: &str, subsections: Vec<DocumentSection>) -> Self {
        Self { title: title.to_string(), subsections }
    }
}

impl ToPrettyTree for DocumentSection {
    fn to_pretty_tree(&self) -> PrettyTree {
        let children: Vec<PrettyTree> =
            self.subsections.iter().map(|section| section.to_pretty_tree()).collect();
        if children.is_empty() {
            return PrettyTree::value(&self.title);
        }
        PrettyTree::branch_of(&self.title, &children)
    }
}

fn chapter() -> DocumentSection {
    DocumentSection::new(
        "Chapter 1: Introduction",
        vec![
            DocumentSection::new("Section 1.1: Overview", vec![]),
            DocumentSection::new(
                "Section 1.2: Background",
                vec![
                    DocumentSection::new("Subsection 1.2.1: History", vec![]),
                    DocumentSection::new("Subsection 1.2.2: Motivation", vec![]),
                ],
            ),
        ],
    )
}

#[test]
fn document_outline_is_drawn_through_its_conversion() {
    let expected = "Chapter 1: Introduction\n\
                    ├── Section 1.1: Overview\n\
                    └── Section 1.2: Background\n    \
                    ├── Subsection 1.2.1: History\n    \
                    └── Subsection 1.2.2: Motivation";
    assert_eq!(render_pretty_tree(&chapter()), expected);
    assert_eq!(render(&chapter().to_pretty_tree()), expected);
}

#[test]
fn tree_converts_to_a_copy_of_itself() {
    let tree = PrettyTree::branch_of("A", &[leaf("b")]);
    assert_eq!(render(&tree.to_pretty_tree()), "A\n└── b");
    assert_eq!(render_pretty_tree(&tree), "A\n└── b");
}
