use mdmigrate::locator::{Candidate, Node, NodeKind, SyntaxTree};

fn chars(s: &str) -> Vec<char> {
    s.chars().collect()
}

fn segs(s: &str) -> Vec<Vec<char>> {
    vec![chars(s)]
}

fn node(kind: NodeKind, start: usize, end: usize, children: Vec<usize>) -> Node {
    Node { kind, start, end, children }
}

// `mkOption { description = "..."; }` with the description value at span
// `vs..ve`.
fn option_tree(len: usize, vs: usize, ve: usize) -> SyntaxTree {
    let nodes = vec![
        node(NodeKind::Apply, 0, len, vec![1, 2]),
        node(NodeKind::Ident(chars("mkOption")), 0, 8, vec![]),
        node(NodeKind::AttrSet, 9, len, vec![3]),
        node(NodeKind::KeyValue(segs("description")), 11, ve + 1, vec![4]),
        node(NodeKind::Other, vs, ve, vec![]),
    ];
    SyntaxTree::new(nodes).expect("well-formed arena")
}

#[test]
fn description_inside_mk_option_is_found() {
    let src = "mkOption { description = \"See <literal>foo</literal> and <filename>/etc/bar</filename>.\"; }";
    let vs = src.find('"').unwrap();
    let ve = src.rfind('"').unwrap() + 1;
    let tree = option_tree(src.len(), vs, ve);
    let cands = tree.find_candidates();
    assert_eq!(
        cands,
        vec![Candidate { start: vs, end: ve, requires_parens: false }]
    );
}

#[test]
fn description_scenario_transduces() {
    let src = "mkOption { description = \"See <literal>foo</literal> and <filename>/etc/bar</filename>.\"; }";
    let vs = src.find('"').unwrap();
    let ve = src.rfind('"').unwrap() + 1;
    let tree = option_tree(src.len(), vs, ve);
    let cands = tree.find_candidates();
    let c = cands[0];
    let out = mdmigrate::transduce::convert_one(&chars(src), c.start, c.end, c.requires_parens);
    let got: String = out.iter().collect();
    assert_eq!(
        got,
        "mkOption { description = lib.mdDoc \"See `foo` and {file}`/etc/bar`.\"; }"
    );
}

#[test]
fn enable_option_yields_paren_candidate() {
    // `mkEnableOption "widget support"`
    let nodes = vec![
        node(NodeKind::Apply, 0, 31, vec![1, 2]),
        node(NodeKind::Ident(chars("mkEnableOption")), 0, 14, vec![]),
        node(NodeKind::Other, 15, 31, vec![]),
    ];
    let tree = SyntaxTree::new(nodes).unwrap();
    let cands = tree.find_candidates();
    assert_eq!(
        cands,
        vec![Candidate { start: 15, end: 31, requires_parens: true }]
    );
}

#[test]
fn migrated_enable_option_is_skipped() {
    // `mkEnableOption (lib.mdDoc "widget support")`
    let nodes = vec![
        node(NodeKind::Apply, 0, 43, vec![1, 2]),
        node(NodeKind::Ident(chars("mkEnableOption")), 0, 14, vec![]),
        node(NodeKind::Paren, 15, 43, vec![3]),
        node(NodeKind::Apply, 16, 42, vec![4, 5]),
        node(NodeKind::Select, 16, 25, vec![6, 7]),
        node(NodeKind::Other, 26, 42, vec![]),
        node(NodeKind::Ident(chars("lib")), 16, 19, vec![]),
        node(NodeKind::Ident(chars("mdDoc")), 20, 25, vec![]),
    ];
    let tree = SyntaxTree::new(nodes).unwrap();
    assert_eq!(tree.find_candidates(), vec![]);
}

#[test]
fn migrated_description_is_skipped() {
    // `mkOption { description = mdDoc "x"; }`
    let nodes = vec![
        node(NodeKind::Apply, 0, 37, vec![1, 2]),
        node(NodeKind::Ident(chars("mkOption")), 0, 8, vec![]),
        node(NodeKind::AttrSet, 9, 37, vec![3]),
        node(NodeKind::KeyValue(segs("description")), 11, 35, vec![4]),
        node(NodeKind::Apply, 25, 34, vec![5, 6]),
        node(NodeKind::Ident(chars("mdDoc")), 25, 30, vec![]),
        node(NodeKind::Other, 31, 34, vec![]),
    ];
    let tree = SyntaxTree::new(nodes).unwrap();
    assert_eq!(tree.find_candidates(), vec![]);
}

#[test]
fn description_outside_option_body_is_ignored() {
    // A bare `{ description = "x"; }` with no option constructor around it.
    let nodes = vec![
        node(NodeKind::AttrSet, 0, 23, vec![1]),
        node(NodeKind::KeyValue(segs("description")), 2, 21, vec![2]),
        node(NodeKind::Other, 18, 21, vec![]),
    ];
    let tree = SyntaxTree::new(nodes).unwrap();
    assert_eq!(tree.find_candidates(), vec![]);
}

#[test]
fn lib_selection_counts_as_constructor() {
    // `lib.mkOption { description = "x"; }`
    let nodes = vec![
        node(NodeKind::Apply, 0, 35, vec![1, 4]),
        node(NodeKind::Select, 0, 12, vec![2, 3]),
        node(NodeKind::Ident(chars("lib")), 0, 3, vec![]),
        node(NodeKind::Ident(chars("mkOption")), 4, 12, vec![]),
        node(NodeKind::AttrSet, 13, 35, vec![5]),
        node(NodeKind::KeyValue(segs("description")), 15, 33, vec![6]),
        node(NodeKind::Other, 29, 33, vec![]),
    ];
    let tree = SyntaxTree::new(nodes).unwrap();
    assert_eq!(
        tree.find_candidates(),
        vec![Candidate { start: 29, end: 33, requires_parens: false }]
    );
}

#[test]
fn candidates_come_in_descending_start_order() {
    // Two enable options side by side: `{ a = mkEnableOption "x"; b = mkEnableOption "y"; }`
    let nodes = vec![
        node(NodeKind::AttrSet, 0, 51, vec![1, 2]),
        node(NodeKind::KeyValue(segs("a")), 2, 25, vec![3]),
        node(NodeKind::KeyValue(segs("b")), 26, 49, vec![4]),
        node(NodeKind::Apply, 6, 24, vec![5, 6]),
        node(NodeKind::Apply, 30, 48, vec![7, 8]),
        node(NodeKind::Ident(chars("mkEnableOption")), 6, 20, vec![]),
        node(NodeKind::Other, 21, 24, vec![]),
        node(NodeKind::Ident(chars("mkEnableOption")), 30, 44, vec![]),
        node(NodeKind::Other, 45, 48, vec![]),
    ];
    let tree = SyntaxTree::new(nodes).unwrap();
    let cands = tree.find_candidates();
    assert_eq!(
        cands,
        vec![
            Candidate { start: 45, end: 48, requires_parens: true },
            Candidate { start: 21, end: 24, requires_parens: true },
        ]
    );
}

#[test]
fn empty_arena_has_no_candidates() {
    let tree = SyntaxTree::new(vec![]).unwrap();
    assert_eq!(tree.find_candidates(), vec![]);
}

#[test]
fn application_without_argument_is_harmless() {
    let nodes = vec![
        node(NodeKind::Apply, 0, 14, vec![1]),
        node(NodeKind::Ident(chars("mkEnableOption")), 0, 14, vec![]),
    ];
    let tree = SyntaxTree::new(nodes).unwrap();
    assert_eq!(tree.find_candidates(), vec![]);
}

#[test]
fn empty_paren_argument_still_yields_candidate() {
    // An empty parenthesized argument cannot carry the migrated marker,
    // so the enable option is still a candidate.
    let nodes = vec![
        node(NodeKind::Apply, 0, 17, vec![1, 2]),
        node(NodeKind::Ident(chars("mkEnableOption")), 0, 14, vec![]),
        node(NodeKind::Paren, 15, 17, vec![]),
    ];
    let tree = SyntaxTree::new(nodes).unwrap();
    assert_eq!(
        tree.find_candidates(),
        vec![Candidate { start: 15, end: 17, requires_parens: true }]
    );
}

#[test]
fn arena_with_bad_child_index_is_refused() {
    let nodes = vec![node(NodeKind::Other, 0, 1, vec![0])];
    assert!(SyntaxTree::new(nodes).is_none());
}
