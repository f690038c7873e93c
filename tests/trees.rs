use catalyst::{Node, TreeNode};

fn node(label: &str, children: Vec<Node>) -> Node {
    Node::new(String::from(label), children)
}

// a1(b1(c1, c2), b2(c3), b3)
fn get_small_test_tree_1() -> Node {
    node("a1", vec![
        node("b1", vec![node("c1", vec![]), node("c2", vec![])]),
        node("b2", vec![node("c3", vec![])]),
        node("b3", vec![]),
    ])
}

// a(b(c(d)))
fn get_small_test_tree_2() -> Node {
    node("a", vec![node("b", vec![node("c", vec![node("d", vec![])])])])
}

#[test]
fn trees_test_properties() {
    let tree = get_small_test_tree_1();
    assert_eq!(tree.node_name(), "a1");
    assert_eq!(tree.verbose_string(), "(a1)");
    assert_eq!(tree.num_children(), 3);
    assert_eq!(tree.is_leaf(), false);

    assert_eq!(tree.get_child(0).unwrap().node_name(), "b1");
    assert_eq!(tree.get_child(0).unwrap().verbose_string(), "(b1)");
    assert_eq!(tree.get_child(0).unwrap().num_children(), 2);
    assert_eq!(tree.get_child(0).unwrap().is_leaf(), false);

    assert_eq!(tree.get_child(1).unwrap().node_name(), "b2");
    assert_eq!(tree.get_child(1).unwrap().verbose_string(), "(b2)");
    assert_eq!(tree.get_child(1).unwrap().num_children(), 1);
    assert_eq!(tree.get_child(1).unwrap().is_leaf(), false);

    assert_eq!(tree.get_child(2).unwrap().node_name(), "b3");
    assert_eq!(tree.get_child(2).unwrap().verbose_string(), "(b3)");
    assert_eq!(tree.get_child(2).unwrap().num_children(), 0);
    assert_eq!(tree.get_child(2).unwrap().is_leaf(), true);
}

#[test]
fn test_clone_equals() {
    let tree = get_small_test_tree_1();
    assert_eq!(tree.clone_tree(), tree);
    assert!(tree.equals(&tree.clone()));

    // should not match
    let tree1 = get_small_test_tree_1();
    let tree2 = get_small_test_tree_2();
    assert!(!tree1.equals(&tree2));
    assert!(!tree1.clone_tree().equals(&tree2.clone_tree()));
}

#[test]
fn trees_test_foreach() {
    let tree = get_small_test_tree_1();
    let mut labels = Vec::new();
    tree.foreach(&mut |node: &Node| labels.push(node.node_name()));
    assert_eq!(labels, vec!["a1", "b1", "c1", "c2", "b2", "c3", "b3"]);
}

#[test]
fn trees_test_foreach_up() {
    let tree = get_small_test_tree_1();
    let mut labels = Vec::new();
    tree.foreach_up(&mut |node: &Node| labels.push(node.node_name()));
    assert_eq!(labels, vec!["c1", "c2", "b1", "c3", "b2", "b3", "a1"]);
}

#[test]
fn trees_test_find() {
    let tree = get_small_test_tree_1();
    // child node in the tree
    let res = tree.find(&|node: &Node| node.node_name() == "c2");
    assert!(res.is_some());
    assert_eq!(res.unwrap().node_name(), "c2");

    // root of the tree
    let res = tree.find(&|node: &Node| node.num_children() == 3);
    assert!(res.is_some());
    assert_eq!(res.unwrap().node_name(), "a1");

    // no result
    let res = tree.find(&|node: &Node| node.node_name() == "<unknown>");
    assert!(res.is_none());
}

#[test]
fn trees_test_map() {
    let tree = get_small_test_tree_1();
    let res = tree.map(&|node: &Node| node.node_name());
    assert_eq!(res, vec!["a1", "b1", "c1", "c2", "b2", "c3", "b3"]);

    // map to a list of boolean leaf/non-leaf
    let res = tree.map(&|node: &Node| node.is_leaf());
    assert_eq!(res, vec![false, false, true, true, false, true, true]);
}

#[test]
fn trees_test_flat_map() {
    let tree = get_small_test_tree_1();
    let res = tree.flat_map(&|node: &Node| {
        let mut vec = Vec::new();
        for i in 0..node.num_children() {
            vec.push(node.get_child(i).unwrap().node_name());
        }
        vec
    });
    assert_eq!(res, vec!["b1", "b2", "b3", "c1", "c2", "c3"]);
}

#[test]
fn trees_test_collect() {
    let tree = get_small_test_tree_1();
    let res = tree.collect(&|node: &Node| {
        if !node.is_leaf() { Some(node.node_name()) } else { None }
    });
    assert_eq!(res, vec!["a1", "b1", "b2"]);
}

#[test]
fn trees_test_collect_leaves() {
    let tree = get_small_test_tree_1();
    let res = tree.collect_leaves();
    let expected = vec![
        node("c1", vec![]),
        node("c2", vec![]),
        node("c3", vec![]),
        node("b3", vec![]),
    ];
    assert_eq!(res, expected);
}

#[test]
fn trees_test_map_children() {
    let tree = get_small_test_tree_1();
    let res = tree.map_children(&|child: &Node| {
        Node::new(format!("{}-#", child.node_name()), child.children.clone())
    });
    let mut labels = Vec::new();
    res.foreach(&mut |n: &Node| labels.push(n.node_name()));

    assert_eq!(labels, ["a1", "b1-#", "c1", "c2", "b2-#", "c3", "b3-#"]);
}

#[test]
fn trees_test_transform_down() {
    let tree = get_small_test_tree_1();
    let res = tree.transform_down(&|n: &Node| {
        if n.node_name() == "b1" || n.node_name() == "b2" {
            Some(Node::new(format!("{}-#", n.node_name()), vec![]))
        } else {
            None
        }
    });
    let expected = node("a1", vec![node("b1-#", vec![]), node("b2-#", vec![]), node("b3", vec![])]);
    assert_eq!(res, expected);
    // the input tree is left as it was
    assert_eq!(tree, get_small_test_tree_1());
}

#[test]
fn trees_test_transform_up() {
    let tree = get_small_test_tree_1();
    let res = tree.transform_up(&|n: &Node| {
        let mut cloned = n.clone();
        while cloned.children.len() > 1 {
            cloned.children.pop();
        }
        Some(cloned)
    });
    let expected = node("a1", vec![node("b1", vec![node("c1", vec![])])]);
    assert_eq!(res, expected);
    // the input tree is left as it was
    assert_eq!(tree, get_small_test_tree_1());
}

#[test]
fn test_tree_string() {
    let tree = get_small_test_tree_1();
    let res = tree.tree_string();
    assert_eq!(res, vec![
        "a1",
        ":- b1",
        ":  :- c1",
        ":  +- c2",
        ":- b2",
        ":  +- c3",
        "+- b3"
    ].join("\n"));

    let tree = get_small_test_tree_2();
    let res = tree.tree_string();
    assert_eq!(res, vec![
        "a",
        "+- b",
        "   +- c",
        "      +- d"
    ].join("\n"));
}

#[test]
fn test_numbered_tree_string() {
    let tree = get_small_test_tree_1();
    let res = tree.numbered_tree_string();
    assert_eq!(res, vec![
        "01 a1",
        "02 :- b1",
        "03 :  :- c1",
        "04 :  +- c2",
        "05 :- b2",
        "06 :  +- c3",
        "07 +- b3"
    ].join("\n"));

    let tree = get_small_test_tree_2();
    let res = tree.numbered_tree_string();
    assert_eq!(res, vec![
        "01 a",
        "02 +- b",
        "03    +- c",
        "04       +- d"
    ].join("\n"));
}

#[test]
fn single_node_tree() {
    let leaf = node("x", vec![]);
    assert_eq!(leaf.tree_string(), "x");
    assert_eq!(leaf.numbered_tree_string(), "01 x");
    assert_eq!(leaf.collect_leaves(), vec![node("x", vec![])]);
    assert!(leaf.find(&|n: &Node| n.node_name() == "y").is_none());
}

#[test]
fn numbered_beyond_nine_lines() {
    let children: Vec<Node> = (0..10).map(|i| node(&format!("c{}", i), vec![])).collect();
    let tree = node("r", children);
    let lines: Vec<String> = tree.numbered_tree_string().split('\n').map(String::from).collect();
    assert_eq!(lines.len(), 11);
    assert_eq!(lines[9], "10 :- c8");
    assert_eq!(lines[10], "11 +- c9");
}

#[test]
fn transform_down_revisits_new_children() {
    // the replacement's children are rewritten too, but not the replacement itself
    let tree = node("a", vec![node("b", vec![node("c", vec![])])]);
    let res = tree.transform_down(&|n: &Node| {
        if n.node_name() == "a" {
            Some(node("a2", vec![node("b", vec![])]))
        } else if n.node_name() == "b" {
            Some(node("B", vec![]))
        } else {
            None
        }
    });
    assert_eq!(res, node("a2", vec![node("B", vec![])]));
}

#[test]
fn transform_up_sees_rewritten_children() {
    let tree = get_small_test_tree_1();
    let res = tree.transform_up(&|n: &Node| {
        if n.is_leaf() {
            None
        } else {
            let names: Vec<String> = n.children.iter().map(|c| c.node_name()).collect();
            Some(Node::new(format!("{}[{}]", n.node_name(), names.join(",")), n.children.clone()))
        }
    });
    assert_eq!(res.node_name(), "a1[b1[c1,c2],b2[c3],b3]");
}

#[test]
fn set_child_replaces_in_range_only() {
    let mut tree = get_small_test_tree_1();
    tree.set_child(1, node("z", vec![]));
    assert_eq!(tree.get_child(1).unwrap().node_name(), "z");
    tree.set_child(7, node("w", vec![]));
    assert_eq!(tree.num_children(), 3);
    assert!(tree.get_child(3).is_none());
}

#[test]
fn traversal_orders_match_visits() {
    let tree = get_small_test_tree_1();
    let pre: Vec<String> = tree.pre_order().iter().map(|n| n.node_name()).collect();
    let post: Vec<String> = tree.post_order().iter().map(|n| n.node_name()).collect();
    assert_eq!(pre, vec!["a1", "b1", "c1", "c2", "b2", "c3", "b3"]);
    assert_eq!(post, vec!["c1", "c2", "b1", "c3", "b2", "b3", "a1"]);
}

#[test]
fn equals_distinguishes_order() {
    let a = node("r", vec![node("x", vec![]), node("y", vec![])]);
    let b = node("r", vec![node("y", vec![]), node("x", vec![])]);
    assert!(!a.equals(&b));
    assert!(a.equals(&a.clone_tree()));
    assert_ne!(a, b);
}
