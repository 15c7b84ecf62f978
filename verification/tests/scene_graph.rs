use vanguard::perception::PerceptionSystem;
use vanguard::scene_node::{Anchor, SceneGraph, SceneNode};

#[test]
fn new_node_is_fresh_and_indexed_in_order() {
    let mut graph = SceneGraph::new();
    let root = SceneNode::new(&mut graph, "Root", Anchor::Management);
    let player = SceneNode::new(&mut graph, "Player", Anchor::Player);
    assert_eq!(root, 0);
    assert_eq!(player, 1);
    assert_eq!(graph.len(), 2);
    let node = graph.node(player);
    assert_eq!(node.name, "Player");
    assert_eq!(node.anchor, Anchor::Player);
    assert!(node.parent.is_none());
    assert!(node.children.is_empty());
    assert!(node.properties.is_empty());
}

#[test]
fn add_child_links_both_ends() {
    let mut graph = SceneGraph::new();
    let root = SceneNode::new(&mut graph, "Root", Anchor::Management);
    let sun = SceneNode::new(&mut graph, "Sun", Anchor::Lighting);
    let lamp = SceneNode::new(&mut graph, "Lamp", Anchor::Lighting);
    SceneNode::add_child(&mut graph, root, sun);
    SceneNode::add_child(&mut graph, root, lamp);
    assert_eq!(graph.node(root).children, vec![sun, lamp]);
    assert_eq!(graph.node(sun).parent, Some(root));
    assert_eq!(graph.node(lamp).parent, Some(root));
    assert_eq!(graph.node(root).parent, None);
}

#[test]
fn reparenting_keeps_the_old_parent_listing() {
    let mut graph = SceneGraph::new();
    let first = SceneNode::new(&mut graph, "First", Anchor::Systems);
    let second = SceneNode::new(&mut graph, "Second", Anchor::Systems);
    let child = SceneNode::new(&mut graph, "Child", Anchor::Environment);
    SceneNode::add_child(&mut graph, first, child);
    SceneNode::add_child(&mut graph, second, child);
    assert_eq!(graph.node(child).parent, Some(second));
    assert_eq!(graph.node(first).children, vec![child]);
    assert_eq!(graph.node(second).children, vec![child]);
}

#[test]
fn adding_the_same_child_twice_lists_it_twice() {
    let mut graph = SceneGraph::new();
    let parent = SceneNode::new(&mut graph, "Parent", Anchor::UI);
    let child = SceneNode::new(&mut graph, "Child", Anchor::UI);
    SceneNode::add_child(&mut graph, parent, child);
    SceneNode::add_child(&mut graph, parent, child);
    assert_eq!(graph.node(parent).children, vec![child, child]);
}

#[test]
fn every_parent_lists_its_children() {
    let mut graph = SceneGraph::new();
    let ids: Vec<usize> = (0..5)
        .map(|i| SceneNode::new(&mut graph, &format!("n{}", i), Anchor::Environment))
        .collect();
    SceneNode::add_child(&mut graph, ids[0], ids[1]);
    SceneNode::add_child(&mut graph, ids[1], ids[2]);
    SceneNode::add_child(&mut graph, ids[0], ids[3]);
    SceneNode::add_child(&mut graph, ids[3], ids[2]);
    SceneNode::add_child(&mut graph, ids[4], ids[0]);
    for i in 0..graph.len() {
        if let Some(p) = graph.node(i).parent {
            assert!(p != i);
            assert!(graph.node(p).children.contains(&i));
        }
    }
}

#[test]
fn anchor_labels_are_variant_names() {
    assert_eq!(Anchor::Management.label(), "Management");
    assert_eq!(Anchor::Systems.label(), "Systems");
    assert_eq!(Anchor::Player.label(), "Player");
    assert_eq!(Anchor::Environment.label(), "Environment");
    assert_eq!(Anchor::Lighting.label(), "Lighting");
    assert_eq!(Anchor::UI.label(), "UI");
    assert_eq!(Anchor::Lighting.label(), format!("{:?}", Anchor::Lighting));
}

#[test]
fn semantic_objects_follow_the_requested_order() {
    let mut graph = SceneGraph::new();
    let a = SceneNode::new(&mut graph, "Alpha", Anchor::Player);
    let b = SceneNode::new(&mut graph, "Bravo", Anchor::Environment);
    let objects = PerceptionSystem::semantic_objects(&graph, &vec![b, a, b]);
    assert_eq!(objects.len(), 3);
    assert_eq!(objects[0].name, "Bravo");
    assert_eq!(objects[0].anchor, "Environment");
    assert_eq!(objects[1].name, "Alpha");
    assert_eq!(objects[1].anchor, "Player");
    assert_eq!(objects[2].name, "Bravo");
}

#[test]
fn semantic_objects_of_no_nodes_is_empty() {
    let graph = SceneGraph::new();
    assert!(PerceptionSystem::semantic_objects(&graph, &vec![]).is_empty());
}

#[test]
fn attaching_parentless_nodes_builds_a_tree() {
    let mut graph = SceneGraph::new();
    let ids: Vec<usize> = (0..6)
        .map(|i| SceneNode::new(&mut graph, &format!("n{}", i), Anchor::Systems))
        .collect();
    // each child is parentless and not an ancestor of its new parent
    SceneNode::add_child(&mut graph, ids[0], ids[1]);
    SceneNode::add_child(&mut graph, ids[0], ids[2]);
    SceneNode::add_child(&mut graph, ids[1], ids[3]);
    SceneNode::add_child(&mut graph, ids[4], ids[5]);
    SceneNode::add_child(&mut graph, ids[3], ids[4]);
    for p in 0..graph.len() {
        let children = &graph.node(p).children;
        for c in 0..graph.len() {
            let listed = children.iter().filter(|&&x| x == c).count();
            assert!(listed <= 1);
            assert_eq!(listed == 1, graph.node(c).parent == Some(p));
        }
    }
    // following parents from any node ends at the root without a cycle
    for start in 0..graph.len() {
        let mut at = start;
        let mut steps = 0;
        while let Some(p) = graph.node(at).parent {
            at = p;
            steps += 1;
            assert!(steps <= graph.len());
        }
        assert_eq!(at, ids[0]);
    }
}
