use stampede::catalog::{OpKind, WrapMode};
use stampede::constant::Constant;
use stampede::tree::{Node, Opcode, Tree};

fn constant(value: i32, rate: i32, mode: WrapMode) -> Constant {
    Constant::from_parts(0, 1_000, value, rate, mode).expect("valid state")
}

fn leaf(value: i32, rate: i32) -> Node {
    Node::from_parts(OpKind::Const, vec![constant(value, rate, WrapMode::Mirror)], Vec::new())
        .expect("a leaf")
}

fn values(node: &Node) -> Vec<i32> {
    let mut all: Vec<i32> = node.get_constants().iter().map(|c| c.value()).collect();
    for child in node.get_children() {
        all.extend(values(child));
    }
    all
}

fn shape(node: &Node) -> Vec<(usize, usize, usize)> {
    let mut all = vec![(node.opcode(), node.get_children().len(), node.get_constants().len())];
    for child in node.get_children() {
        all.extend(shape(child));
    }
    all
}

#[test]
fn from_parts_takes_what_the_catalog_declares() {
    let sum = Node::from_parts(OpKind::Add, Vec::new(), vec![leaf(1, 0), leaf(2, 0)])
        .expect("two operands");
    assert_eq!(sum.kind(), OpKind::Add);
    assert_eq!(sum.opcode(), 10);
    assert_eq!(sum.get_children().len(), 2);
    assert!(sum.get_constants().is_empty());
    assert_eq!(sum.get_children()[0].kind(), OpKind::Const);
    assert_eq!(sum.get_children()[1].get_constants()[0].value(), 2);
}

#[test]
fn from_parts_refuses_any_other_number_of_parts() {
    assert!(Node::from_parts(OpKind::Add, Vec::new(), vec![leaf(1, 0)]).is_none());
    assert!(Node::from_parts(OpKind::Add, Vec::new(), Vec::new()).is_none());
    assert!(Node::from_parts(
        OpKind::Add,
        Vec::new(),
        vec![leaf(1, 0), leaf(2, 0), leaf(3, 0)]
    )
    .is_none());
    assert!(Node::from_parts(OpKind::Const, Vec::new(), Vec::new()).is_none());
    assert!(Node::from_parts(
        OpKind::Const,
        vec![constant(1, 0, WrapMode::Mirror)],
        vec![leaf(1, 0)]
    )
    .is_none());
    assert!(Node::from_parts(
        OpKind::Absolute,
        vec![constant(1, 0, WrapMode::Mirror)],
        vec![leaf(1, 0)]
    )
    .is_none());
}

#[test]
fn animate_steps_every_constant_once() {
    let spiral = Node::from_parts(
        OpKind::Spiral,
        vec![
            constant(10, 1, WrapMode::Mirror),
            constant(20, -2, WrapMode::Repeat),
            constant(995, 10, WrapMode::Mirror),
            constant(995, 10, WrapMode::Repeat),
        ],
        vec![leaf(500, 7)],
    )
    .expect("a spiral");
    let mut tree = Node::from_parts(
        OpKind::Subtract,
        Vec::new(),
        vec![spiral, leaf(3, -5)],
    )
    .expect("a difference");
    assert_eq!(values(&tree), vec![10, 20, 995, 995, 500, 3]);
    tree.animate();
    assert_eq!(values(&tree), vec![11, 18, 995, 5, 507, 2]);
    tree.animate();
    assert_eq!(values(&tree), vec![12, 16, 985, 15, 514, 7]);
}

#[test]
fn animate_keeps_the_shape() {
    let mut tree = Node::from_parts(
        OpKind::Squircle,
        vec![
            constant(1, 1, WrapMode::Mirror),
            constant(2, 1, WrapMode::Mirror),
            constant(3, 1, WrapMode::Mirror),
            constant(4, 1, WrapMode::Mirror),
        ],
        vec![
            Node::from_parts(OpKind::Invert, Vec::new(), vec![leaf(5, 1)]).expect("inverted"),
            leaf(6, 1),
        ],
    )
    .expect("a squircle");
    let before = shape(&tree);
    for _ in 0..100 {
        tree.animate();
    }
    assert_eq!(shape(&tree), before);
    assert_eq!(before, vec![(19, 2, 4), (9, 1, 0), (1, 0, 1), (1, 0, 1)]);
}

#[test]
fn tree_animates_all_three_channels() {
    let mut tree = Tree::with_layers(leaf(100, 1), leaf(200, 2), leaf(300, 3));
    tree.animate();
    assert_eq!(values(tree.layer(0)), vec![101]);
    assert_eq!(values(tree.layer(1)), vec![202]);
    assert_eq!(values(tree.layer(2)), vec![303]);
    for _ in 0..9 {
        tree.animate();
    }
    assert_eq!(values(tree.layer(0)), vec![110]);
    assert_eq!(values(tree.layer(1)), vec![220]);
    assert_eq!(values(tree.layer(2)), vec![330]);
}

#[test]
fn with_layers_keeps_the_order_of_the_channels() {
    let tree = Tree::with_layers(
        leaf(1, 0),
        Node::from_parts(OpKind::Absolute, Vec::new(), vec![leaf(2, 0)]).expect("absolute"),
        Node::from_parts(OpKind::Add, Vec::new(), vec![leaf(3, 0), leaf(4, 0)]).expect("sum"),
    );
    assert_eq!(tree.layer(0).kind(), OpKind::Const);
    assert_eq!(tree.layer(1).kind(), OpKind::Absolute);
    assert_eq!(tree.layer(2).kind(), OpKind::Add);
}
