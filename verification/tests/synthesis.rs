use rand::rngs::StdRng;
use rand::SeedableRng;
use stampede::catalog::{OpKind, WrapMode, INSTRUCTION_COUNT, UNIT};
use stampede::constant::RATE_SCALE;
use stampede::encoder::InstructionEncoder;
use stampede::error::TreeError;
use stampede::rates::{leaf_rates, op_rates, Rate};
use stampede::synthesis::{dispatch, leans_to_leaf, LEAF_ONLY_FROM};
use stampede::tree::{Node, Opcode, Tree};

fn count(node: &Node) -> usize {
    1 + node.get_children().iter().map(count).sum::<usize>()
}

fn constants(node: &Node) -> usize {
    node.get_constants().len() + node.get_children().iter().map(constants).sum::<usize>()
}

/// Checks a node and everything below it against the catalog.
fn check_against_catalog(node: &Node) {
    let kind = node.kind();
    assert_eq!(node.opcode(), kind.opcode());
    assert_eq!(node.get_children().len(), kind.arity());
    let declared = kind.constants();
    assert_eq!(node.get_constants().len(), declared.len());
    for (held, spec) in node.get_constants().iter().zip(declared.iter()) {
        assert_eq!(held.limits(), [spec.min, spec.max]);
        assert_eq!(held.wrap_mode(), spec.wrap_mode);
        assert!(spec.min <= held.value() && held.value() < spec.max);
        if spec.wrap_mode == WrapMode::Fixed {
            assert_eq!(held.rate(), 0);
        } else {
            assert!(spec.min / RATE_SCALE <= held.rate() && held.rate() < spec.max / RATE_SCALE);
        }
    }
    for child in node.get_children() {
        check_against_catalog(child);
    }
}

fn compile(node: &Node) -> Result<([u32; 128], [i32; 1024]), TreeError> {
    let mut encoder = InstructionEncoder::new();
    if !encoder.has_room_for(node) {
        return Err(TreeError::CapacityExceeded);
    }
    node.encode(&mut encoder);
    Ok(encoder.finish())
}

fn combinators(node: &Node) -> usize {
    let own = if node.kind().is_leaf() { 0 } else { 1 };
    own + node.get_children().iter().map(combinators).sum::<usize>()
}

/// Checks that every node begun at a full counter is a leaf, and returns the
/// counter as the tree leaves it.
fn check_counter(node: &Node, count: usize) -> usize {
    if count >= LEAF_ONLY_FROM {
        assert!(node.kind().is_leaf());
    }
    let mut next = count + 1;
    for child in node.get_children() {
        next = check_counter(child, next);
    }
    next
}

#[test]
fn leaf_only_from_half_the_budget() {
    assert_eq!(LEAF_ONLY_FROM, 64);
    assert_eq!(2 * LEAF_ONLY_FROM, INSTRUCTION_COUNT);
}

#[test]
fn fullness_decides_between_leaf_and_combinator() {
    // an empty tree never starts with a leaf
    for u in 0..128 {
        assert!(!leans_to_leaf(0, u));
    }
    // fullness 2 * 16 / 128 is a quarter
    assert!(leans_to_leaf(16, 0));
    assert!(leans_to_leaf(16, 31));
    assert!(!leans_to_leaf(16, 32));
    assert!(!leans_to_leaf(16, 127));
    // fullness 2 * 63 / 128 is just short of one
    assert!(leans_to_leaf(63, 125));
    assert!(!leans_to_leaf(63, 126));
    // from half the budget on every draw gives a leaf
    for count in [64usize, 65, 128, 1000, usize::MAX] {
        for u in 0..128 {
            assert!(leans_to_leaf(count, u));
        }
    }
    assert!(!leans_to_leaf(64, 128));
    assert!(leans_to_leaf(usize::MAX, u64::MAX));
}

#[test]
fn dispatch_finds_the_operator_of_the_right_sort() {
    assert_eq!(dispatch(1, true), Ok(OpKind::Const));
    assert_eq!(dispatch(6, true), Ok(OpKind::PolarTheta));
    assert_eq!(dispatch(8, false), Ok(OpKind::Absolute));
    assert_eq!(dispatch(19, false), Ok(OpKind::Squircle));
}

#[test]
fn dispatch_refuses_what_the_catalog_cannot_build() {
    // no such opcode
    assert_eq!(dispatch(0, true), Err(TreeError::CatalogInconsistency));
    assert_eq!(dispatch(7, true), Err(TreeError::CatalogInconsistency));
    assert_eq!(dispatch(7, false), Err(TreeError::CatalogInconsistency));
    assert_eq!(dispatch(20, false), Err(TreeError::CatalogInconsistency));
    // of the wrong sort
    assert_eq!(dispatch(1, false), Err(TreeError::CatalogInconsistency));
    assert_eq!(dispatch(19, true), Err(TreeError::CatalogInconsistency));
}

#[test]
fn root_is_always_a_combinator() {
    let mut rng = StdRng::seed_from_u64(1);
    for _ in 0..300 {
        let mut counter = 0;
        let node = Node::new(&mut rng, &mut counter);
        assert!(!node.kind().is_leaf());
    }
}

#[test]
fn counter_advances_by_the_number_of_nodes() {
    let mut rng = StdRng::seed_from_u64(2);
    for start in [0usize, 1, 10, 40, 63, 64, 65, 1000] {
        for _ in 0..50 {
            let mut counter = start;
            let node = Node::new(&mut rng, &mut counter);
            assert_eq!(counter, start + count(&node));
        }
    }
}

#[test]
fn full_tree_grows_only_leaves() {
    let mut rng = StdRng::seed_from_u64(3);
    for start in [LEAF_ONLY_FROM, LEAF_ONLY_FROM + 1, 200, usize::MAX - 1] {
        for _ in 0..100 {
            let mut counter = start;
            let node = Node::new(&mut rng, &mut counter);
            assert!(node.kind().is_leaf());
            assert_eq!(counter, start + 1);
        }
    }
}

#[test]
fn tree_size_is_bounded_by_the_counter() {
    let mut rng = StdRng::seed_from_u64(4);
    for start in [0usize, 1, 20, 50, 63] {
        for _ in 0..200 {
            let mut counter = start;
            let node = Node::new(&mut rng, &mut counter);
            assert!(count(&node) <= 2 * (LEAF_ONLY_FROM - start) + 1);
        }
    }
}

#[test]
fn no_combinator_is_begun_at_a_full_counter() {
    let mut rng = StdRng::seed_from_u64(17);
    for start in [0usize, 30, 60, 63, 64, 70] {
        for _ in 0..100 {
            let mut counter = start;
            let node = Node::new(&mut rng, &mut counter);
            assert_eq!(check_counter(&node, start), counter);
            assert!(combinators(&node) <= LEAF_ONLY_FROM.saturating_sub(start));
        }
    }
}

#[test]
fn synthesized_trees_follow_the_catalog() {
    let mut rng = StdRng::seed_from_u64(5);
    for _ in 0..100 {
        let tree = Tree::new(&mut rng);
        for channel in 0..3 {
            check_against_catalog(tree.layer(channel));
            assert!(!tree.layer(channel).kind().is_leaf());
        }
    }
}

#[test]
fn sinc_and_sine_are_never_drawn() {
    fn walk(node: &Node) {
        assert!(node.kind() != OpKind::Sinc && node.kind() != OpKind::Sine);
        for child in node.get_children() {
            walk(child);
        }
    }
    let mut rng = StdRng::seed_from_u64(6);
    for _ in 0..100 {
        let mut counter = 0;
        walk(&Node::new(&mut rng, &mut counter));
    }
}

#[test]
fn same_seed_grows_the_same_tree() {
    for seed in 0..20 {
        let first = Tree::new(&mut StdRng::seed_from_u64(seed));
        let second = Tree::new(&mut StdRng::seed_from_u64(seed));
        assert_eq!(first.show(), second.show());
        for channel in 0..3 {
            assert_eq!(
                first.compile(channel),
                second.compile(channel)
            );
        }
    }
}

#[test]
fn channels_are_drawn_independently() {
    let tree = Tree::new(&mut StdRng::seed_from_u64(7));
    let red = tree.layer(0).show(0);
    let green = tree.layer(1).show(0);
    let blue = tree.layer(2).show(0);
    assert!(red != green && green != blue && red != blue);
}

#[test]
fn synthesis_and_compilation_stay_within_capacity() {
    // A tree has at most 129 nodes and seven constants per node, so the pool
    // always suffices. Only a tree of exactly 129 nodes, in which each of
    // the first 64 nodes is a combinator of two operands, is too large for
    // the instruction buffer; it is refused and never truncated.
    for seed in 0..400 {
        let tree = Tree::new(&mut StdRng::seed_from_u64(seed));
        for channel in 0..3 {
            let layer = tree.layer(channel);
            let nodes = count(layer);
            assert!(nodes <= INSTRUCTION_COUNT + 1);
            assert!(constants(layer) <= 7 * nodes);
            assert!(combinators(layer) <= LEAF_ONLY_FROM);
            assert!(constants(layer) <= 4 * 64 + 7 * 65);
            assert_eq!(check_counter(layer, 0), nodes);
            match tree.compile(channel) {
                Ok((instrs, _)) => {
                    assert!(nodes <= INSTRUCTION_COUNT);
                    assert_eq!(instrs.iter().filter(|&&w| w != 0).count(), nodes);
                }
                Err(e) => {
                    assert_eq!(e, TreeError::CapacityExceeded);
                    assert_eq!(nodes, INSTRUCTION_COUNT + 1);
                }
            }
        }
    }
}

#[test]
fn fixed_seed_end_to_end() {
    let mut rng = StdRng::seed_from_u64(42);
    let mut counter = 0;
    let node = Node::new(&mut rng, &mut counter);
    let (instrs, pool) = compile(&node).expect("fits");
    // the first word belongs to the leftmost leaf
    let id = (instrs[0] & 0xff) as usize;
    assert_eq!(id, 2);
    assert_eq!(OpKind::from_opcode(id), Some(OpKind::Ellipse));
    assert_eq!((instrs[0] >> 8) & 0xff, 0);
    let kind = OpKind::from_opcode(id).expect("an opcode of the catalog");
    let first = kind.constants()[0];
    assert_eq!((instrs[0] >> 16) & 0xff, kind.constant_count() as u32);
    assert!(first.min <= pool[0] && pool[0] <= first.max);
    // the first constant of an ellipse is a horizontal position
    let position = f64::from(pool[0]) / f64::from(UNIT);
    assert!(-1.0 <= position && position < 1.0);
    assert_eq!(counter, count(&node));
}

#[test]
fn one_word_per_synthesized_node() {
    let mut rng = StdRng::seed_from_u64(8);
    for _ in 0..200 {
        let mut counter = 0;
        let node = Node::new(&mut rng, &mut counter);
        if let Ok((instrs, pool)) = compile(&node) {
            let words = instrs.iter().take_while(|&&w| w != 0).count();
            assert_eq!(words, count(&node));
            assert!(instrs[words..].iter().all(|&w| w == 0));
            let consumed: u32 = instrs.iter().map(|w| (w >> 16) & 0xff).sum();
            assert_eq!(consumed as usize, constants(&node));
            assert!(pool[constants(&node)..].iter().all(|&v| v == 0));
        }
    }
}

#[test]
fn standard_rates_never_fail() {
    let leaves = leaf_rates();
    let ops = op_rates();
    let mut rng = StdRng::seed_from_u64(9);
    for _ in 0..200 {
        let mut counter = 0;
        let made = Node::with_rates(&mut rng, &mut counter, &leaves, &ops);
        let node = made.expect("the standard tables agree with the catalog");
        check_against_catalog(&node);
        assert_eq!(counter, count(&node));
    }
}

#[test]
fn given_rates_decide_what_is_grown() {
    let leaves = [Rate { weight: 1, opcode: 6 }];
    let ops = [Rate { weight: 5, opcode: 9 }, Rate { weight: 0, opcode: 19 }];
    let mut rng = StdRng::seed_from_u64(10);
    for _ in 0..50 {
        let mut counter = 0;
        let mut node = &Node::with_rates(&mut rng, &mut counter, &leaves, &ops).expect("consistent");
        // a chain of inversions above one leaf
        while !node.kind().is_leaf() {
            assert_eq!(node.kind(), OpKind::Invert);
            node = &node.get_children()[0];
        }
        assert_eq!(node.kind(), OpKind::PolarTheta);
    }
}

#[test]
fn unknown_opcode_among_the_rates_is_a_catalog_inconsistency() {
    let leaves = leaf_rates();
    let mut rng = StdRng::seed_from_u64(11);
    let mut counter = 0;
    // the root is a combinator, and the only combinator on offer does not exist
    let made = Node::with_rates(&mut rng, &mut counter, &leaves, &[Rate { weight: 1, opcode: 7 }]);
    assert_eq!(made.err(), Some(TreeError::CatalogInconsistency));
    // at a full counter the node is a leaf
    let mut counter = LEAF_ONLY_FROM;
    let made = Node::with_rates(
        &mut rng,
        &mut counter,
        &[Rate { weight: 3, opcode: 42 }],
        &op_rates(),
    );
    assert_eq!(made.err(), Some(TreeError::CatalogInconsistency));
}

#[test]
fn operator_of_the_wrong_sort_is_a_catalog_inconsistency() {
    let mut rng = StdRng::seed_from_u64(12);
    // a leaf among the combinator rates
    let mut counter = 0;
    let made = Node::with_rates(
        &mut rng,
        &mut counter,
        &leaf_rates(),
        &[Rate { weight: 1, opcode: 1 }],
    );
    assert_eq!(made.err(), Some(TreeError::CatalogInconsistency));
    // a combinator among the leaf rates
    let mut counter = LEAF_ONLY_FROM;
    let made = Node::with_rates(
        &mut rng,
        &mut counter,
        &[Rate { weight: 1, opcode: 10 }],
        &op_rates(),
    );
    assert_eq!(made.err(), Some(TreeError::CatalogInconsistency));
}

#[test]
fn failure_below_the_root_ends_the_whole_tree() {
    // combinators are fine, but the first leaf cannot be built
    let mut rng = StdRng::seed_from_u64(13);
    for _ in 0..50 {
        let mut counter = 0;
        let made = Node::with_rates(
            &mut rng,
            &mut counter,
            &[Rate { weight: 1, opcode: 0 }],
            &op_rates(),
        );
        assert_eq!(made.err(), Some(TreeError::CatalogInconsistency));
    }
}

#[test]
fn rates_that_cannot_be_drawn_from_are_refused() {
    let mut rng = StdRng::seed_from_u64(14);
    let mut counter = 5;
    let made = Node::with_rates(&mut rng, &mut counter, &[], &op_rates());
    assert_eq!(made.err(), Some(TreeError::CatalogInconsistency));
    assert_eq!(counter, 5);
    let made = Node::with_rates(
        &mut rng,
        &mut counter,
        &leaf_rates(),
        &[Rate { weight: 0, opcode: 10 }, Rate { weight: 0, opcode: 11 }],
    );
    assert_eq!(made.err(), Some(TreeError::CatalogInconsistency));
    assert_eq!(counter, 5);
}

#[test]
fn rows_without_weight_may_name_anything() {
    let leaves = [Rate { weight: 0, opcode: 99 }, Rate { weight: 1, opcode: 1 }];
    let ops = [Rate { weight: 1, opcode: 8 }, Rate { weight: 0, opcode: 7 }];
    let mut rng = StdRng::seed_from_u64(15);
    for _ in 0..50 {
        let mut counter = 0;
        assert!(Node::with_rates(&mut rng, &mut counter, &leaves, &ops).is_ok());
    }
}
