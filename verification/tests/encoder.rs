use stampede::catalog::{OpKind, WrapMode, CONSTANT_POOL_SIZE, INSTRUCTION_COUNT};
use stampede::constant::Constant;
use stampede::encoder::InstructionEncoder;
use stampede::error::TreeError;
use stampede::tree::{Node, Opcode, Tree};

fn constant(value: i32) -> Constant {
    Constant::from_parts(-100_000_000, 100_000_000, value, 1_000, WrapMode::Mirror)
        .expect("valid state")
}

fn leaf(value: i32) -> Node {
    Node::from_parts(OpKind::Const, vec![constant(value)], Vec::new()).expect("a leaf")
}

fn polar(a: i32, b: i32, c: i32) -> Node {
    Node::from_parts(OpKind::PolarTheta, vec![constant(a), constant(b), constant(c)], Vec::new())
        .expect("a leaf")
}

fn unary(kind: OpKind, values: &[i32], child: Node) -> Node {
    let consts = values.iter().map(|&v| constant(v)).collect();
    Node::from_parts(kind, consts, vec![child]).expect("a unary operator")
}

fn binary(kind: OpKind, values: &[i32], lhs: Node, rhs: Node) -> Node {
    let consts = values.iter().map(|&v| constant(v)).collect();
    Node::from_parts(kind, consts, vec![lhs, rhs]).expect("a binary operator")
}

/// A chain of `depth` unary operators above one leaf.
fn chain(depth: usize) -> Node {
    let mut node = leaf(5);
    for _ in 0..depth {
        node = unary(OpKind::Absolute, &[], node);
    }
    node
}

fn compile(node: &Node) -> Result<([u32; 128], [i32; 1024]), TreeError> {
    let mut encoder = InstructionEncoder::new();
    if !encoder.has_room_for(node) {
        return Err(TreeError::CapacityExceeded);
    }
    node.encode(&mut encoder);
    Ok(encoder.finish())
}

fn count(node: &Node) -> usize {
    1 + node.get_children().iter().map(count).sum::<usize>()
}

#[test]
fn buffer_sizes_in_bytes() {
    assert_eq!(InstructionEncoder::instruction_buffer_size(), 512);
    assert_eq!(InstructionEncoder::pool_buffer_size(), 4096);
    let (instrs, pool) = InstructionEncoder::new().finish();
    assert_eq!(
        InstructionEncoder::instruction_buffer_size(),
        std::mem::size_of_val(&instrs) as u64
    );
    assert_eq!(InstructionEncoder::pool_buffer_size(), std::mem::size_of_val(&pool) as u64);
}

#[test]
fn empty_encoder_gives_zeroed_buffers() {
    let (instrs, pool) = InstructionEncoder::new().finish();
    assert_eq!(instrs.len(), INSTRUCTION_COUNT);
    assert_eq!(pool.len(), CONSTANT_POOL_SIZE);
    assert!(instrs.iter().all(|&w| w == 0));
    assert!(pool.iter().all(|&v| v == 0));
}

#[test]
fn leaf_becomes_one_word_and_its_constants() {
    let (instrs, pool) = compile(&polar(11, -22, 33)).expect("fits");
    // opcode 6, no operands, three constants
    assert_eq!(instrs[0], 6 | 0 << 8 | 3 << 16);
    assert_eq!(instrs[0], 0x0003_0006);
    assert!(instrs[1..].iter().all(|&w| w == 0));
    assert_eq!(&pool[..3], &[11, -22, 33]);
    assert!(pool[3..].iter().all(|&v| v == 0));
}

#[test]
fn word_layout_of_every_arity() {
    let tree = binary(
        OpKind::Squircle,
        &[1, 2, 3, 4],
        unary(OpKind::Sine, &[5, 6], leaf(7)),
        leaf(8),
    );
    let (instrs, _) = compile(&tree).expect("fits");
    assert_eq!(instrs[0], 0x0001_0001); // Const
    assert_eq!(instrs[1], 0x0002_0111); // Sine: id 17, one operand, two constants
    assert_eq!(instrs[2], 0x0001_0001); // Const
    assert_eq!(instrs[3], 0x0004_0213); // Squircle: id 19, two operands, four constants
    assert_eq!(instrs[4], 0);
    for word in &instrs[..4] {
        assert_eq!(word >> 24, 0);
    }
}

#[test]
fn operands_come_before_their_operator() {
    // (1 + 2) - |3|
    let tree = binary(
        OpKind::Subtract,
        &[],
        binary(OpKind::Add, &[], leaf(1), leaf(2)),
        unary(OpKind::Absolute, &[], leaf(3)),
    );
    let (instrs, pool) = compile(&tree).expect("fits");
    let ids: Vec<u32> = instrs[..6].iter().map(|w| w & 0xff).collect();
    let operands: Vec<u32> = instrs[..6].iter().map(|w| (w >> 8) & 0xff).collect();
    let constants: Vec<u32> = instrs[..6].iter().map(|w| (w >> 16) & 0xff).collect();
    assert_eq!(ids, vec![1, 1, 10, 1, 8, 11]);
    assert_eq!(operands, vec![0, 0, 2, 0, 1, 2]);
    assert_eq!(constants, vec![1, 1, 0, 1, 0, 0]);
    assert!(instrs[6..].iter().all(|&w| w == 0));
    assert_eq!(&pool[..3], &[1, 2, 3]);
    assert!(pool[3..].iter().all(|&v| v == 0));
}

#[test]
fn pool_holds_the_constants_of_the_operands_first() {
    let tree = binary(
        OpKind::Squircle,
        &[1, 2, 3, 4],
        unary(OpKind::Spiral, &[10, 20, 30, 40], polar(100, 200, 300)),
        unary(OpKind::Sinc, &[50, 60], leaf(400)),
    );
    let (instrs, pool) = compile(&tree).expect("fits");
    assert_eq!(&pool[..14], &[100, 200, 300, 10, 20, 30, 40, 400, 50, 60, 1, 2, 3, 4]);
    assert!(pool[14..].iter().all(|&v| v == 0));
    // a stack machine that walks the words finds every operand in place
    let mut depth = 0usize;
    let mut consumed = 0usize;
    for word in instrs.iter().take_while(|&&w| w != 0) {
        let operands = ((word >> 8) & 0xff) as usize;
        assert!(depth >= operands);
        depth = depth - operands + 1;
        consumed += ((word >> 16) & 0xff) as usize;
    }
    assert_eq!(depth, 1);
    assert_eq!(consumed, 14);
}

#[test]
fn one_word_per_node() {
    for depth in [0usize, 1, 2, 17, 100, 127] {
        let tree = chain(depth);
        assert_eq!(count(&tree), depth + 1);
        let (instrs, _) = compile(&tree).expect("fits");
        assert_eq!(instrs.iter().filter(|&&w| w != 0).count(), depth + 1);
    }
}

#[test]
fn tree_of_exactly_the_budget_fits() {
    let (instrs, pool) = compile(&chain(127)).expect("fits");
    assert_eq!(instrs[0], 0x0001_0001);
    assert!(instrs[1..].iter().all(|&w| w == 0x0000_0108));
    assert_eq!(pool[0], 5);
}

#[test]
fn one_node_beyond_the_budget_does_not_fit() {
    let encoder = InstructionEncoder::new();
    assert!(encoder.has_room_for(&chain(127)));
    assert!(!encoder.has_room_for(&chain(128)));
    assert!(!encoder.has_room_for(&chain(300)));
    let tree = Tree::with_layers(chain(127), chain(128), chain(300));
    assert!(tree.compile(0).is_ok());
    assert_eq!(tree.compile(1), Err(TreeError::CapacityExceeded));
    assert_eq!(tree.compile(2), Err(TreeError::CapacityExceeded));
}

#[test]
fn size_is_measured_up_to_a_limit() {
    let tree = binary(
        OpKind::Squircle,
        &[1, 2, 3, 4],
        unary(OpKind::Spiral, &[10, 20, 30, 40], polar(100, 200, 300)),
        unary(OpKind::Sinc, &[50, 60], leaf(400)),
    );
    assert_eq!(tree.size_within(128, 1024), Some((5, 14)));
    assert_eq!(tree.size_within(5, 14), Some((5, 14)));
    assert_eq!(tree.size_within(4, 14), None);
    assert_eq!(tree.size_within(5, 13), None);
    assert_eq!(tree.size_within(0, 0), None);
    assert_eq!(leaf(1).size_within(1, 1), Some((1, 1)));
    assert_eq!(leaf(1).size_within(1, 0), None);
    assert_eq!(chain(300).size_within(usize::MAX, usize::MAX), Some((301, 1)));
    assert_eq!(chain(300).size_within(300, usize::MAX), None);
}

#[test]
fn room_shrinks_as_trees_are_pushed() {
    let mut encoder = InstructionEncoder::new();
    assert_eq!(encoder.room(), (128, 1024));
    encoder.push(&polar(1, 2, 3));
    assert_eq!(encoder.room(), (127, 1021));
    encoder.push_constant(9);
    assert_eq!(encoder.room(), (127, 1020));
    encoder.push(&chain(99));
    assert_eq!(encoder.room(), (27, 1019));
}

#[test]
fn encoder_takes_several_trees_until_it_is_full() {
    let mut encoder = InstructionEncoder::new();
    assert!(encoder.has_room_for(&chain(99)));
    encoder.push(&chain(99));
    assert!(encoder.has_room_for(&chain(27)));
    assert!(!encoder.has_room_for(&chain(28)));
    encoder.push(&chain(27));
    assert_eq!(encoder.room(), (0, 1022));
    assert!(!encoder.has_room_for(&chain(0)));
    let (instrs, pool) = encoder.finish();
    assert!(instrs.iter().all(|&w| w != 0));
    assert_eq!(&pool[..3], &[5, 5, 0]);
}

#[test]
fn pool_can_be_filled_to_the_last_entry() {
    let mut encoder = InstructionEncoder::new();
    for i in 0..CONSTANT_POOL_SIZE {
        encoder.push_constant(i as i32 + 1);
    }
    assert_eq!(encoder.room(), (128, 0));
    assert!(!encoder.has_room_for(&leaf(7)));
    let (instrs, pool) = encoder.finish();
    assert!(instrs.iter().all(|&w| w == 0));
    for i in 0..CONSTANT_POOL_SIZE {
        assert_eq!(pool[i], i as i32 + 1);
    }
}

fn flower(seed: i32) -> Node {
    let consts = (0..7).map(|i| constant(seed + i)).collect();
    Node::from_parts(OpKind::Flower, consts, Vec::new()).expect("a leaf")
}

#[test]
fn pool_can_run_out_with_words_to_spare() {
    let mut encoder = InstructionEncoder::new();
    for _ in 0..1020 {
        encoder.push_constant(9);
    }
    // four entries are left: a flower needs seven
    assert!(!encoder.has_room_for(&flower(1)));
    assert!(encoder.has_room_for(&leaf(77)));
    encoder.push(&leaf(77));
    let (instrs, pool) = encoder.finish();
    assert_eq!(&instrs[..2], &[0x0001_0001, 0]);
    assert_eq!(&pool[1019..], &[9, 77, 0, 0, 0]);
}

#[test]
fn words_run_out_before_the_pool_does() {
    // three nodes and eighteen constants each
    let bush = || binary(OpKind::Squircle, &[1, 2, 3, 4], flower(10), flower(20));
    let mut encoder = InstructionEncoder::new();
    for _ in 0..42 {
        assert!(encoder.has_room_for(&bush()));
        encoder.push(&bush());
    }
    assert_eq!(encoder.room(), (2, 268));
    assert!(!encoder.has_room_for(&bush()));
    let (instrs, pool) = encoder.finish();
    assert_eq!(instrs.iter().filter(|&&w| w != 0).count(), 126);
    assert_eq!(&instrs[126..], &[0, 0]);
    assert_eq!(&pool[754..758], &[3, 4, 0, 0]);
}

#[test]
fn asking_for_room_changes_nothing() {
    let mut encoder = InstructionEncoder::new();
    encoder.push(&chain(120));
    let wide = binary(OpKind::Squircle, &[1, 2, 3, 4], chain(3), chain(3));
    assert!(!encoder.has_room_for(&wide));
    let mut untouched = InstructionEncoder::new();
    untouched.push(&chain(120));
    assert_eq!(encoder.finish(), untouched.finish());
}

#[test]
fn compiling_twice_gives_the_same_buffers() {
    let tree = Tree::with_layers(
        binary(OpKind::Multiply, &[], polar(1, 2, 3), leaf(4)),
        unary(OpKind::Invert, &[], leaf(5)),
        chain(40),
    );
    for channel in 0..3 {
        let first = tree.encode_upload_buffer(channel);
        let second = tree.encode_upload_buffer(channel);
        assert_eq!(first, second);
        assert_eq!(tree.compile(channel), Ok(first));
        assert_eq!(tree.compile(channel), tree.compile(channel));
    }
}

#[test]
fn channels_are_compiled_independently() {
    let tree = Tree::with_layers(
        binary(OpKind::Add, &[], leaf(1), leaf(2)),
        unary(OpKind::Absolute, &[], leaf(3)),
        chain(128),
    );
    let (red, red_pool) = tree.encode_upload_buffer(0);
    assert_eq!(&red[..4], &[0x0001_0001, 0x0001_0001, 0x0000_020a, 0]);
    assert_eq!(&red_pool[..3], &[1, 2, 0]);
    let (green, green_pool) = tree.compile(1).expect("fits");
    assert_eq!(&green[..3], &[0x0001_0001, 0x0000_0108, 0]);
    assert_eq!(&green_pool[..2], &[3, 0]);
    assert_eq!(tree.compile(2), Err(TreeError::CapacityExceeded));
}

#[test]
fn compiled_pool_follows_the_animation() {
    let mut tree = Tree::with_layers(leaf(10), leaf(20), leaf(30));
    let (words_before, pool_before) = tree.encode_upload_buffer(1);
    assert_eq!(pool_before[0], 20);
    tree.animate();
    let (words_after, pool_after) = tree.encode_upload_buffer(1);
    assert_eq!(pool_after[0], 1_020);
    assert_eq!(words_before, words_after);
}
