//! The bytecode compiler: flattens a tree into instruction words and a pool
//! of constants, both in postorder.
//!
//! Each node becomes one 32-bit word that names its operator and says how
//! many operands it pops and how many pool entries it consumes. The words of
//! a node's subtrees, left to right, precede the node's own word, and the
//! same holds of the pool entries, so an evaluator that walks both buffers
//! front to back always finds an operator's operands on its stack.
//!
//! A tree is written whole or not at all. Writing asks for room by
//! precondition; [`InstructionEncoder::has_room_for`] and [`Tree::compile`]
//! test for it, and a tree that does not fit is refused before a single word
//! is written.

use crate::catalog::{CONSTANT_POOL_SIZE, INSTRUCTION_COUNT};
use crate::constant::Constant;
use crate::error::TreeError;
use crate::tree::{total_nodes, Node, Opcode, Tree};
use vstd::prelude::*;

verus! {

/// The instruction word of an operator: its id in bits 0 to 7, the number of
/// its operands in bits 8 to 15, the number of its constants in bits 16 to
/// 23. The two counts are taken modulo 256; the top byte is zero.
pub open spec fn instruction_word(opcode: usize, child_count: nat, constant_count: nat) -> u32 {
    (opcode + 256 * (child_count % 256) + 65536 * (constant_count % 256)) as u32
}

/// The words of a sequence of trees, one tree after the other.
pub open spec fn all_instructions(nodes: Seq<Node>) -> Seq<u32>
    decreases nodes,
{
    if nodes.len() == 0 {
        Seq::empty()
    } else {
        all_instructions(nodes.drop_last()) + nodes.last().instructions()
    }
}

/// The pool entries of a sequence of trees, one tree after the other.
pub open spec fn all_pools(nodes: Seq<Node>) -> Seq<i32>
    decreases nodes,
{
    if nodes.len() == 0 {
        Seq::empty()
    } else {
        all_pools(nodes.drop_last()) + nodes.last().pool()
    }
}

/// Current values of a run of constants.
pub open spec fn values_of(constants: Seq<Constant>) -> Seq<i32> {
    Seq::new(constants.len(), |i: int| constants[i]@.value as i32)
}

/// The values that a run of constants has one tick later.
pub open spec fn next_values_of(constants: Seq<Constant>) -> Seq<i32> {
    Seq::new(constants.len(), |i: int| constants[i]@.step().value as i32)
}

/// The pool entries that a sequence of trees has one tick later.
pub open spec fn all_next_pools(nodes: Seq<Node>) -> Seq<i32>
    decreases nodes,
{
    if nodes.len() == 0 {
        Seq::empty()
    } else {
        all_next_pools(nodes.drop_last()) + nodes.last().next_pool()
    }
}

impl Node {
    /// The node's own instruction word.
    pub open spec fn word(&self) -> u32 {
        instruction_word(
            self.spec_kind().spec_opcode(),
            self.children().len(),
            self.constants().len(),
        )
    }

    /// The instruction words of the tree in postorder.
    pub open spec fn instructions(&self) -> Seq<u32>
        decreases self,
    {
        proof {
            self.lemma_children_are_smaller();
        }
        all_instructions(self.children()) + seq![self.word()]
    }

    /// The constants of the tree in postorder: those of the subtrees, then
    /// the node's own.
    pub open spec fn pool(&self) -> Seq<i32>
        decreases self,
    {
        proof {
            self.lemma_children_are_smaller();
        }
        all_pools(self.children()) + values_of(self.constants())
    }

    /// The pool of the tree one tick later: every entry in its place, moved
    /// on by one step.
    pub open spec fn next_pool(&self) -> Seq<i32>
        decreases self,
    {
        proof {
            self.lemma_children_are_smaller();
        }
        all_next_pools(self.children()) + next_values_of(self.constants())
    }
}

/// Consuming one more tree of a sequence appends that tree's words and pool
/// entries to what the trees before it gave.
pub proof fn lemma_take_next(nodes: Seq<Node>, i: int)
    requires
        0 <= i < nodes.len(),
    ensures
        all_instructions(nodes.take(i + 1)) == all_instructions(nodes.take(i))
            + nodes[i].instructions(),
        all_pools(nodes.take(i + 1)) == all_pools(nodes.take(i)) + nodes[i].pool(),
        total_nodes(nodes.take(i + 1)) == total_nodes(nodes.take(i)) + nodes[i].node_count(),
{
    assert(nodes.take(i + 1).drop_last() =~= nodes.take(i));
}

/// The first trees of a sequence never need more room than all of them.
pub proof fn lemma_prefix_needs_less(nodes: Seq<Node>, i: int)
    requires
        0 <= i <= nodes.len(),
    ensures
        total_nodes(nodes.take(i)) <= total_nodes(nodes),
        all_pools(nodes.take(i)).len() <= all_pools(nodes).len(),
    decreases nodes.len() - i,
{
    if i < nodes.len() {
        lemma_prefix_needs_less(nodes, i + 1);
        lemma_take_next(nodes, i);
    } else {
        assert(nodes.take(i) =~= nodes);
    }
}

/// Postorder traversal emits exactly one instruction word per node.
pub proof fn lemma_one_word_per_node(node: Node)
    ensures
        node.instructions().len() == node.node_count(),
    decreases node,
{
    node.lemma_children_are_smaller();
    lemma_one_word_per_node_each(node.children());
}

/// A sequence of trees yields as many words as it has nodes.
pub proof fn lemma_one_word_per_node_each(nodes: Seq<Node>)
    ensures
        all_instructions(nodes).len() == total_nodes(nodes),
    decreases nodes,
{
    if nodes.len() > 0 {
        lemma_one_word_per_node_each(nodes.drop_last());
        lemma_one_word_per_node(nodes.last());
    }
}

/// A tick changes no instruction word and moves no pool entry to another
/// place: the tree one tick later compiles to the same words, and to a pool
/// of the same length that holds every value moved on by one step.
pub proof fn lemma_tick_keeps_words(before: Node, after: Node)
    requires
        before.ticks_to(after),
    ensures
        after.node_count() == before.node_count(),
        after.instructions() == before.instructions(),
        after.pool() == before.next_pool(),
        after.pool().len() == before.pool().len(),
    decreases before,
{
    before.lemma_children_are_smaller();
    lemma_tick_keeps_words_each(before.children(), after.children());
}

/// The same, of trees in a row.
pub proof fn lemma_tick_keeps_words_each(before: Seq<Node>, after: Seq<Node>)
    requires
        before.len() == after.len(),
        forall|i: int| 0 <= i < before.len() ==> before[i].ticks_to(#[trigger] after[i]),
    ensures
        total_nodes(after) == total_nodes(before),
        all_instructions(after) == all_instructions(before),
        all_pools(after) == all_next_pools(before),
        all_pools(after).len() == all_pools(before).len(),
    decreases before,
{
    if before.len() > 0 {
        assert forall|i: int|
            0 <= i < before.drop_last().len() implies before.drop_last()[i].ticks_to(
            #[trigger] after.drop_last()[i],
        ) by {
        }
        lemma_tick_keeps_words_each(before.drop_last(), after.drop_last());
        lemma_tick_keeps_words(before.last(), after.last());
    }
}

/// The instruction word says by itself which operator it stands for, how
/// many operands it pops and how many pool entries it consumes, and its top
/// byte is zero.
pub proof fn lemma_word_is_self_describing(opcode: usize, child_count: nat, constant_count: nat)
    requires
        opcode < 256,
        child_count < 256,
        constant_count < 256,
    ensures
        instruction_word(opcode, child_count, constant_count) & 0xff == opcode,
        (instruction_word(opcode, child_count, constant_count) >> 8) & 0xff == child_count,
        (instruction_word(opcode, child_count, constant_count) >> 16) & 0xff == constant_count,
        instruction_word(opcode, child_count, constant_count) >> 24 == 0,
{
    let id = opcode as u32;
    let children = child_count as u32;
    let constants = constant_count as u32;
    let word = instruction_word(opcode, child_count, constant_count);
    assert({
        let w = (id + 256 * children + 65536 * constants) as u32;
        &&& w & 0xff == id
        &&& (w >> 8) & 0xff == children
        &&& (w >> 16) & 0xff == constants
        &&& w >> 24 == 0
    }) by (bit_vector)
        requires
            id < 256,
            children < 256,
            constants < 256,
    ;
}

/// `content` followed by zeros up to length `size`.
pub open spec fn zero_padded<T>(content: Seq<T>, size: nat, zero: T) -> Seq<T> {
    Seq::new(size, |i: int| if i < content.len() { content[i] } else { zero })
}

/// What compiling a tree gives: both buffers filled from the front and
/// padded with zeros, or the fault of a tree that does not fit.
pub open spec fn compiled(node: Node) -> Result<(Seq<u32>, Seq<i32>), TreeError> {
    if node.node_count() <= INSTRUCTION_COUNT && node.pool().len() <= CONSTANT_POOL_SIZE {
        Ok(
            (
                zero_padded(node.instructions(), INSTRUCTION_COUNT as nat, 0u32),
                zero_padded(node.pool(), CONSTANT_POOL_SIZE as nat, 0i32),
            ),
        )
    } else {
        Err(TreeError::CapacityExceeded)
    }
}

/// A pair of buffers under construction.
pub struct InstructionEncoder {
    instrs: [u32; 128],
    instr_offset: usize,
    constant_pool: [i32; 1024],
    pool_offset: usize,
}

/// What an [`InstructionEncoder`] holds so far.
pub struct EncoderView {
    /// The instruction words written, oldest first.
    pub instructions: Seq<u32>,
    /// The pool entries written, oldest first.
    pub constants: Seq<i32>,
}

impl View for InstructionEncoder {
    type V = EncoderView;

    closed spec fn view(&self) -> EncoderView {
        EncoderView {
            instructions: self.instrs@.take(self.instr_offset as int),
            constants: self.constant_pool@.take(self.pool_offset as int),
        }
    }
}

impl InstructionEncoder {
    /// The cursors are within the buffers and every slot not yet written is
    /// zero.
    pub closed spec fn wf(&self) -> bool {
        &&& self.instr_offset <= INSTRUCTION_COUNT
        &&& self.pool_offset <= CONSTANT_POOL_SIZE
        &&& forall|i: int| self.instr_offset <= i < INSTRUCTION_COUNT ==> self.instrs@[i] == 0u32
        &&& forall|i: int|
            self.pool_offset <= i < CONSTANT_POOL_SIZE ==> self.constant_pool@[i] == 0i32
    }

    /// Size in bytes of the instruction buffer: four bytes for each word.
    pub fn instruction_buffer_size() -> (bytes: u64)
        ensures
            bytes == 4 * INSTRUCTION_COUNT,
    {
        4 * (INSTRUCTION_COUNT as u64)
    }

    /// Size in bytes of the constant pool: four bytes for each entry.
    pub fn pool_buffer_size() -> (bytes: u64)
        ensures
            bytes == 4 * CONSTANT_POOL_SIZE,
    {
        4 * (CONSTANT_POOL_SIZE as u64)
    }

    /// An encoder that holds nothing.
    pub fn new() -> (encoder: InstructionEncoder)
        ensures
            encoder.wf(),
            encoder@.instructions.len() == 0,
            encoder@.constants.len() == 0,
    {
        InstructionEncoder {
            instrs: [0u32; 128],
            instr_offset: 0,
            constant_pool: [0i32; 1024],
            pool_offset: 0,
        }
    }

    /// Hands out both buffers: what was written, then zeros.
    pub fn finish(self) -> (buffers: ([u32; 128], [i32; 1024]))
        requires
            self.wf(),
        ensures
            buffers.0@ == zero_padded(self@.instructions, INSTRUCTION_COUNT as nat, 0u32),
            buffers.1@ == zero_padded(self@.constants, CONSTANT_POOL_SIZE as nat, 0i32),
    {
        proof {
            assert(self.constant_pool@ =~= zero_padded(
                self@.constants,
                CONSTANT_POOL_SIZE as nat,
                0i32,
            ));
        }
        (self.instrs, self.constant_pool)
    }

    /// Number of instruction words and of pool entries that can still be
    /// written.
    pub fn room(&self) -> (left: (usize, usize))
        requires
            self.wf(),
        ensures
            left.0 == INSTRUCTION_COUNT - self@.instructions.len(),
            left.1 == CONSTANT_POOL_SIZE - self@.constants.len(),
    {
        (INSTRUCTION_COUNT - self.instr_offset, CONSTANT_POOL_SIZE - self.pool_offset)
    }

    /// Whether the buffers have room left for all of `op`.
    pub open spec fn fits(&self, op: &Node) -> bool {
        &&& self@.instructions.len() + op.node_count() <= INSTRUCTION_COUNT
        &&& self@.constants.len() + op.pool().len() <= CONSTANT_POOL_SIZE
    }

    /// Whether the buffers have room left for all of `op`. A tree may be
    /// pushed only where this holds.
    pub fn has_room_for(&self, op: &Node) -> (yes: bool)
        requires
            self.wf(),
        ensures
            yes == self.fits(op),
    {
        let (words, entries) = self.room();
        op.size_within(words, entries).is_some()
    }

    /// Appends one entry to the constant pool, which must not be full.
    pub fn push_constant(&mut self, value: i32)
        requires
            old(self).wf(),
            old(self)@.constants.len() < CONSTANT_POOL_SIZE,
        ensures
            final(self).wf(),
            final(self)@.instructions == old(self)@.instructions,
            final(self)@.constants == old(self)@.constants.push(value),
    {
        self.constant_pool[self.pool_offset] = value;
        self.pool_offset = self.pool_offset + 1;
    }

    /// Appends one instruction word to the buffer, which must not be full.
    fn push_word(&mut self, word: u32)
        requires
            old(self).wf(),
            old(self)@.instructions.len() < INSTRUCTION_COUNT,
        ensures
            final(self).wf(),
            final(self)@.constants == old(self)@.constants,
            final(self)@.instructions == old(self)@.instructions.push(word),
    {
        self.instrs[self.instr_offset] = word;
        self.instr_offset = self.instr_offset + 1;
    }

    /// Appends a tree in postorder: its subtrees from left to right, then
    /// the constants of its root, then the instruction word of its root.
    /// The buffers must have room for the whole tree.
    pub fn push(&mut self, op: &Node)
        requires
            old(self).wf(),
            old(self).fits(op),
        ensures
            final(self).wf(),
            final(self)@.instructions == old(self)@.instructions + op.instructions(),
            final(self)@.constants == old(self)@.constants + op.pool(),
        decreases op, 0nat,
    {
        let children = op.get_children();
        let consts = op.get_constants();
        let mut i: usize = 0;
        while i < children.len()
            invariant
                self.wf(),
                i <= children.len(),
                children@ == op.children(),
                old(self).fits(op),
                self@.instructions == old(self)@.instructions + all_instructions(
                    children@.take(i as int),
                ),
                self@.constants == old(self)@.constants + all_pools(children@.take(i as int)),
            decreases children.len() - i,
        {
            proof {
                op.lemma_child_is_smaller(i as int);
                lemma_take_next(children@, i as int);
                lemma_prefix_needs_less(children@, i + 1);
                lemma_one_word_per_node_each(children@.take(i as int));
            }
            children[i].encode(self);
            i = i + 1;
        }
        proof {
            assert(children@.take(i as int) =~= children@);
        }
        let mut j: usize = 0;
        while j < consts.len()
            invariant
                self.wf(),
                j <= consts.len(),
                consts@ == op.constants(),
                old(self).fits(op),
                self@.instructions == old(self)@.instructions + all_instructions(op.children()),
                self@.constants == old(self)@.constants + all_pools(op.children()) + values_of(
                    consts@,
                ).take(j as int),
            decreases consts.len() - j,
        {
            self.push_constant(consts[j].value());
            proof {
                assert(values_of(consts@).take(j + 1) =~= values_of(consts@).take(j as int).push(
                    consts@[j as int]@.value as i32,
                ));
            }
            j = j + 1;
        }
        proof {
            assert(values_of(consts@).take(j as int) =~= values_of(consts@));
        }
        let id: u32 = op.opcode() as u32;
        let child_count: u32 = (children.len() % 256) as u32;
        let constant_count: u32 = (consts.len() % 256) as u32;
        let word: u32 = constant_count << 16 | child_count << 8 | id;
        proof {
            assert(constant_count << 16 | child_count << 8 | id == id + 256 * child_count + 65536
                * constant_count) by (bit_vector)
                requires
                    id < 256,
                    child_count < 256,
                    constant_count < 256,
            ;
            assert(word == op.word());
        }
        proof {
            lemma_one_word_per_node_each(children@);
        }
        self.push_word(word);
    }
}

impl Node {
    /// Appends this tree to what `encoder` holds, which must have room for
    /// it. See [`InstructionEncoder::push`].
    pub fn encode(&self, encoder: &mut InstructionEncoder)
        requires
            old(encoder).wf(),
            old(encoder).fits(self),
        ensures
            final(encoder).wf(),
            final(encoder)@.instructions == old(encoder)@.instructions + self.instructions(),
            final(encoder)@.constants == old(encoder)@.constants + self.pool(),
        decreases self, 1nat,
    {
        encoder.push(self)
    }

    /// Number of nodes and of constants of the tree, provided it has no
    /// more than `words` nodes and no more than `entries` constants.
    pub fn size_within(&self, words: usize, entries: usize) -> (size: Option<(usize, usize)>)
        ensures
            size is Some <==> self.node_count() <= words && self.pool().len() <= entries,
            size matches Some(found) ==> found.0 == self.node_count() && found.1
                == self.pool().len(),
        decreases self,
    {
        if words == 0 {
            return None;
        }
        let children = self.get_children();
        let consts = self.get_constants();
        let mut nodes: usize = 1;
        let mut constants: usize = 0;
        let mut i: usize = 0;
        while i < children.len()
            invariant
                i <= children.len(),
                children@ == self.children(),
                nodes == 1 + total_nodes(children@.take(i as int)),
                constants == all_pools(children@.take(i as int)).len(),
                nodes <= words,
                constants <= entries,
            decreases children.len() - i,
        {
            proof {
                self.lemma_child_is_smaller(i as int);
                lemma_take_next(children@, i as int);
                lemma_prefix_needs_less(children@, i + 1);
            }
            match children[i].size_within(words - nodes, entries - constants) {
                Some(found) => {
                    nodes = nodes + found.0;
                    constants = constants + found.1;
                },
                None => {
                    return None;
                },
            }
            i = i + 1;
        }
        proof {
            assert(children@.take(i as int) =~= children@);
        }
        if consts.len() > entries - constants {
            return None;
        }
        Some((nodes, constants + consts.len()))
    }
}

impl Tree {
    /// Whether `outcome` is what compiling channel `offset` gives.
    pub open spec fn compiles_to(
        &self,
        offset: int,
        outcome: Result<([u32; 128], [i32; 1024]), TreeError>,
    ) -> bool {
        match outcome {
            Ok(buffers) => compiled(self.layers()[offset]) == Ok::<_, TreeError>(
                (buffers.0@, buffers.1@),
            ),
            Err(e) => compiled(self.layers()[offset]) == Err::<(Seq<u32>, Seq<i32>), _>(e),
        }
    }

    /// Compiles one channel into the two buffers that are uploaded to the
    /// evaluator: instruction words and constant pool, each in postorder and
    /// padded with zeros. The channel must fit the buffers; [`Tree::compile`]
    /// tests that first.
    pub fn encode_upload_buffer(&self, offset: usize) -> (buffers: ([u32; 128], [i32; 1024]))
        requires
            offset < 3,
            compiled(self.layers()[offset as int]) is Ok,
        ensures
            self.compiles_to(offset as int, Ok(buffers)),
    {
        let mut encoder = InstructionEncoder::new();
        let layer = self.layer(offset);
        layer.encode(&mut encoder);
        encoder.finish()
    }

    /// Compiles one channel, or reports that it does not fit: a channel with
    /// more nodes than there are instruction words, or more constants than
    /// the pool has entries, gives [`TreeError::CapacityExceeded`] and no
    /// buffers.
    pub fn compile(&self, offset: usize) -> (outcome: Result<([u32; 128], [i32; 1024]), TreeError>)
        requires
            offset < 3,
        ensures
            self.compiles_to(offset as int, outcome),
    {
        match self.layer(offset).size_within(INSTRUCTION_COUNT, CONSTANT_POOL_SIZE) {
            Some(_) => Ok(self.encode_upload_buffer(offset)),
            None => Err(TreeError::CapacityExceeded),
        }
    }
}

/// Compiling a channel depends on nothing but the tree: two compilations
/// with no tick between them give the same outcome, word for word.
pub proof fn lemma_compile_is_deterministic(
    tree: Tree,
    offset: int,
    first: Result<([u32; 128], [i32; 1024]), TreeError>,
    second: Result<([u32; 128], [i32; 1024]), TreeError>,
)
    requires
        tree.compiles_to(offset, first),
        tree.compiles_to(offset, second),
    ensures
        first == second,
{
    match (first, second) {
        (Ok(a), Ok(b)) => {
            assert(a.0 =~= b.0);
            assert(a.1 =~= b.1);
        },
        _ => {},
    }
}

} // verus!
