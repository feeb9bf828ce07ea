//! What an evaluator finds when it walks the instruction words of a compiled
//! channel from front to back.
//!
//! The evaluator keeps a stack of results. A word with opcode 0 does
//! nothing. Any other word pops as many operands as it says, reads as many
//! pool entries as it says, and pushes one result. The laws below say that
//! the words of a well-formed tree never pop more than was pushed, leave
//! exactly one result, and read exactly the pool entries that the compiler
//! wrote.

use crate::catalog::{CONSTANT_POOL_SIZE, INSTRUCTION_COUNT};
use crate::encoder::{
    all_instructions, all_pools, compiled, lemma_one_word_per_node, lemma_word_is_self_describing,
    zero_padded,
};
use crate::tree::Node;
use vstd::prelude::*;

verus! {

/// The opcode id that a word carries.
pub open spec fn opcode_of(word: u32) -> nat {
    (word & 0xff) as nat
}

/// The number of operands that a word pops.
pub open spec fn operands_of(word: u32) -> nat {
    ((word >> 8) & 0xff) as nat
}

/// The number of pool entries that a word reads.
pub open spec fn constants_of(word: u32) -> nat {
    ((word >> 16) & 0xff) as nat
}

/// Depth of the stack after one word, or `None` if the word pops more than
/// the stack holds.
pub open spec fn depth_after_word(word: u32, depth: nat) -> Option<nat> {
    if opcode_of(word) == 0 {
        Some(depth)
    } else if depth >= operands_of(word) {
        Some((depth - operands_of(word) + 1) as nat)
    } else {
        None
    }
}

/// Depth of the stack after a run of words, begun at `depth`, or `None` if
/// some word pops more than the stack holds.
pub open spec fn depth_after(words: Seq<u32>, depth: nat) -> Option<nat>
    decreases words.len(),
{
    if words.len() == 0 {
        Some(depth)
    } else {
        match depth_after(words.drop_last(), depth) {
            Some(before) => depth_after_word(words.last(), before),
            None => None,
        }
    }
}

/// Number of pool entries that a run of words reads.
pub open spec fn pool_use(words: Seq<u32>) -> nat
    decreases words.len(),
{
    if words.len() == 0 {
        0
    } else if opcode_of(words.last()) == 0 {
        pool_use(words.drop_last())
    } else {
        pool_use(words.drop_last()) + constants_of(words.last())
    }
}

/// Walking two runs of words one after the other is walking the second
/// from where the first ends.
pub proof fn lemma_walk_in_two_parts(first: Seq<u32>, second: Seq<u32>, depth: nat)
    ensures
        depth_after(first + second, depth) == match depth_after(first, depth) {
            Some(between) => depth_after(second, between),
            None => None,
        },
        pool_use(first + second) == pool_use(first) + pool_use(second),
    decreases second.len(),
{
    if second.len() == 0 {
        assert(first + second =~= first);
    } else {
        assert((first + second).drop_last() =~= first + second.drop_last());
        lemma_walk_in_two_parts(first, second.drop_last(), depth);
    }
}

/// The word of a well-formed node carries the node's opcode and the true
/// numbers of its operands and constants, and is never the no-op.
pub proof fn lemma_word_of_node(node: Node)
    requires
        node.wf(),
    ensures
        opcode_of(node.word()) == node.spec_kind().spec_opcode(),
        opcode_of(node.word()) != 0,
        operands_of(node.word()) == node.children().len(),
        constants_of(node.word()) == node.constants().len(),
{
    lemma_word_is_self_describing(
        node.spec_kind().spec_opcode(),
        node.children().len(),
        node.constants().len(),
    );
}

/// The words of a well-formed tree pop only what was pushed before them,
/// leave one result more than they found, and read as many pool entries as
/// the tree has constants.
pub proof fn lemma_walk_of_tree(node: Node, depth: nat)
    requires
        node.wf(),
    ensures
        depth_after(node.instructions(), depth) == Some(depth + 1),
        pool_use(node.instructions()) == node.pool().len(),
    decreases node,
{
    node.lemma_children_are_smaller();
    lemma_walk_of_trees(node.children(), depth);
    lemma_word_of_node(node);
    let operands = all_instructions(node.children());
    assert(node.instructions().drop_last() =~= operands);
}

/// The same of trees in a row: each leaves one result.
pub proof fn lemma_walk_of_trees(nodes: Seq<Node>, depth: nat)
    requires
        forall|i: int| 0 <= i < nodes.len() ==> (#[trigger] nodes[i]).wf(),
    ensures
        depth_after(all_instructions(nodes), depth) == Some(depth + nodes.len()),
        pool_use(all_instructions(nodes)) == all_pools(nodes).len(),
    decreases nodes,
{
    if nodes.len() > 0 {
        let front = nodes.drop_last();
        assert forall|i: int| 0 <= i < front.len() implies (#[trigger] front[i]).wf() by {
        }
        lemma_walk_of_trees(front, depth);
        lemma_walk_of_tree(nodes.last(), depth + front.len());
        lemma_walk_in_two_parts(all_instructions(front), nodes.last().instructions(), depth);
    }
}

/// Zeros behind a run of words change nothing: the evaluator passes over
/// them.
pub proof fn lemma_walk_ignores_padding(words: Seq<u32>, size: nat, depth: nat)
    requires
        words.len() <= size,
    ensures
        depth_after(zero_padded(words, size, 0u32), depth) == depth_after(words, depth),
        pool_use(zero_padded(words, size, 0u32)) == pool_use(words),
    decreases size,
{
    if size == words.len() {
        assert(zero_padded(words, size, 0u32) =~= words);
    } else {
        let shorter = zero_padded(words, (size - 1) as nat, 0u32);
        assert(zero_padded(words, size, 0u32).drop_last() =~= shorter);
        assert(opcode_of(0u32) == 0) by (bit_vector);
        lemma_walk_ignores_padding(words, (size - 1) as nat, depth);
    }
}

/// A compiled channel is what the evaluator expects: walking the whole
/// instruction buffer from an empty stack never pops too much and leaves
/// one result, and the pool entries read on the way are exactly those that
/// the tree put at the front of the pool.
pub proof fn lemma_walk_of_compiled_channel(node: Node)
    requires
        node.wf(),
        compiled(node) is Ok,
    ensures
        depth_after(compiled(node)->Ok_0.0, 0) == Some(1nat),
        pool_use(compiled(node)->Ok_0.0) == node.pool().len(),
        compiled(node)->Ok_0.1.take(node.pool().len() as int) == node.pool(),
{
    lemma_walk_of_tree(node, 0);
    lemma_one_word_per_node(node);
    lemma_walk_ignores_padding(node.instructions(), INSTRUCTION_COUNT as nat, 0);
    assert(zero_padded(node.pool(), CONSTANT_POOL_SIZE as nat, 0i32).take(
        node.pool().len() as int,
    ) =~= node.pool());
}

} // verus!
