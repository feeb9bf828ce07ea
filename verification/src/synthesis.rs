//! The tree synthesizer: grows a random expression tree, leaning more and
//! more towards leaves as the tree fills up.
//!
//! One counter runs through the whole of a tree and counts the nodes begun
//! so far. Before a node is chosen, a value `u` is drawn uniformly below
//! [`INSTRUCTION_COUNT`]; the node is a leaf if `u` is less than twice the
//! counter, and a combinator otherwise. The root is therefore always a
//! combinator, and from counter [`LEAF_ONLY_FROM`] on every node is a leaf.
//! That bounds the size of a tree, see [`growth_bound`].

use crate::catalog::{
    lemma_from_opcode_inverts_opcode, OpKind, CONSTANT_POOL_SIZE, INSTRUCTION_COUNT,
    MAX_COMBINATOR_CONSTANTS, MAX_CONSTANTS,
};
use crate::constant::{usable_bounds, Constant};
use crate::encoder::{all_pools, compiled};
use crate::error::TreeError;
use crate::random::sample_range;
use crate::rates::{
    drawable, guided_random_walk, leaf_rate_table, leaf_rates, lemma_selected_has_weight,
    lemma_standard_totals, op_rate_table, op_rates, selected, total_weight, weight_sum, Rate,
    LEAF_RATE_TOTAL, OP_RATE_TOTAL,
};
use crate::tree::{total_nodes, Node, Tree};
use rand::rngs::StdRng;
use vstd::prelude::*;

verus! {

/// The counter value from which on only leaves are chosen: half the
/// instruction budget.
pub const LEAF_ONLY_FROM: usize = INSTRUCTION_COUNT / 2;

/// Whether a node begun at counter value `count` is a leaf, given the draw
/// `u` below [`INSTRUCTION_COUNT`]: the draw, as a fraction of the
/// instruction budget, lies below the fullness `2 * count / budget`.
pub open spec fn prefers_leaf(count: nat, u: nat) -> bool {
    u < 2 * count
}

/// Most nodes that a tree begun at counter value `count` can have. Every
/// combinator is begun below [`LEAF_ONLY_FROM`] and has at most two
/// operands.
pub open spec fn growth_bound(count: nat) -> nat {
    if count < LEAF_ONLY_FROM {
        (2 * (LEAF_ONLY_FROM - count) + 1) as nat
    } else {
        1
    }
}

/// A table can be drawn from: its weights sum to more than zero and the sum
/// fits the generator's range.
pub open spec fn usable(rates: Seq<Rate>) -> bool {
    0 < weight_sum(rates) <= i64::MAX
}

/// Every row that can be drawn names an operator of the catalog, a leaf if
/// `leaf` and a combinator if not.
pub open spec fn dispatches(rates: Seq<Rate>, leaf: bool) -> bool {
    forall|i: int|
        0 <= i < rates.len() && (#[trigger] rates[i]).weight > 0 ==> match OpKind::spec_from_opcode(
            rates[i].opcode,
        ) {
            Some(kind) => kind.spec_is_leaf() == leaf,
            None => false,
        }
}

/// The two rate tables agree with the catalog.
pub open spec fn consistent(leaf_rates: Seq<Rate>, op_rates: Seq<Rate>) -> bool {
    &&& usable(leaf_rates)
    &&& usable(op_rates)
    &&& dispatches(leaf_rates, true)
    &&& dispatches(op_rates, false)
}

/// Every tree of a row stands where the counter allows it, the first begun
/// at counter value `count` and each next one where the one before it left
/// the counter.
pub open spec fn begun_in_turn(nodes: Seq<Node>, count: nat) -> bool
    decreases nodes,
{
    if nodes.len() == 0 {
        true
    } else {
        &&& begun_in_turn(nodes.drop_last(), count)
        &&& nodes.last().begun_at(count + total_nodes(nodes.drop_last()))
    }
}

/// Number of combinators in a row of trees.
pub open spec fn total_combinators(nodes: Seq<Node>) -> nat
    decreases nodes,
{
    if nodes.len() == 0 {
        0
    } else {
        total_combinators(nodes.drop_last()) + nodes.last().combinator_count()
    }
}

/// Number of counter values from `count` on, `nodes` of them, that lie
/// below [`LEAF_ONLY_FROM`]: the most combinators that so many nodes begun
/// from `count` on can hold.
pub open spec fn combinator_room(count: nat, nodes: nat) -> nat {
    if count >= LEAF_ONLY_FROM {
        0
    } else if count + nodes <= LEAF_ONLY_FROM {
        nodes
    } else {
        (LEAF_ONLY_FROM - count) as nat
    }
}

impl Node {
    /// The tree is one that the counter allows when its root is begun at
    /// counter value `count`: the counter goes up by one with every node, in
    /// the order in which the nodes are begun, and every node begun at
    /// [`LEAF_ONLY_FROM`] or later is a leaf.
    pub open spec fn begun_at(&self, count: nat) -> bool
        decreases self,
    {
        proof {
            self.lemma_children_are_smaller();
        }
        &&& count >= LEAF_ONLY_FROM ==> self.spec_kind().spec_is_leaf()
        &&& begun_in_turn(self.children(), count + 1)
    }

    /// Number of combinators in the tree.
    pub open spec fn combinator_count(&self) -> nat
        decreases self,
    {
        proof {
            self.lemma_children_are_smaller();
        }
        total_combinators(self.children()) + if self.spec_kind().spec_is_leaf() {
            0nat
        } else {
            1nat
        }
    }

    /// Every operator in the tree is one that a draw from the rates of its
    /// sort can give: a leaf from the leaf rates, a combinator from the
    /// combinator rates.
    pub open spec fn drawn_from(&self, leaf_rates: Seq<Rate>, op_rates: Seq<Rate>) -> bool
        decreases self,
    {
        proof {
            self.lemma_children_are_smaller();
        }
        &&& drawable(
            if self.spec_kind().spec_is_leaf() {
                leaf_rates
            } else {
                op_rates
            },
            self.spec_kind().spec_opcode(),
        )
        &&& forall|i: int|
            0 <= i < self.children().len() ==> (#[trigger] self.children()[i]).drawn_from(
                leaf_rates,
                op_rates,
            )
    }
}

/// What holds of every tree that the synthesizer returns, begun at counter
/// value `before` and leaving the counter at `after`.
pub open spec fn grown(node: Node, before: nat, after: nat) -> bool {
    &&& node.wf()
    &&& node.within_catalog()
    &&& node.fresh()
    &&& after == before + node.node_count()
    &&& node.node_count() <= growth_bound(before)
    &&& before == 0 ==> !node.spec_kind().spec_is_leaf()
    &&& node.begun_at(before)
}

/// The catalog declares usable bounds for every constant.
pub proof fn lemma_catalog_bounds_usable(kind: OpKind, i: int)
    requires
        0 <= i < kind.spec_constants().len(),
    ensures
        usable_bounds(
            kind.spec_constants()[i].min as int,
            kind.spec_constants()[i].max as int,
            kind.spec_constants()[i].wrap_mode,
        ),
{
}

/// The standard rate tables agree with the catalog, so synthesis from them
/// never meets an opcode it cannot build.
pub proof fn lemma_standard_tables_consistent()
    ensures
        consistent(leaf_rate_table(), op_rate_table()),
{
    lemma_standard_totals();
    assert forall|i: int| 0 <= i < leaf_rate_table().len() implies OpKind::spec_from_opcode(
        (#[trigger] leaf_rate_table()[i]).opcode,
    ) matches Some(kind) && kind.spec_is_leaf() by {
        lemma_from_opcode_inverts_opcode(OpKind::Const);
        lemma_from_opcode_inverts_opcode(OpKind::Ellipse);
        lemma_from_opcode_inverts_opcode(OpKind::Flower);
        lemma_from_opcode_inverts_opcode(OpKind::LinearGradient);
        lemma_from_opcode_inverts_opcode(OpKind::RadialGradient);
        lemma_from_opcode_inverts_opcode(OpKind::PolarTheta);
    }
    assert forall|i: int| 0 <= i < op_rate_table().len() implies OpKind::spec_from_opcode(
        (#[trigger] op_rate_table()[i]).opcode,
    ) matches Some(kind) && !kind.spec_is_leaf() by {
        lemma_from_opcode_inverts_opcode(OpKind::Absolute);
        lemma_from_opcode_inverts_opcode(OpKind::Invert);
        lemma_from_opcode_inverts_opcode(OpKind::Add);
        lemma_from_opcode_inverts_opcode(OpKind::Subtract);
        lemma_from_opcode_inverts_opcode(OpKind::Multiply);
        lemma_from_opcode_inverts_opcode(OpKind::Divide);
        lemma_from_opcode_inverts_opcode(OpKind::Modulus);
        lemma_from_opcode_inverts_opcode(OpKind::Exponent);
        lemma_from_opcode_inverts_opcode(OpKind::Sinc);
        lemma_from_opcode_inverts_opcode(OpKind::Sine);
        lemma_from_opcode_inverts_opcode(OpKind::Spiral);
        lemma_from_opcode_inverts_opcode(OpKind::Squircle);
    }
}

/// An operator whose rate is zero never stands in a tree drawn from the
/// standard tables: no such tree holds a sinc or a sine.
pub proof fn lemma_weightless_operators_are_never_drawn(node: Node)
    requires
        node.drawn_from(leaf_rate_table(), op_rate_table()),
    ensures
        node.spec_kind() != OpKind::Sinc,
        node.spec_kind() != OpKind::Sine,
{
    lemma_standard_totals();
    if !node.spec_kind().spec_is_leaf() {
        let rates = op_rate_table();
        let id = node.spec_kind().spec_opcode();
        let f = choose|f: nat|
            f < weight_sum(rates) && rates[#[trigger] selected(rates, f)].opcode == id;
        lemma_selected_has_weight(rates, f);
    }
}

/// A tree that the counter allows holds no more combinators than its nodes
/// take counter values below [`LEAF_ONLY_FROM`].
pub proof fn lemma_combinators_are_begun_early(node: Node, count: nat)
    requires
        node.begun_at(count),
    ensures
        node.combinator_count() <= combinator_room(count, node.node_count()),
    decreases node,
{
    node.lemma_children_are_smaller();
    lemma_combinators_are_begun_early_each(node.children(), count + 1);
}

/// The same of trees in a row.
pub proof fn lemma_combinators_are_begun_early_each(nodes: Seq<Node>, count: nat)
    requires
        begun_in_turn(nodes, count),
    ensures
        total_combinators(nodes) <= combinator_room(count, total_nodes(nodes)),
    decreases nodes,
{
    if nodes.len() > 0 {
        lemma_combinators_are_begun_early_each(nodes.drop_last(), count);
        lemma_combinators_are_begun_early(nodes.last(), count + total_nodes(nodes.drop_last()));
    }
}

/// A well-formed tree has at most one leaf more than it has combinators,
/// since no operator takes more than two operands; and its pool has at most
/// [`MAX_COMBINATOR_CONSTANTS`] entries for each combinator and
/// [`MAX_CONSTANTS`] for each leaf.
pub proof fn lemma_size_by_combinators(node: Node)
    requires
        node.wf(),
    ensures
        node.combinator_count() <= node.node_count(),
        node.node_count() <= 2 * node.combinator_count() + 1,
        node.pool().len() <= MAX_COMBINATOR_CONSTANTS * node.combinator_count() + MAX_CONSTANTS
            * (node.node_count() - node.combinator_count()),
    decreases node,
{
    node.lemma_children_are_smaller();
    lemma_size_by_combinators_each(node.children());
}

/// The same of trees in a row: at most one leaf more than combinators for
/// each tree.
pub proof fn lemma_size_by_combinators_each(nodes: Seq<Node>)
    requires
        forall|i: int| 0 <= i < nodes.len() ==> (#[trigger] nodes[i]).wf(),
    ensures
        total_combinators(nodes) <= total_nodes(nodes),
        total_nodes(nodes) <= 2 * total_combinators(nodes) + nodes.len(),
        all_pools(nodes).len() <= MAX_COMBINATOR_CONSTANTS * total_combinators(nodes)
            + MAX_CONSTANTS * (total_nodes(nodes) - total_combinators(nodes)),
    decreases nodes,
{
    if nodes.len() > 0 {
        let front = nodes.drop_last();
        assert forall|i: int| 0 <= i < front.len() implies (#[trigger] front[i]).wf() by {}
        lemma_size_by_combinators_each(front);
        lemma_size_by_combinators(nodes.last());
    }
}

/// The size of what the synthesizer grows from counter zero against the
/// budgets of a channel. The tree has at most [`LEAF_ONLY_FROM`]
/// combinators and one leaf more than that, so the constant pool always
/// suffices. The instruction buffer falls short for one size of tree only,
/// that of [`INSTRUCTION_COUNT`] plus one nodes, in which each of the first
/// [`LEAF_ONLY_FROM`] nodes is a combinator of two operands; such a tree
/// does not compile, and nothing is ever truncated.
pub proof fn lemma_grown_tree_against_budget(node: Node, after: nat)
    requires
        grown(node, 0, after),
    ensures
        node.combinator_count() <= LEAF_ONLY_FROM,
        node.node_count() <= INSTRUCTION_COUNT + 1,
        node.pool().len() <= MAX_COMBINATOR_CONSTANTS * LEAF_ONLY_FROM + MAX_CONSTANTS * (
            LEAF_ONLY_FROM + 1),
        node.pool().len() <= CONSTANT_POOL_SIZE,
        compiled(node) is Err <==> node.node_count() == INSTRUCTION_COUNT + 1,
{
    lemma_combinators_are_begun_early(node, 0);
    lemma_size_by_combinators(node);
}

/// Whether a node begun at counter value `count` is a leaf, given the draw
/// `u`.
pub fn leans_to_leaf(count: usize, u: u64) -> (leaf: bool)
    ensures
        leaf == prefers_leaf(count as nat, u as nat),
{
    (u as u128) < 2 * (count as u128)
}

/// The operator with opcode `id`, provided the catalog has it and it is a
/// leaf or a combinator as asked for.
pub fn dispatch(id: usize, leaf: bool) -> (kind: Result<OpKind, TreeError>)
    ensures
        match kind {
            Ok(k) => OpKind::spec_from_opcode(id) == Some(k) && k.spec_is_leaf() == leaf,
            Err(e) => {
                &&& e == TreeError::CatalogInconsistency
                &&& OpKind::spec_from_opcode(id) matches Some(k) ==> k.spec_is_leaf() != leaf
            },
        },
{
    match OpKind::from_opcode(id) {
        Some(k) => {
            if k.is_leaf() == leaf {
                Ok(k)
            } else {
                Err(TreeError::CatalogInconsistency)
            }
        },
        None => Err(TreeError::CatalogInconsistency),
    }
}

/// Draws the constants of an operator, each within the bounds that the
/// catalog declares for it.
fn draw_constants(rng: &mut StdRng, kind: OpKind) -> (consts: Vec<Constant>)
    ensures
        consts.len() == kind.spec_constants().len(),
        forall|i: int|
            0 <= i < consts.len() ==> {
                let declared = kind.spec_constants()[i];
                let held = #[trigger] consts@[i];
                &&& held.wf()
                &&& held@.fresh()
                &&& held@.min == declared.min
                &&& held@.max == declared.max
                &&& held@.wrap_mode == declared.wrap_mode
            },
{
    let slots = kind.constants();
    let mut consts: Vec<Constant> = Vec::new();
    let mut i: usize = 0;
    while i < slots.len()
        invariant
            i <= slots.len(),
            slots@ == kind.spec_constants(),
            consts.len() == i,
            forall|k: int|
                0 <= k < i ==> {
                    let declared = kind.spec_constants()[k];
                    let held = #[trigger] consts@[k];
                    &&& held.wf()
                    &&& held@.fresh()
                    &&& held@.min == declared.min
                    &&& held@.max == declared.max
                    &&& held@.wrap_mode == declared.wrap_mode
                },
        decreases slots.len() - i,
    {
        proof {
            lemma_catalog_bounds_usable(kind, i as int);
        }
        let slot = slots[i];
        let drawn = Constant::with_mode(rng, slot.min, slot.max, slot.wrap_mode);
        consts.push(drawn);
        i = i + 1;
    }
    consts
}

/// Grows one tree. `leaf_total` and `op_total` are the sums of the weights
/// of the two tables.
fn grow(
    rng: &mut StdRng,
    count: &mut usize,
    leaf_rates: &[Rate],
    leaf_total: u64,
    op_rates: &[Rate],
    op_total: u64,
) -> (made: Result<Node, TreeError>)
    requires
        *old(count) < usize::MAX,
        leaf_total == weight_sum(leaf_rates@),
        op_total == weight_sum(op_rates@),
        usable(leaf_rates@),
        usable(op_rates@),
    ensures
        consistent(leaf_rates@, op_rates@) ==> made is Ok,
        made matches Ok(node) ==> grown(node, *old(count) as nat, *final(count) as nat)
            && node.drawn_from(leaf_rates@, op_rates@),
        made matches Err(e) ==> e == TreeError::CatalogInconsistency,
    decreases
            (if *old(count) < LEAF_ONLY_FROM {
                LEAF_ONLY_FROM - *old(count)
            } else {
                0
            }),
{
    let begun: usize = *count;
    *count = begun + 1;
    let u = sample_range(rng, 0, INSTRUCTION_COUNT as i64) as u64;
    let leaf = leans_to_leaf(begun, u);
    let id = if leaf {
        guided_random_walk(rng, leaf_rates, leaf_total)
    } else {
        guided_random_walk(rng, op_rates, op_total)
    };
    proof {
        let rates = if leaf {
            leaf_rates@
        } else {
            op_rates@
        };
        let f = choose|f: nat|
            f < weight_sum(rates) && rates[#[trigger] selected(rates, f)].opcode == id;
        lemma_selected_has_weight(rates, f);
    }
    let kind = match dispatch(id, leaf) {
        Ok(kind) => kind,
        Err(e) => {
            return Err(e);
        },
    };
    let consts = draw_constants(rng, kind);
    let arity = kind.arity();
    let mut children: Vec<Node> = Vec::new();
    while children.len() < arity
        invariant
            children.len() <= arity,
            arity == kind.spec_arity(),
            arity > 0 ==> begun < LEAF_ONLY_FROM,
            begun == *old(count),
            *count == begun + 1 + total_nodes(children@),
            arity > 0 ==> total_nodes(children@) + 2 * begun + 2 <= 2 * LEAF_ONLY_FROM
                + children.len(),
            begun_in_turn(children@, (begun + 1) as nat),
            leaf_total == weight_sum(leaf_rates@),
            op_total == weight_sum(op_rates@),
            usable(leaf_rates@),
            usable(op_rates@),
            forall|k: int|
                0 <= k < children.len() ==> (#[trigger] children@[k]).wf()
                    && children@[k].within_catalog() && children@[k].fresh()
                    && children@[k].drawn_from(leaf_rates@, op_rates@),
        decreases arity - children.len(),
    {
        let ghost so_far = children@;
        match grow(rng, count, leaf_rates, leaf_total, op_rates, op_total) {
            Ok(child) => {
                children.push(child);
                proof {
                    assert(children@.drop_last() =~= so_far);
                }
            },
            Err(e) => {
                return Err(e);
            },
        }
    }
    let made = Node::from_parts(kind, consts, children);
    Ok(made.unwrap())
}

impl Node {
    /// Grows a random tree from the standard rate tables. `count` is the
    /// number of nodes already begun in the tree that the new one will stand
    /// in, and is advanced by the number of nodes of the new tree.
    pub fn new(rng: &mut StdRng, count: &mut usize) -> (node: Node)
        requires
            *old(count) < usize::MAX,
        ensures
            grown(node, *old(count) as nat, *final(count) as nat),
            node.drawn_from(leaf_rate_table(), op_rate_table()),
    {
        let leaves = leaf_rates();
        let ops = op_rates();
        proof {
            lemma_standard_tables_consistent();
            lemma_standard_totals();
        }
        let made = grow(
            rng,
            count,
            leaves.as_slice(),
            LEAF_RATE_TOTAL,
            ops.as_slice(),
            OP_RATE_TOTAL,
        );
        made.unwrap()
    }

    /// Grows a random tree from the given rate tables.
    ///
    /// Fails with [`TreeError::CatalogInconsistency`] if a table cannot be
    /// drawn from, or as soon as a draw gives an opcode that the catalog
    /// lacks or that is of the wrong sort: a combinator among the leaf
    /// rates, a leaf among the combinator rates. Tables that agree with the
    /// catalog never fail.
    pub fn with_rates(
        rng: &mut StdRng,
        count: &mut usize,
        leaf_rates: &[Rate],
        op_rates: &[Rate],
    ) -> (made: Result<Node, TreeError>)
        requires
            *old(count) < usize::MAX,
        ensures
            consistent(leaf_rates@, op_rates@) ==> made is Ok,
            made matches Ok(node) ==> grown(node, *old(count) as nat, *final(count) as nat)
                && node.drawn_from(leaf_rates@, op_rates@),
            made matches Err(e) ==> e == TreeError::CatalogInconsistency,
            !usable(leaf_rates@) || !usable(op_rates@) ==> made is Err
                && *final(count) == *old(count),
    {
        let leaf_total = match total_weight(leaf_rates) {
            Some(total) => total,
            None => {
                return Err(TreeError::CatalogInconsistency);
            },
        };
        let op_total = match total_weight(op_rates) {
            Some(total) => total,
            None => {
                return Err(TreeError::CatalogInconsistency);
            },
        };
        if leaf_total == 0 || leaf_total > i64::MAX as u64 || op_total == 0 || op_total
            > i64::MAX as u64 {
            return Err(TreeError::CatalogInconsistency);
        }
        grow(rng, count, leaf_rates, leaf_total, op_rates, op_total)
    }
}

impl Tree {
    /// Grows the three channels, one after the other, each with a counter of
    /// its own.
    pub fn new(rng: &mut StdRng) -> (tree: Tree)
        ensures
            tree.wf(),
            forall|i: int|
                0 <= i < 3 ==> {
                    let layer = #[trigger] tree.layers()[i];
                    &&& layer.within_catalog()
                    &&& layer.fresh()
                    &&& layer.drawn_from(leaf_rate_table(), op_rate_table())
                    &&& layer.node_count() <= growth_bound(0)
                    &&& !layer.spec_kind().spec_is_leaf()
                },
    {
        let mut count: usize = 0;
        let r = Node::new(rng, &mut count);
        count = 0;
        let g = Node::new(rng, &mut count);
        count = 0;
        let b = Node::new(rng, &mut count);
        Tree::with_layers(r, g, b)
    }
}

} // verus!
