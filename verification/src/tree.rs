//! Expression trees: one operator per node, three trees per picture.

use crate::catalog::OpKind;
use crate::constant::Constant;
use vstd::prelude::*;

verus! {

/// One operator of an expression tree, with its constants and the subtrees
/// it combines. A node owns its subtrees; which operator it is, and how many
/// constants and subtrees it has, never changes once it is built.
#[derive(Debug)]
pub struct Node {
    kind: OpKind,
    consts: Vec<Constant>,
    children: Vec<Node>,
}

/// What the compiler and the evaluator need to know of an operator.
pub trait Opcode {
    /// Id of the operator in the instruction stream.
    spec fn spec_opcode(&self) -> usize;

    /// The operator's constants, in the order in which they enter the pool.
    spec fn spec_constants(&self) -> Seq<Constant>;

    /// The operands, left to right.
    spec fn spec_children(&self) -> Seq<Node>;

    /// Id of the operator in the instruction stream.
    fn opcode(&self) -> (id: usize)
        ensures
            id == self.spec_opcode(),
    ;

    /// The operator's constants, in the order in which they enter the pool.
    fn get_constants(&self) -> (constants: &[Constant])
        ensures
            constants@ == self.spec_constants(),
    ;

    /// The operands, left to right.
    fn get_children(&self) -> (children: &[Node])
        ensures
            children@ == self.spec_children(),
    ;
}

/// Number of nodes in a sequence of trees.
pub open spec fn total_nodes(nodes: Seq<Node>) -> nat
    decreases nodes,
{
    if nodes.len() == 0 {
        0
    } else {
        total_nodes(nodes.drop_last()) + nodes.last().node_count()
    }
}

impl Node {
    /// The operator at the root.
    pub closed spec fn spec_kind(&self) -> OpKind {
        self.kind
    }

    /// The constants of the root operator, in catalog order.
    pub closed spec fn constants(&self) -> Seq<Constant> {
        self.consts@
    }

    /// The subtrees, left to right.
    pub closed spec fn children(&self) -> Seq<Node> {
        self.children@
    }

    /// Number of nodes in the tree.
    pub open spec fn node_count(&self) -> nat
        decreases self,
    {
        1 + total_nodes(self.children())
    }

    /// Every node has as many constants and subtrees as the catalog declares
    /// for its operator, and every constant is in a valid state.
    pub open spec fn wf(&self) -> bool
        decreases self,
    {
        &&& self.constants().len() == self.spec_kind().spec_constants().len()
        &&& self.children().len() == self.spec_kind().spec_arity()
        &&& forall|i: int| 0 <= i < self.constants().len() ==> (#[trigger] self.constants()[i]).wf()
        &&& forall|i: int| 0 <= i < self.children().len() ==> (#[trigger] self.children()[i]).wf()
    }

    /// Every constant in the tree has the bounds and the wrap mode that the
    /// catalog declares for it.
    pub open spec fn within_catalog(&self) -> bool
        decreases self,
    {
        &&& self.constants().len() == self.spec_kind().spec_constants().len()
        &&& forall|i: int|
            0 <= i < self.constants().len() ==> {
                let declared = self.spec_kind().spec_constants()[i];
                let held = (#[trigger] self.constants()[i])@;
                &&& held.min == declared.min
                &&& held.max == declared.max
                &&& held.wrap_mode == declared.wrap_mode
            }
        &&& forall|i: int|
            0 <= i < self.children().len() ==> (#[trigger] self.children()[i]).within_catalog()
    }

    /// Every constant in the tree is as it comes from a draw.
    pub open spec fn fresh(&self) -> bool
        decreases self,
    {
        &&& forall|i: int|
            0 <= i < self.constants().len() ==> (#[trigger] self.constants()[i])@.fresh()
        &&& forall|i: int|
            0 <= i < self.children().len() ==> (#[trigger] self.children()[i]).fresh()
    }

    /// `after` is this tree one tick later: the same operators in the same
    /// places, every constant moved on by one step.
    pub open spec fn ticks_to(&self, after: Node) -> bool
        decreases self,
    {
        &&& after.spec_kind() == self.spec_kind()
        &&& after.constants().len() == self.constants().len()
        &&& after.children().len() == self.children().len()
        &&& forall|i: int|
            0 <= i < self.constants().len() ==> (#[trigger] after.constants()[i])@
                == self.constants()[i]@.step()
        &&& forall|i: int|
            0 <= i < self.children().len() ==> self.children()[i].ticks_to(
                #[trigger] after.children()[i],
            )
    }

    /// The subtrees together are a smaller value than the tree.
    pub proof fn lemma_children_are_smaller(&self)
        ensures
            decreases_to!(self => self.children()),
    {
    }

    /// A subtree is a smaller value than the tree it stands in.
    pub proof fn lemma_child_is_smaller(&self, i: int)
        requires
            0 <= i < self.children().len(),
        ensures
            decreases_to!(self => self.children()[i]),
    {
    }

    /// Builds a node from its parts, or `None` if their numbers are not
    /// those that the catalog declares for `kind`.
    pub fn from_parts(kind: OpKind, consts: Vec<Constant>, children: Vec<Node>) -> (node:
        Option<Node>)
        ensures
            node is Some <==> consts.len() == kind.spec_constants().len() && children.len()
                == kind.spec_arity(),
            node matches Some(made) ==> made.spec_kind() == kind && made.constants() == consts@
                && made.children() == children@,
            node matches Some(made) ==> (made.wf() <==> (forall|i: int|
                0 <= i < consts.len() ==> (#[trigger] consts@[i]).wf()) && (forall|i: int|
                0 <= i < children.len() ==> (#[trigger] children@[i]).wf())),
    {
        if consts.len() == kind.constant_count() && children.len() == kind.arity() {
            Some(Node { kind, consts, children })
        } else {
            None
        }
    }

    /// The operator at the root.
    #[verifier::when_used_as_spec(spec_kind)]
    pub fn kind(&self) -> (kind: OpKind)
        ensures
            kind == self.spec_kind(),
    {
        self.kind
    }

    /// Moves every constant in the tree on by one tick.
    pub fn animate(&mut self)
        requires
            old(self).wf(),
        ensures
            final(self).wf(),
            old(self).ticks_to(*final(self)),
        decreases *old(self),
    {
        let ghost before = *self;
        let mut i: usize = 0;
        while i < self.children.len()
            invariant
                i <= self.children.len(),
                self.kind == before.kind,
                self.consts == before.consts,
                self.children.len() == before.children.len(),
                before == *old(self),
                before.wf(),
                forall|j: int|
                    i <= j < before.children.len() ==> self.children@[j] == before.children@[j],
                forall|j: int|
                    0 <= j < i ==> (#[trigger] self.children@[j]).wf()
                        && before.children@[j].ticks_to(self.children@[j]),
            decreases self.children.len() - i,
        {
            assert(before.children()[i as int].wf());
            self.children[i].animate();
            i = i + 1;
        }
        let mut j: usize = 0;
        while j < self.consts.len()
            invariant
                j <= self.consts.len(),
                self.kind == before.kind,
                self.consts.len() == before.consts.len(),
                before.wf(),
                forall|k: int|
                    0 <= k < self.children.len() ==> (#[trigger] self.children@[k]).wf()
                        && before.children@[k].ticks_to(self.children@[k]),
                self.children.len() == before.children.len(),
                forall|k: int|
                    j <= k < before.consts.len() ==> self.consts@[k] == before.consts@[k],
                forall|k: int|
                    0 <= k < j ==> (#[trigger] self.consts@[k]).wf() && self.consts@[k]@
                        == before.consts@[k]@.step(),
            decreases self.consts.len() - j,
        {
            self.consts[j].animate();
            j = j + 1;
        }
    }
}

/// Three independent expression trees, one for each of the channels red,
/// green and blue.
#[derive(Debug)]
pub struct Tree {
    layers: [Node; 3],
}

impl Tree {
    /// The trees of the three channels, red first.
    pub closed spec fn layers(&self) -> Seq<Node> {
        self.layers@
    }

    /// Every channel is well formed.
    pub open spec fn wf(&self) -> bool {
        &&& self.layers().len() == 3
        &&& forall|i: int| 0 <= i < 3 ==> (#[trigger] self.layers()[i]).wf()
    }

    /// A tree with the given channels.
    pub fn with_layers(r: Node, g: Node, b: Node) -> (tree: Tree)
        ensures
            tree.layers() == seq![r, g, b],
            tree.wf() <==> r.wf() && g.wf() && b.wf(),
    {
        let tree = Tree { layers: [r, g, b] };
        tree
    }

    /// The tree of one channel.
    pub fn layer(&self, offset: usize) -> (node: &Node)
        requires
            offset < 3,
        ensures
            *node == self.layers()[offset as int],
    {
        &self.layers[offset]
    }

    /// Moves every constant of every channel on by one tick. Nothing else
    /// changes.
    pub fn animate(&mut self)
        requires
            old(self).wf(),
        ensures
            final(self).wf(),
            forall|i: int|
                0 <= i < 3 ==> old(self).layers()[i].ticks_to(#[trigger] final(self).layers()[i]),
    {
        let ghost before = self.layers@;
        let mut i: usize = 0;
        while i < 3
            invariant
                i <= 3,
                before == old(self).layers(),
                self.layers@.len() == 3,
                forall|j: int| 0 <= j < 3 ==> (#[trigger] before[j]).wf(),
                forall|j: int| i <= j < 3 ==> self.layers@[j] == before[j],
                forall|j: int|
                    0 <= j < i ==> (#[trigger] self.layers@[j]).wf() && before[j].ticks_to(
                        self.layers@[j],
                    ),
            decreases 3 - i,
        {
            assert(before[i as int].wf());
            self.layers[i].animate();
            i = i + 1;
        }
    }
}

impl Opcode for Node {
    open spec fn spec_opcode(&self) -> usize {
        self.spec_kind().spec_opcode()
    }

    open spec fn spec_constants(&self) -> Seq<Constant> {
        self.constants()
    }

    open spec fn spec_children(&self) -> Seq<Node> {
        self.children()
    }

    fn opcode(&self) -> (id: usize) {
        self.kind.opcode()
    }

    fn get_constants(&self) -> (constants: &[Constant]) {
        self.consts.as_slice()
    }

    fn get_children(&self) -> (children: &[Node]) {
        self.children.as_slice()
    }
}

} // verus!
