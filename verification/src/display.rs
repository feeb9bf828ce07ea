//! A readable dump of a tree, for people only: one line per node, indented
//! by depth, with the operator's name and its constants rounded to
//! hundredths.

use crate::catalog::OpKind;
use crate::constant::Constant;
use crate::text::{hundredths, prefix, push_hundredths, spaces};
use crate::tree::{Node, Opcode, Tree};
use vstd::prelude::*;
use vstd::string::StringExecFns;

verus! {

impl OpKind {
    /// The operator's name in a dump.
    pub open spec fn spec_name(self) -> Seq<char> {
        match self {
            OpKind::Const => "ConstOp"@,
            OpKind::Ellipse => "EllipseOp"@,
            OpKind::Flower => "FlowerOp"@,
            OpKind::LinearGradient => "LinearGradientOp"@,
            OpKind::RadialGradient => "RadialGradientOp"@,
            OpKind::PolarTheta => "PolarThetaOp"@,
            OpKind::Absolute => "AbsoluteOp"@,
            OpKind::Invert => "InvertOp"@,
            OpKind::Add => "AddOp"@,
            OpKind::Subtract => "SubtractOp"@,
            OpKind::Multiply => "MultiplyOp"@,
            OpKind::Divide => "DivideOp"@,
            OpKind::Modulus => "ModulusOp"@,
            OpKind::Exponent => "ExponentOp"@,
            OpKind::Sinc => "SincOp"@,
            OpKind::Sine => "SineOp"@,
            OpKind::Spiral => "SpiralOp"@,
            OpKind::Squircle => "SquircleOp"@,
        }
    }

    /// The operator's name in a dump.
    pub fn name(self) -> (text: &'static str)
        ensures
            text@ == self.spec_name(),
    {
        match self {
            OpKind::Const => "ConstOp",
            OpKind::Ellipse => "EllipseOp",
            OpKind::Flower => "FlowerOp",
            OpKind::LinearGradient => "LinearGradientOp",
            OpKind::RadialGradient => "RadialGradientOp",
            OpKind::PolarTheta => "PolarThetaOp",
            OpKind::Absolute => "AbsoluteOp",
            OpKind::Invert => "InvertOp",
            OpKind::Add => "AddOp",
            OpKind::Subtract => "SubtractOp",
            OpKind::Multiply => "MultiplyOp",
            OpKind::Divide => "DivideOp",
            OpKind::Modulus => "ModulusOp",
            OpKind::Exponent => "ExponentOp",
            OpKind::Sinc => "SincOp",
            OpKind::Sine => "SineOp",
            OpKind::Spiral => "SpiralOp",
            OpKind::Squircle => "SquircleOp",
        }
    }
}

/// The values of a run of constants, each with two decimals, separated by a
/// comma and a blank.
pub open spec fn render_constants(constants: Seq<Constant>) -> Seq<char>
    decreases constants.len(),
{
    if constants.len() == 0 {
        Seq::empty()
    } else if constants.len() == 1 {
        hundredths(constants[0]@.value)
    } else {
        render_constants(constants.drop_last()) + ", "@ + hundredths(constants.last()@.value)
    }
}

/// The dumps of a sequence of trees, each at the same indentation, one
/// below the other.
pub open spec fn render_all(nodes: Seq<Node>, indent: Seq<char>) -> Seq<char>
    decreases nodes,
{
    if nodes.len() == 0 {
        Seq::empty()
    } else if nodes.len() == 1 {
        nodes[0].render(indent)
    } else {
        render_all(nodes.drop_last(), indent) + "\n"@ + nodes.last().render(indent)
    }
}

impl Node {
    /// The dump of the tree with its root indented by `indent`: the root's
    /// name and constants on one line and, for a node with subtrees, a dash
    /// and the dumps of the subtrees on the lines below, indented by two
    /// blanks more.
    pub open spec fn render(&self, indent: Seq<char>) -> Seq<char>
        decreases self,
    {
        proof {
            self.lemma_children_are_smaller();
        }
        let line = indent + self.spec_kind().spec_name() + "("@ + render_constants(self.constants())
            + ")"@;
        if self.children().len() == 0 {
            line
        } else {
            line + "-\n"@ + render_all(self.children(), indent + "  "@)
        }
    }

    /// Appends the dump of the tree at the given indentation.
    fn write_to(&self, indent: &str, out: &mut String)
        ensures
            final(out)@ == old(out)@ + self.render(indent@),
        decreases self,
    {
        out.append(indent);
        out.append(self.kind().name());
        out.append("(");
        let ghost opened = out@;
        let consts = self.get_constants();
        let mut i: usize = 0;
        while i < consts.len()
            invariant
                i <= consts.len(),
                out@ == opened + render_constants(consts@.take(i as int)),
            decreases consts.len() - i,
        {
            proof {
                assert(consts@.take(i + 1).drop_last() =~= consts@.take(i as int));
            }
            if i > 0 {
                out.append(", ");
            }
            push_hundredths(out, consts[i].value());
            i = i + 1;
        }
        proof {
            assert(consts@.take(i as int) =~= consts@);
        }
        out.append(")");
        let children = self.get_children();
        if children.len() > 0 {
            out.append("-\n");
            let deeper = String::from_str(indent).concat("  ");
            let ghost headed = out@;
            let mut k: usize = 0;
            while k < children.len()
                invariant
                    k <= children.len(),
                    children@ == self.children(),
                    deeper@ == indent@ + "  "@,
                    out@ == headed + render_all(children@.take(k as int), deeper@),
                decreases children.len() - k,
            {
                proof {
                    self.lemma_child_is_smaller(k as int);
                    assert(children@.take(k + 1).drop_last() =~= children@.take(k as int));
                }
                if k > 0 {
                    out.append("\n");
                }
                children[k].write_to(deeper.as_str(), out);
                k = k + 1;
            }
            proof {
                assert(children@.take(k as int) =~= children@);
            }
        }
    }

    /// The dump of the tree, its root indented by one blank more than
    /// `level`.
    pub fn show(&self, level: usize) -> (text: String)
        ensures
            text@ == self.render(spaces(level as nat + 1)),
    {
        let indent = prefix(level).concat(" ");
        proof {
            reveal_strlit(" ");
            assert(indent@ =~= spaces(level as nat + 1));
        }
        let mut out = String::new();
        self.write_to(indent.as_str(), &mut out);
        out
    }
}

impl Tree {
    /// What [`Tree::show`] returns: the three channels under their names.
    pub open spec fn render(&self) -> Seq<char> {
        "red:\n"@ + self.layers()[0].render(spaces(1)) + "\ngreen:\n"@ + self.layers()[1].render(
            spaces(1),
        ) + "\nblue:\n"@ + self.layers()[2].render(spaces(1)) + "\n"@
    }

    /// A dump of the three channels.
    pub fn show(&self) -> (text: String)
        ensures
            text@ == self.render(),
    {
        let mut out = String::new();
        out.append("red:\n");
        self.layer(0).write_to(" ", &mut out);
        out.append("\ngreen:\n");
        self.layer(1).write_to(" ", &mut out);
        out.append("\nblue:\n");
        self.layer(2).write_to(" ", &mut out);
        out.append("\n");
        proof {
            reveal_strlit(" ");
            assert(" "@ =~= spaces(1));
        }
        out
    }
}

} // verus!
