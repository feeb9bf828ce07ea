//! The operator catalog: opcode ids, child arity, and the bounds and wrap
//! policy of every constant an operator carries.
//!
//! The synthesizer, the compiler and the evaluator on the device all rely on
//! the pairing of id, arity and constant count given here.

use vstd::prelude::*;
use vstd::string::StrSliceExecFns;

verus! {

/// Number of instruction words in one compiled channel.
pub const INSTRUCTION_COUNT: usize = 128;

/// Number of entries in the constant pool of one compiled channel.
pub const CONSTANT_POOL_SIZE: usize = 1024;

/// Fixed-point steps to one whole unit.
pub const UNIT: i32 = 1_000_000;

/// Half a turn, in fixed-point steps.
pub const PI: i32 = 3_141_593;

/// A full turn, in fixed-point steps.
pub const TAU: i32 = 6_283_185;

/// One whole unit below zero.
pub const NEG_UNIT: i32 = -1_000_000;

/// Half a turn backwards.
pub const NEG_PI: i32 = -3_141_593;

/// Leftmost horizontal position.
pub const X_MIN: i32 = NEG_UNIT;

/// Rightmost horizontal position.
pub const X_MAX: i32 = UNIT;

/// Lowest vertical position. Vertical positions span a shorter range than
/// horizontal ones.
pub const Y_MIN: i32 = -800_000;

/// Highest vertical position.
pub const Y_MAX: i32 = 800_000;

/// What happens to an oscillating constant when it crosses one of its bounds.
#[derive(Clone, Copy, Debug, PartialEq, Eq, Structural)]
pub enum WrapMode {
    /// Re-enter from the opposite bound.
    Repeat,
    /// Bounce back and reverse direction.
    Mirror,
    /// Never move.
    Fixed,
}

impl WrapMode {
    /// Whether `name` is one of the one-letter tags `m`, `r` and `f`.
    pub open spec fn is_name(name: Seq<char>) -> bool {
        name =~= seq!['m'] || name =~= seq!['r'] || name =~= seq!['f']
    }

    /// The mode that a tag stands for: `m` mirrors, `r` repeats, `f` is fixed.
    pub open spec fn spec_from_name(name: Seq<char>) -> WrapMode {
        if name =~= seq!['m'] {
            WrapMode::Mirror
        } else if name =~= seq!['r'] {
            WrapMode::Repeat
        } else {
            WrapMode::Fixed
        }
    }

    /// Reads a wrap mode from its one-letter tag.
    pub fn from_name(name: &str) -> (mode: WrapMode)
        requires
            Self::is_name(name@),
        ensures
            mode == Self::spec_from_name(name@),
    {
        let tag = name.get_char(0);
        if tag == 'm' {
            WrapMode::Mirror
        } else if tag == 'r' {
            WrapMode::Repeat
        } else {
            WrapMode::Fixed
        }
    }
}

/// Bounds and wrap policy that the catalog declares for one constant.
#[derive(Clone, Copy, Debug, PartialEq, Eq, Structural)]
pub struct ConstantSlot {
    pub min: i32,
    pub max: i32,
    pub wrap_mode: WrapMode,
}

/// A constant that bounces between `min` and `max`.
pub open spec fn spec_mirror(min: i32, max: i32) -> ConstantSlot {
    ConstantSlot { min, max, wrap_mode: WrapMode::Mirror }
}

/// A constant that runs from one bound to the other and starts over.
pub open spec fn spec_repeat(min: i32, max: i32) -> ConstantSlot {
    ConstantSlot { min, max, wrap_mode: WrapMode::Repeat }
}

/// A constant that is drawn between `min` and `max` and then stays.
pub open spec fn spec_fixed(min: i32, max: i32) -> ConstantSlot {
    ConstantSlot { min, max, wrap_mode: WrapMode::Fixed }
}

/// A constant that bounces between `min` and `max`.
#[verifier::when_used_as_spec(spec_mirror)]
pub fn mirror(min: i32, max: i32) -> (slot: ConstantSlot)
    ensures
        slot == spec_mirror(min, max),
{
    ConstantSlot { min, max, wrap_mode: WrapMode::Mirror }
}

/// A constant that runs from one bound to the other and starts over.
#[verifier::when_used_as_spec(spec_repeat)]
pub fn repeat(min: i32, max: i32) -> (slot: ConstantSlot)
    ensures
        slot == spec_repeat(min, max),
{
    ConstantSlot { min, max, wrap_mode: WrapMode::Repeat }
}

/// A constant that is drawn between `min` and `max` and then stays.
#[verifier::when_used_as_spec(spec_fixed)]
pub fn fixed(min: i32, max: i32) -> (slot: ConstantSlot)
    ensures
        slot == spec_fixed(min, max),
{
    ConstantSlot { min, max, wrap_mode: WrapMode::Fixed }
}

/// The operators an expression tree is made of.
#[derive(Clone, Copy, Debug, PartialEq, Eq, Structural)]
pub enum OpKind {
    // Leaves
    Const,
    Ellipse,
    Flower,
    LinearGradient,
    RadialGradient,
    PolarTheta,
    // Combinators
    Absolute,
    Invert,
    Add,
    Subtract,
    Multiply,
    Divide,
    Modulus,
    Exponent,
    Sinc,
    Sine,
    Spiral,
    Squircle,
}

/// Largest opcode id in the catalog.
pub const MAX_OPCODE: usize = 19;

/// Largest number of children any operator takes.
pub const MAX_ARITY: usize = 2;

/// Largest number of constants any operator carries.
pub const MAX_CONSTANTS: usize = 7;

/// Largest number of constants any combinator carries.
pub const MAX_COMBINATOR_CONSTANTS: usize = 4;

impl OpKind {
    /// Numeric id of the operator in the instruction stream. Id 0 is the
    /// evaluator's no-op and id 7 is reserved.
    pub open spec fn spec_opcode(self) -> usize {
        match self {
            OpKind::Const => 1,
            OpKind::Ellipse => 2,
            OpKind::Flower => 3,
            OpKind::LinearGradient => 4,
            OpKind::RadialGradient => 5,
            OpKind::PolarTheta => 6,
            OpKind::Absolute => 8,
            OpKind::Invert => 9,
            OpKind::Add => 10,
            OpKind::Subtract => 11,
            OpKind::Multiply => 12,
            OpKind::Divide => 13,
            OpKind::Modulus => 14,
            OpKind::Exponent => 15,
            OpKind::Sinc => 16,
            OpKind::Sine => 17,
            OpKind::Spiral => 18,
            OpKind::Squircle => 19,
        }
    }

    /// Number of children the operator takes.
    pub open spec fn spec_arity(self) -> usize {
        match self {
            OpKind::Const
            | OpKind::Ellipse
            | OpKind::Flower
            | OpKind::LinearGradient
            | OpKind::RadialGradient
            | OpKind::PolarTheta => 0,
            OpKind::Absolute | OpKind::Invert | OpKind::Sinc | OpKind::Sine | OpKind::Spiral => 1,
            OpKind::Add
            | OpKind::Subtract
            | OpKind::Multiply
            | OpKind::Divide
            | OpKind::Modulus
            | OpKind::Exponent
            | OpKind::Squircle => 2,
        }
    }

    /// Declared bounds and wrap policy of each constant, in the order in
    /// which the constants enter the pool.
    pub open spec fn spec_constants(self) -> Seq<ConstantSlot> {
        match self {
            OpKind::Const => seq![mirror(NEG_UNIT, UNIT)],
            OpKind::Ellipse => seq![
                mirror(X_MIN, X_MAX),
                mirror(Y_MIN, Y_MAX),
                mirror(X_MIN, X_MAX),
                mirror(Y_MIN, Y_MAX),
                mirror(100_000, 1_000_000),
                mirror(1_000_000, 100_000_000),
            ],
            OpKind::Flower => seq![
                mirror(X_MIN, X_MAX),
                mirror(Y_MIN, Y_MAX),
                repeat(0, TAU),
                mirror(0, 2_500_000),
                mirror(0, 1_000_000),
                fixed(3_000_000, 25_000_000),
                mirror(2_000_000, 10_000_000),
            ],
            OpKind::LinearGradient => seq![
                mirror(X_MIN, X_MAX),
                mirror(Y_MIN, Y_MAX),
                mirror(X_MIN, X_MAX),
                mirror(Y_MIN, Y_MAX),
                mirror(2_000_000, 20_000_000),
            ],
            OpKind::RadialGradient => seq![
                mirror(X_MIN, X_MAX),
                mirror(Y_MIN, Y_MAX),
                mirror(X_MIN, X_MAX),
                mirror(Y_MIN, Y_MAX),
                repeat(0, TAU),
            ],
            OpKind::PolarTheta => seq![mirror(X_MIN, X_MAX), mirror(Y_MIN, Y_MAX), repeat(0, TAU)],
            OpKind::Absolute
            | OpKind::Invert
            | OpKind::Add
            | OpKind::Subtract
            | OpKind::Multiply
            | OpKind::Divide
            | OpKind::Modulus
            | OpKind::Exponent => seq![],
            OpKind::Sinc => seq![repeat(NEG_PI, PI), repeat(NEG_PI, PI)],
            OpKind::Sine => seq![repeat(NEG_PI, PI), repeat(NEG_PI, PI)],
            OpKind::Spiral => seq![
                mirror(X_MIN, X_MAX),
                mirror(Y_MIN, Y_MAX),
                mirror(0, 10_000_000),
                mirror(NEG_UNIT, UNIT),
            ],
            OpKind::Squircle => seq![
                mirror(X_MIN, X_MAX),
                mirror(Y_MIN, Y_MAX),
                mirror(0, 2_000_000),
                mirror(0, 4_000_000),
            ],
        }
    }

    /// Whether the operator produces a value from its constants alone.
    pub open spec fn spec_is_leaf(self) -> bool {
        self.spec_arity() == 0
    }

    /// The operator with the given opcode id, if the catalog has one. No two
    /// operators share an id.
    pub open spec fn spec_from_opcode(id: usize) -> Option<OpKind> {
        if exists|kind: OpKind| kind.spec_opcode() == id {
            Some(choose|kind: OpKind| kind.spec_opcode() == id)
        } else {
            None
        }
    }

    /// Numeric id of the operator in the instruction stream.
    #[verifier::when_used_as_spec(spec_opcode)]
    pub fn opcode(self) -> (id: usize)
        ensures
            id == self.spec_opcode(),
            1 <= id <= MAX_OPCODE,
    {
        match self {
            OpKind::Const => 1,
            OpKind::Ellipse => 2,
            OpKind::Flower => 3,
            OpKind::LinearGradient => 4,
            OpKind::RadialGradient => 5,
            OpKind::PolarTheta => 6,
            OpKind::Absolute => 8,
            OpKind::Invert => 9,
            OpKind::Add => 10,
            OpKind::Subtract => 11,
            OpKind::Multiply => 12,
            OpKind::Divide => 13,
            OpKind::Modulus => 14,
            OpKind::Exponent => 15,
            OpKind::Sinc => 16,
            OpKind::Sine => 17,
            OpKind::Spiral => 18,
            OpKind::Squircle => 19,
        }
    }

    /// Number of children the operator takes.
    #[verifier::when_used_as_spec(spec_arity)]
    pub fn arity(self) -> (n: usize)
        ensures
            n == self.spec_arity(),
            n <= MAX_ARITY,
    {
        match self {
            OpKind::Const
            | OpKind::Ellipse
            | OpKind::Flower
            | OpKind::LinearGradient
            | OpKind::RadialGradient
            | OpKind::PolarTheta => 0,
            OpKind::Absolute | OpKind::Invert | OpKind::Sinc | OpKind::Sine | OpKind::Spiral => 1,
            OpKind::Add
            | OpKind::Subtract
            | OpKind::Multiply
            | OpKind::Divide
            | OpKind::Modulus
            | OpKind::Exponent
            | OpKind::Squircle => 2,
        }
    }

    /// Whether the operator produces a value from its constants alone.
    #[verifier::when_used_as_spec(spec_is_leaf)]
    pub fn is_leaf(self) -> (leaf: bool)
        ensures
            leaf == self.spec_is_leaf(),
    {
        self.arity() == 0
    }

    /// Number of constants the operator carries.
    pub fn constant_count(self) -> (n: usize)
        ensures
            n == self.spec_constants().len(),
            n <= MAX_CONSTANTS,
    {
        self.constants().len()
    }

    /// Declared bounds and wrap policy of each constant, in the order in
    /// which the constants enter the pool.
    pub fn constants(self) -> (slots: Vec<ConstantSlot>)
        ensures
            slots@ == self.spec_constants(),
            slots.len() <= MAX_CONSTANTS,
    {
        match self {
            OpKind::Const => vec![mirror(NEG_UNIT, UNIT)],
            OpKind::Ellipse => vec![
                mirror(X_MIN, X_MAX),
                mirror(Y_MIN, Y_MAX),
                mirror(X_MIN, X_MAX),
                mirror(Y_MIN, Y_MAX),
                mirror(100_000, 1_000_000),
                mirror(1_000_000, 100_000_000),
            ],
            OpKind::Flower => vec![
                mirror(X_MIN, X_MAX),
                mirror(Y_MIN, Y_MAX),
                repeat(0, TAU),
                mirror(0, 2_500_000),
                mirror(0, 1_000_000),
                fixed(3_000_000, 25_000_000),
                mirror(2_000_000, 10_000_000),
            ],
            OpKind::LinearGradient => vec![
                mirror(X_MIN, X_MAX),
                mirror(Y_MIN, Y_MAX),
                mirror(X_MIN, X_MAX),
                mirror(Y_MIN, Y_MAX),
                mirror(2_000_000, 20_000_000),
            ],
            OpKind::RadialGradient => vec![
                mirror(X_MIN, X_MAX),
                mirror(Y_MIN, Y_MAX),
                mirror(X_MIN, X_MAX),
                mirror(Y_MIN, Y_MAX),
                repeat(0, TAU),
            ],
            OpKind::PolarTheta => vec![mirror(X_MIN, X_MAX), mirror(Y_MIN, Y_MAX), repeat(0, TAU)],
            OpKind::Absolute
            | OpKind::Invert
            | OpKind::Add
            | OpKind::Subtract
            | OpKind::Multiply
            | OpKind::Divide
            | OpKind::Modulus
            | OpKind::Exponent => Vec::new(),
            OpKind::Sinc => vec![repeat(NEG_PI, PI), repeat(NEG_PI, PI)],
            OpKind::Sine => vec![repeat(NEG_PI, PI), repeat(NEG_PI, PI)],
            OpKind::Spiral => vec![
                mirror(X_MIN, X_MAX),
                mirror(Y_MIN, Y_MAX),
                mirror(0, 10_000_000),
                mirror(NEG_UNIT, UNIT),
            ],
            OpKind::Squircle => vec![
                mirror(X_MIN, X_MAX),
                mirror(Y_MIN, Y_MAX),
                mirror(0, 2_000_000),
                mirror(0, 4_000_000),
            ],
        }
    }

    /// The operator with the given opcode id, if the catalog has one.
    #[verifier::when_used_as_spec(spec_from_opcode)]
    pub fn from_opcode(id: usize) -> (kind: Option<OpKind>)
        ensures
            kind == Self::spec_from_opcode(id),
            kind matches Some(k) ==> k.spec_opcode() == id,
            kind is None ==> forall|k: OpKind| k.spec_opcode() != id,
    {
        let kind = if id == 1 {
            Some(OpKind::Const)
        } else if id == 2 {
            Some(OpKind::Ellipse)
        } else if id == 3 {
            Some(OpKind::Flower)
        } else if id == 4 {
            Some(OpKind::LinearGradient)
        } else if id == 5 {
            Some(OpKind::RadialGradient)
        } else if id == 6 {
            Some(OpKind::PolarTheta)
        } else if id == 8 {
            Some(OpKind::Absolute)
        } else if id == 9 {
            Some(OpKind::Invert)
        } else if id == 10 {
            Some(OpKind::Add)
        } else if id == 11 {
            Some(OpKind::Subtract)
        } else if id == 12 {
            Some(OpKind::Multiply)
        } else if id == 13 {
            Some(OpKind::Divide)
        } else if id == 14 {
            Some(OpKind::Modulus)
        } else if id == 15 {
            Some(OpKind::Exponent)
        } else if id == 16 {
            Some(OpKind::Sinc)
        } else if id == 17 {
            Some(OpKind::Sine)
        } else if id == 18 {
            Some(OpKind::Spiral)
        } else if id == 19 {
            Some(OpKind::Squircle)
        } else {
            None
        };
        proof {
            match kind {
                Some(k) => {
                    lemma_from_opcode_inverts_opcode(k);
                },
                None => {
                    assert forall|k: OpKind| k.spec_opcode() != id by {}
                },
            }
        }
        kind
    }
}

/// No two operators share an opcode id, so an instruction word names its
/// operator.
pub proof fn lemma_opcodes_differ()
    ensures
        forall|a: OpKind, b: OpKind| a.spec_opcode() == b.spec_opcode() ==> a == b,
{
}

/// Reading an operator back from its own opcode id gives the operator.
pub proof fn lemma_from_opcode_inverts_opcode(kind: OpKind)
    ensures
        OpKind::spec_from_opcode(kind.spec_opcode()) == Some(kind),
{
    lemma_opcodes_differ();
}

} // verus!
