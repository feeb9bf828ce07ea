//! Oscillating constants: the scalar parameters of an operator, each moving
//! between its bounds at its own rate.

use crate::catalog::WrapMode;
use crate::random::sample_range;
use rand::rngs::StdRng;
use vstd::prelude::*;

verus! {

/// A bound divided by this scale bounds the rate drawn for a constant.
pub const RATE_SCALE: i32 = 500;

/// One scalar parameter of an operator.
#[derive(Debug, PartialEq, Eq)]
pub struct Constant {
    min: i32,
    max: i32,
    value: i32,
    rate: i32,
    wrap_mode: WrapMode,
}

/// What a [`Constant`] stands for: its bounds, its current value, the amount
/// by which it moves per tick, and what it does at a bound.
pub struct ConstantView {
    pub min: int,
    pub max: int,
    pub value: int,
    pub rate: int,
    pub wrap_mode: WrapMode,
}

impl ConstantView {
    /// Distance between the bounds.
    pub open spec fn width(self) -> int {
        self.max - self.min
    }

    /// The value lies within the bounds, one tick never moves it by more than
    /// the distance between them, and a fixed constant has no rate.
    pub open spec fn valid(self) -> bool {
        &&& self.min <= self.value <= self.max
        &&& -self.width() <= self.rate <= self.width()
        &&& self.wrap_mode is Fixed ==> self.rate == 0
    }

    /// Every quantity fits in 32 bits, and so does the rate reversed.
    pub open spec fn representable(self) -> bool {
        &&& i32::MIN <= self.min <= i32::MAX
        &&& i32::MIN <= self.max <= i32::MAX
        &&& i32::MIN <= self.value <= i32::MAX
        &&& -i32::MAX <= self.rate <= i32::MAX
    }

    /// What holds of a constant as it comes from a draw: it is valid, its
    /// value lies below the upper bound, and unless it is fixed its rate
    /// lies between the scaled bounds, the upper one left out.
    pub open spec fn fresh(self) -> bool {
        &&& self.valid()
        &&& self.value < self.max
        &&& self.wrap_mode !is Fixed ==> scaled(self.min) <= self.rate < scaled(self.max)
    }

    /// The value moved on by the rate, bounds not yet considered.
    pub open spec fn advanced(self) -> ConstantView {
        ConstantView { value: self.value + self.rate, ..self }
    }

    /// Brings a value that fell below the lower bound back in.
    pub open spec fn wrap_below(self) -> ConstantView {
        if self.value < self.min {
            match self.wrap_mode {
                WrapMode::Repeat => ConstantView { value: self.value + self.width(), ..self },
                WrapMode::Mirror => ConstantView {
                    value: self.min + (self.min - self.value),
                    rate: -self.rate,
                    ..self
                },
                WrapMode::Fixed => self,
            }
        } else {
            self
        }
    }

    /// Brings a value that rose above the upper bound back in.
    pub open spec fn wrap_above(self) -> ConstantView {
        if self.value > self.max {
            match self.wrap_mode {
                WrapMode::Repeat => ConstantView { value: self.value - self.width(), ..self },
                WrapMode::Mirror => ConstantView {
                    value: self.max - (self.value - self.max),
                    rate: -self.rate,
                    ..self
                },
                WrapMode::Fixed => self,
            }
        } else {
            self
        }
    }

    /// The constant one tick later.
    pub open spec fn step(self) -> ConstantView {
        match self.wrap_mode {
            WrapMode::Fixed => self,
            _ => self.advanced().wrap_below().wrap_above(),
        }
    }

    /// The constant `n` ticks later.
    pub open spec fn steps(self, n: nat) -> ConstantView
        decreases n,
    {
        if n == 0 {
            self
        } else {
            self.step().steps((n - 1) as nat)
        }
    }
}

/// A bound divided by [`RATE_SCALE`], rounded towards zero.
pub open spec fn scaled(bound: int) -> int {
    if bound >= 0 {
        bound / (RATE_SCALE as int)
    } else {
        -((-bound) / (RATE_SCALE as int))
    }
}

/// Bounds from which a constant can be drawn: the range is not empty, and
/// unless the constant is fixed, neither is the range of its rate, and no
/// rate drawn for it exceeds the distance between the bounds.
pub open spec fn usable_bounds(min: int, max: int, wrap_mode: WrapMode) -> bool {
    &&& min < max
    &&& wrap_mode !is Fixed ==> {
        &&& scaled(min) < scaled(max)
        &&& min - max <= scaled(min)
        &&& scaled(max) <= max - min
    }
}

/// The state with the given fields.
pub open spec fn state_of(
    min: i32,
    max: i32,
    value: i32,
    rate: i32,
    wrap_mode: WrapMode,
) -> ConstantView {
    ConstantView {
        min: min as int,
        max: max as int,
        value: value as int,
        rate: rate as int,
        wrap_mode,
    }
}

impl View for Constant {
    type V = ConstantView;

    closed spec fn view(&self) -> ConstantView {
        state_of(self.min, self.max, self.value, self.rate, self.wrap_mode)
    }
}

impl Constant {
    /// The state is valid and can be stepped without leaving 32 bits.
    pub open spec fn wf(&self) -> bool {
        self@.valid() && self@.representable()
    }

    /// Draws a constant for the bounds and the wrap mode tag of a catalog
    /// row. See [`Constant::with_mode`].
    pub fn new(rng: &mut StdRng, min_bound: i32, max_bound: i32, mode_name: &str) -> (c: Constant)
        requires
            WrapMode::is_name(mode_name@),
            usable_bounds(
                min_bound as int,
                max_bound as int,
                WrapMode::spec_from_name(mode_name@),
            ),
        ensures
            c.wf(),
            c@.fresh(),
            c@.min == min_bound,
            c@.max == max_bound,
            c@.wrap_mode == WrapMode::spec_from_name(mode_name@),
    {
        Constant::with_mode(rng, min_bound, max_bound, WrapMode::from_name(mode_name))
    }

    /// Draws a constant: first its rate, uniformly between the scaled bounds
    /// unless the mode is fixed, then its value, uniformly between the
    /// bounds. The upper end of either range is never drawn.
    pub fn with_mode(
        rng: &mut StdRng,
        min_bound: i32,
        max_bound: i32,
        wrap_mode: WrapMode,
    ) -> (c: Constant)
        requires
            usable_bounds(min_bound as int, max_bound as int, wrap_mode),
        ensures
            c.wf(),
            c@.fresh(),
            c@.min == min_bound,
            c@.max == max_bound,
            c@.wrap_mode == wrap_mode,
    {
        let rate: i64 = match wrap_mode {
            WrapMode::Fixed => 0,
            _ => sample_range(
                rng,
                (min_bound / RATE_SCALE) as i64,
                (max_bound / RATE_SCALE) as i64,
            ),
        };
        let value: i64 = sample_range(rng, min_bound as i64, max_bound as i64);
        Constant {
            min: min_bound,
            max: max_bound,
            value: value as i32,
            rate: rate as i32,
            wrap_mode,
        }
    }

    /// A constant in a given state, or `None` if that state is not valid or
    /// its rate is the one 32-bit number that cannot be reversed.
    pub fn from_parts(
        min: i32,
        max: i32,
        value: i32,
        rate: i32,
        wrap_mode: WrapMode,
    ) -> (c: Option<Constant>)
        ensures
            c is Some <==> state_of(min, max, value, rate, wrap_mode).valid() && rate > i32::MIN,
            c matches Some(made) ==> made.wf() && made@ == state_of(
                min,
                max,
                value,
                rate,
                wrap_mode,
            ),
    {
        let width: i64 = max as i64 - min as i64;
        let rate_fits = -width <= rate as i64 && rate as i64 <= width;
        let rests = match wrap_mode {
            WrapMode::Fixed => rate == 0,
            _ => true,
        };
        if min <= value && value <= max && rate_fits && rests && rate > i32::MIN {
            Some(Constant { min, max, value, rate, wrap_mode })
        } else {
            None
        }
    }

    /// Current value.
    pub fn value(&self) -> (v: i32)
        ensures
            v == self@.value,
    {
        self.value
    }

    /// Amount by which the value moves per tick.
    pub fn rate(&self) -> (r: i32)
        ensures
            r == self@.rate,
    {
        self.rate
    }

    /// Lower and upper bound.
    pub fn limits(&self) -> (bounds: [i32; 2])
        ensures
            bounds@[0] == self@.min,
            bounds@[1] == self@.max,
    {
        [self.min, self.max]
    }

    /// What the constant does at a bound.
    pub fn wrap_mode(&self) -> (mode: WrapMode)
        ensures
            mode == self@.wrap_mode,
    {
        self.wrap_mode
    }

    /// Moves the constant on by one tick.
    pub fn animate(&mut self)
        requires
            old(self).wf(),
        ensures
            final(self)@ == old(self)@.step(),
            final(self).wf(),
    {
        match self.wrap_mode {
            WrapMode::Fixed => {},
            _ => {
                let min: i64 = self.min as i64;
                let max: i64 = self.max as i64;
                let mut value: i64 = self.value as i64 + self.rate as i64;
                let mut rate: i64 = self.rate as i64;
                if value < min {
                    match self.wrap_mode {
                        WrapMode::Repeat => {
                            value = value + (max - min);
                        },
                        WrapMode::Mirror => {
                            value = min + (min - value);
                            rate = -rate;
                        },
                        WrapMode::Fixed => {},
                    }
                }
                if value > max {
                    match self.wrap_mode {
                        WrapMode::Repeat => {
                            value = value - (max - min);
                        },
                        WrapMode::Mirror => {
                            value = max - (value - max);
                            rate = -rate;
                        },
                        WrapMode::Fixed => {},
                    }
                }
                self.value = value as i32;
                self.rate = rate as i32;
            },
        }
    }
}

/// One tick keeps a valid constant valid, so its value never leaves its
/// bounds; bounds and wrap mode do not change.
pub proof fn lemma_step_keeps_valid(c: ConstantView)
    requires
        c.valid(),
    ensures
        c.step().valid(),
        c.step().min == c.min,
        c.step().max == c.max,
        c.step().wrap_mode == c.wrap_mode,
{
}

/// Any number of ticks keeps a valid constant valid.
pub proof fn lemma_steps_keep_valid(c: ConstantView, n: nat)
    requires
        c.valid(),
    ensures
        c.steps(n).valid(),
        c.steps(n).min == c.min,
        c.steps(n).max == c.max,
        c.steps(n).wrap_mode == c.wrap_mode,
    decreases n,
{
    if n > 0 {
        lemma_step_keeps_valid(c);
        lemma_steps_keep_valid(c.step(), (n - 1) as nat);
    }
}

/// A fixed constant is the same after any number of ticks.
pub proof fn lemma_fixed_never_moves(c: ConstantView, n: nat)
    requires
        c.wrap_mode is Fixed,
    ensures
        c.steps(n) == c,
    decreases n,
{
    if n > 0 {
        lemma_fixed_never_moves(c, (n - 1) as nat);
    }
}

/// Mirror law: when a tick at rate `r` carries the value `eps` beyond the
/// upper bound, with `0 < eps < r`, the value ends `eps` below that bound and
/// the rate is reversed.
pub proof fn lemma_mirror_law(c: ConstantView, eps: int, r: int)
    requires
        c.wrap_mode is Mirror,
        c.min <= c.max,
        0 < eps < r,
        c.rate == r,
        c.advanced().value == c.max + eps,
    ensures
        c.step().value == c.max - eps,
        c.step().rate == -r,
{
}

/// Repeat law: when a tick at rate `r` carries the value `eps` beyond the
/// upper bound, the value ends `eps` above the lower bound and the rate is
/// kept.
pub proof fn lemma_repeat_law(c: ConstantView, eps: int, r: int)
    requires
        c.wrap_mode is Repeat,
        c.min <= c.max,
        0 < eps,
        c.rate == r,
        c.advanced().value == c.max + eps,
    ensures
        c.step().value == c.min + eps,
        c.step().rate == r,
{
}

} // verus!
