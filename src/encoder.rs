use vstd::prelude::*;

verus! {

/// The input line whose rising edge triggered an update.
#[derive(Clone, Copy, Debug, PartialEq, Eq, Structural)]
pub enum Channel {
    A,
    B,
}

/// Direction of one quadrature step, given the channel that produced the
/// rising edge and the levels of both channels sampled at that instant.
pub open spec fn step_of(ch: Channel, a: bool, b: bool) -> int {
    match ch {
        Channel::A => if a == b { -1 } else { 1 },
        Channel::B => if a == b { 1 } else { -1 },
    }
}

/// Quadrature decoder: a signed position counter moved one step per edge.
pub struct Encoder {
    position: i32,
}

impl View for Encoder {
    type V = int;

    closed spec fn view(&self) -> int {
        self.position as int
    }
}

impl Encoder {
    /// A decoder at position zero.
    pub fn new() -> (r: Self)
        ensures
            r@ == 0,
    {
        Encoder { position: 0 }
    }

    /// The current position.
    pub fn position(&self) -> (r: i32)
        ensures
            r as int == self@,
    {
        self.position
    }

    /// Applies one rising edge on `ch`, with `a` and `b` the levels of the two
    /// channels sampled when the edge fired. Returns the new position and the
    /// signed step.
    pub fn update(&mut self, ch: Channel, a: bool, b: bool) -> (r: (i32, i32))
        requires
            i32::MIN < old(self)@ < i32::MAX,
        ensures
            r.1 as int == step_of(ch, a, b),
            final(self)@ == old(self)@ + step_of(ch, a, b),
            r.0 as int == final(self)@,
    {
        let mut step: i32 = 1;
        match ch {
            Channel::A => {
                if a == b {
                    step = -1;
                }
            },
            Channel::B => {
                if a != b {
                    step = -1;
                }
            },
        }
        self.position = self.position + step;
        (self.position, step)
    }
}

/// On channel A alone, the step changes sign between two edges exactly when
/// the equality of the sampled levels differs between them; equal samples on
/// the same channel always give the same step.
pub proof fn lemma_channel_a_sign(a1: bool, b1: bool, a2: bool, b2: bool)
    ensures
        (step_of(Channel::A, a1, b1) != step_of(Channel::A, a2, b2)) <==> ((a1 == b1) != (a2 == b2)),
        step_of(Channel::A, a1, b1) == 1 || step_of(Channel::A, a1, b1) == -1,
{
}

} // verus!
