//! What holds of every snake and every roster, proved from the rules.

use vstd::prelude::*;

use crate::cell::Cell;
use crate::snake::SnakeView;
use crate::termination::{collides, lemma_survivors_upto, survivors, terminated};

verus! {

impl SnakeView {
    /// The snake moves in a straight line: each segment lies one heading
    /// behind the segment before it.
    pub open spec fn is_straight(self) -> bool {
        forall|i: int|
            0 <= i < self.segments.len() - 1 ==> (#[trigger] self.segments[i]).minus(
                self.segments[i + 1],
            ) == self.dir
    }
}

/// Offering directions to a well-formed snake leaves it well formed.
pub proof fn law_queue_inputs_wf(s: SnakeView, inputs: Seq<Cell>)
    requires
        s.wf(),
    ensures
        s.queue_inputs(inputs).wf(),
        s.queue_inputs(inputs).dir == s.dir,
        s.queue_inputs(inputs).segments == s.segments,
    decreases inputs.len(),
{
    if inputs.len() > 0 {
        law_queue_inputs_wf(s, inputs.drop_last());
    }
}

/// Whatever directions a snake was offered, its next step does not turn it
/// straight back: the heading after the step is not the opposite of the
/// heading before. This holds of every snake with a pending turn, and of a
/// snake with none unless its heading is its own opposite, as the zero
/// displacement is.
pub proof fn law_step_never_reverses(s: SnakeView, inputs: Seq<Cell>)
    requires
        s.wf(),
    ensures
        ({
            let q = s.queue_inputs(inputs);
            &&& q.step().wf()
            &&& q.input_queue.len() > 0 || q.dir != q.dir.negate() ==> q.step().dir
                != q.dir.negate()
        }),
{
    law_queue_inputs_wf(s, inputs);
    let q = s.queue_inputs(inputs);
    let t = q.step();
    if q.input_queue.len() > 0 {
        assert(q.input_queue[0] != q.heading_before(0).negate());
        assert forall|i: int| 0 <= i < t.input_queue.len() implies #[trigger] t.input_queue[i]
            != t.heading_before(i).negate() by {
            assert(q.input_queue[i + 1] != q.heading_before(i + 1).negate());
        }
    }
}

/// A step, any number of steps, and a reversal keep the number of
/// segments; growing adds one; a cut leaves half of them, rounded up, which
/// is never more than there were and never none.
pub proof fn law_segment_count(s: SnakeView, n: nat)
    requires
        s.segments.len() >= 1,
    ensures
        s.step().segments.len() == s.segments.len(),
        s.steps(n).segments.len() == s.segments.len(),
        s.reverse().segments.len() == s.segments.len(),
        s.grow().segments.len() == s.segments.len() + 1,
        s.cut().segments.len() == (s.segments.len() + 1) / 2,
        1 <= s.cut().segments.len() <= s.segments.len(),
    decreases n,
{
    if n > 0 {
        law_segment_count(s.step(), (n - 1) as nat);
    }
}

/// The steps that are due are those that can be taken while more time is
/// left than one step costs: after them no more than `tick_rate` is left,
/// and before the last of them more than that was.
pub proof fn law_ticks_due(s: SnakeView)
    requires
        s.tick_rate >= 1,
    ensures
        s.ticks_due() * s.tick_rate <= s.time,
        s.time - s.ticks_due() * s.tick_rate <= s.tick_rate,
        s.ticks_due() > 0 ==> s.time - (s.ticks_due() - 1) * s.tick_rate > s.tick_rate,
        s.run_ticks().time == s.time - s.ticks_due() * s.tick_rate,
{
    let n = s.ticks_due() as int;
    let rate = s.tick_rate as int;
    if s.time > 0 {
        vstd::arithmetic::div_mod::lemma_fundamental_div_mod(s.time - 1, rate);
        assert(rate * n == n * rate) by (nonlinear_arith);
        assert((n - 1) * rate == n * rate - rate) by (nonlinear_arith);
    } else {
        assert(n * rate == 0) by (nonlinear_arith)
            requires
                n == 0,
        ;
    }
}

/// While the portal effect lasts, a step puts the head on the grid, however
/// far off the grid it was.
pub proof fn law_portal_wraps(s: SnakeView)
    requires
        s.segments.len() >= 1,
        s.can_portal(),
    ensures
        s.step().head().in_grid(),
        !s.step().is_outside(),
{
}

/// A snake whose head is off the grid leaves the game if it has no portal
/// effect. With the effect it stays, among the survivors, unless it
/// collides.
pub proof fn law_boundary_termination(snakes: Seq<SnakeView>, i: int)
    requires
        0 <= i < snakes.len(),
        snakes[i].is_outside(),
    ensures
        !snakes[i].can_portal() ==> terminated(snakes, i),
        snakes[i].can_portal() && !collides(snakes, i) ==> !terminated(snakes, i)
            && survivors(snakes).contains(snakes[i]),
{
    lemma_survivors_upto(snakes, snakes.len());
}

/// A snake that is only a head never has its head on its own body, nor does
/// a snake of two segments that lie on two cells.
pub proof fn law_short_snake_spares_itself(s: SnakeView)
    requires
        s.segments.len() == 1 || (s.segments.len() == 2 && s.segments[1] != s.segments[0]),
    ensures
        !s.eats_other(s),
{
}

/// Reversing a straight snake of two segments or more turns its heading
/// into the opposite one, and reversing it once more gives back the body
/// and the heading it had.
pub proof fn law_reverse_twice(s: SnakeView)
    requires
        s.segments.len() >= 2,
        s.is_straight(),
    ensures
        s.reverse().dir == s.dir.negate(),
        s.reverse().reverse().dir == s.dir,
        s.reverse().reverse().segments == s.segments,
{
    let r = s.reverse();
    let len = s.segments.len() as int;
    assert(s.segments[len - 2].minus(s.segments[len - 1]) == s.dir);
    assert(r.segments[len - 1] == s.segments[0]);
    assert(r.segments[len - 2] == s.segments[1]);
    assert(s.segments[0].minus(s.segments[1]) == s.dir);
    assert(r.reverse().segments =~= s.segments);
}

} // verus!
