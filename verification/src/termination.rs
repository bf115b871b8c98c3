//! Which snakes leave the game at the end of a frame.

use vstd::prelude::*;

use crate::game::Game;
use crate::snake::SnakeView;
use crate::spawn::{all_wf, views};

verus! {

/// Whether the snake has left the grid with no portal effect to bring it back.
pub open spec fn leaves_grid(snake: SnakeView) -> bool {
    !snake.can_portal() && snake.is_outside()
}

/// Whether snake `i` of the roster runs into a snake of the roster, itself
/// included, while neither of the two is invisible.
pub open spec fn collides(snakes: Seq<SnakeView>, i: int) -> bool {
    !snakes[i].is_invisible() && exists|j: int|
        0 <= j < snakes.len() && !(#[trigger] snakes[j]).is_invisible() && snakes[i].eats_other(
            snakes[j],
        )
}

/// Whether snake `i` of the roster leaves the game.
pub open spec fn terminated(snakes: Seq<SnakeView>, i: int) -> bool {
    leaves_grid(snakes[i]) || collides(snakes, i)
}

/// Those of the first `n` snakes of the roster that stay in the game, in
/// their order. Each snake is judged against the whole roster.
pub open spec fn survivors_upto(snakes: Seq<SnakeView>, n: nat) -> Seq<SnakeView>
    decreases n,
{
    if n == 0 {
        Seq::empty()
    } else if terminated(snakes, n - 1) {
        survivors_upto(snakes, (n - 1) as nat)
    } else {
        survivors_upto(snakes, (n - 1) as nat).push(snakes[n - 1])
    }
}

/// The snakes of the roster that stay in the game, in their order.
pub open spec fn survivors(snakes: Seq<SnakeView>) -> Seq<SnakeView> {
    survivors_upto(snakes, snakes.len())
}

/// Survivors are snakes of the roster, and no more than those judged.
pub proof fn lemma_survivors_upto(snakes: Seq<SnakeView>, n: nat)
    requires
        n <= snakes.len(),
    ensures
        survivors_upto(snakes, n).len() <= n,
        forall|k: int|
            0 <= k < survivors_upto(snakes, n).len() ==> exists|i: int|
                0 <= i < n && !terminated(snakes, i) && snakes[i] == #[trigger] survivors_upto(
                    snakes,
                    n,
                )[k],
        forall|i: int|
            0 <= i < n && !terminated(snakes, i) ==> survivors_upto(snakes, n).contains(
                #[trigger] snakes[i],
            ),
    decreases n,
{
    if n > 0 {
        let rest = survivors_upto(snakes, (n - 1) as nat);
        let all = survivors_upto(snakes, n);
        lemma_survivors_upto(snakes, (n - 1) as nat);
        assert forall|k: int| 0 <= k < all.len() implies exists|i: int|
            0 <= i < n && !terminated(snakes, i) && snakes[i] == #[trigger] all[k] by {
            if k < rest.len() {
                let i = choose|i: int|
                    0 <= i < n - 1 && !terminated(snakes, i) && snakes[i] == rest[k];
                assert(snakes[i] == all[k]);
            } else {
                assert(snakes[n - 1] == all[k]);
            }
        }
        assert forall|i: int| 0 <= i < n && !terminated(snakes, i) implies all.contains(
            #[trigger] snakes[i],
        ) by {
            if i < n - 1 {
                assert(rest.contains(snakes[i]));
                let k = choose|k: int| 0 <= k < rest.len() && rest[k] == snakes[i];
                assert(all[k] == snakes[i]);
            } else {
                assert(all[all.len() - 1] == snakes[i]);
            }
        }
    }
}

impl Game {
    /// Whether snake `i` leaves the game: its head is off the grid and it
    /// has no portal effect, or it is not invisible and its head is on the
    /// body of a snake that is not invisible either.
    pub fn is_terminated(&self, i: usize) -> (r: bool)
        requires
            all_wf(self@.snakes),
            i < self.snakes@.len(),
        ensures
            r == terminated(self@.snakes, i as int),
    {
        let ghost roster = views(self.snakes@);
        assert(roster[i as int].wf());
        let snake = &self.snakes[i];
        if !snake.can_portal() && snake.is_outside() {
            return true;
        }
        if snake.is_invisible() {
            return false;
        }
        let n: usize = self.snakes.len();
        let mut j: usize = 0;
        while j < n
            invariant
                j <= n,
                n == self.snakes@.len(),
                i < n,
                roster == views(self.snakes@),
                all_wf(roster),
                snake@ == roster[i as int],
                snake.wf(),
                !snake@.is_invisible(),
                !leaves_grid(snake@),
                forall|k: int|
                    0 <= k < j ==> !(!(#[trigger] roster[k]).is_invisible() && roster[i as int].eats_other(
                        roster[k],
                    )),
            decreases n - j,
        {
            assert(roster[j as int].wf());
            let other = &self.snakes[j];
            if !other.is_invisible() && snake.eats_other(other) {
                assert(!roster[j as int].is_invisible() && roster[i as int].eats_other(
                    roster[j as int],
                ));
                return true;
            }
            j = j + 1;
        }
        false
    }

    /// Removes the snakes that leave the game. Every snake is judged
    /// against the roster as it was before any snake was removed, and the
    /// snakes that stay keep their order.
    pub fn remove_terminated(&mut self)
        requires
            old(self)@.sound(),
        ensures
            final(self)@.snakes == survivors(old(self)@.snakes),
            final(self)@.score == old(self)@.score,
            final(self)@.foods == old(self)@.foods,
            final(self)@.double_food_time_left == old(self)@.double_food_time_left,
            final(self)@.sound(),
    {
        let ghost roster = views(self.snakes@);
        let n: usize = self.snakes.len();
        let mut doomed: Vec<bool> = Vec::new();
        let mut i: usize = 0;
        while i < n
            invariant
                i <= n,
                n == self.snakes@.len(),
                self == old(self),
                roster == views(self.snakes@),
                all_wf(roster),
                doomed@.len() == i,
                forall|k: int| 0 <= k < i ==> #[trigger] doomed@[k] == terminated(roster, k),
            decreases n - i,
        {
            let gone = self.is_terminated(i);
            doomed.push(gone);
            i = i + 1;
        }
        let mut kept: usize = 0;
        let mut k: usize = 0;
        assert(views(self.snakes@) =~= survivors_upto(roster, 0) + roster.subrange(0, n as int));
        while k < n
            invariant
                k <= n,
                n == roster.len(),
                kept <= k,
                self.score == old(self).score,
                self.foods == old(self).foods,
                self.double_food_time_left == old(self).double_food_time_left,
                all_wf(roster),
                doomed@.len() == n,
                forall|a: int| 0 <= a < n ==> #[trigger] doomed@[a] == terminated(roster, a),
                kept == survivors_upto(roster, k as nat).len(),
                views(self.snakes@) == survivors_upto(roster, k as nat) + roster.subrange(
                    k as int,
                    n as int,
                ),
            decreases n - k,
        {
            let ghost before = self.snakes@;
            assert(views(before).len() == kept + (n - k));
            if doomed[k] {
                self.snakes.remove(kept);
                assert(views(self.snakes@) =~= survivors_upto(roster, (k + 1) as nat)
                    + roster.subrange(k + 1, n as int)) by {
                    assert(views(self.snakes@) =~= views(before).remove(kept as int));
                }
            } else {
                assert(views(self.snakes@) =~= survivors_upto(roster, (k + 1) as nat)
                    + roster.subrange(k + 1, n as int));
                kept = kept + 1;
            }
            k = k + 1;
        }
        proof {
            assert(views(self.snakes@) =~= survivors(roster));
            lemma_survivors_upto(roster, n as nat);
            assert forall|a: int| 0 <= a < self@.snakes.len() implies (#[trigger] self@.snakes[a]).wf() by {
                let b = choose|b: int|
                    0 <= b < n && !terminated(roster, b) && roster[b] == survivors_upto(
                        roster,
                        n as nat,
                    )[a];
                assert(roster[b].wf());
            }
        }
    }
}

} // verus!
