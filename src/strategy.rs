use vstd::prelude::*;
use crate::action::Action;

verus! {

/// The chance, `num` out of `den`, that a strategy cooperates this round.
#[derive(Clone, Copy, PartialEq, Eq, Structural, Debug)]
pub struct Odds {
    pub num: u32,
    pub den: u32,
}

impl Odds {
    pub open spec fn wf(self) -> bool {
        0 < self.den && self.num <= self.den
    }

    /// Odds that leave no choice: `a` is played.
    pub open spec fn certain(a: Action) -> Odds {
        match a {
            Action::Cooperate => Odds { num: 1, den: 1 },
            Action::Betray => Odds { num: 0, den: 1 },
        }
    }

    /// The move played when the draw came out `coin` (`true`: the chance
    /// of cooperating was met). Certain odds ignore the draw.
    pub open spec fn resolve(self, coin: bool) -> Action {
        if self.num == 0 {
            Action::Betray
        } else if self.num == self.den {
            Action::Cooperate
        } else if coin {
            Action::Cooperate
        } else {
            Action::Betray
        }
    }

    /// Whether `a` can come out of these odds: cooperating needs a chance
    /// above zero, betraying a chance below one.
    pub open spec fn allows(self, a: Action) -> bool {
        &&& (a == Action::Cooperate ==> self.num > 0)
        &&& (a == Action::Betray ==> self.num < self.den)
    }

    pub fn always(a: Action) -> (r: Odds)
        ensures
            r == Odds::certain(a),
            r.wf(),
    {
        match a {
            Action::Cooperate => Odds { num: 1, den: 1 },
            Action::Betray => Odds { num: 0, den: 1 },
        }
    }

    /// The move for a given outcome of the draw.
    pub fn settle(self, coin: bool) -> (r: Action)
        ensures
            r == self.resolve(coin),
    {
        if self.num == 0 {
            Action::Betray
        } else if self.num == self.den {
            Action::Cooperate
        } else if coin {
            Action::Cooperate
        } else {
            Action::Betray
        }
    }

    /// Draws the move: a random draw is made only when the odds leave a choice.
    pub fn draw(self) -> (r: Action)
        requires
            self.wf(),
        ensures
            self.allows(r),
    {
        let coin = if self.num == 0 || self.num == self.den {
            false
        } else {
            bernoulli(self.num, self.den)
        };
        self.settle(coin)
    }
}

/// Relies on `rand::Rng::random_ratio` with the thread-local generator of
/// `rand::rng()`: `true` with chance `num / den`; always `true` when
/// `num == den` and always `false` when `num == 0`. It panics when `den == 0`
/// or `num > den`.
#[verifier::external_body]
fn bernoulli(num: u32, den: u32) -> (r: bool)
    requires
        0 < den,
        num <= den,
    ensures
        num == den ==> r,
        num == 0 ==> !r,
{
    rand::Rng::random_ratio(&mut rand::rng(), num, den)
}

/// A player of the iterated game. `decide` sees both histories, which have
/// the same length (the rounds played so far), and picks the next move.
///
/// The spec functions describe the player: the odds of its next move, the
/// state it moves to, and the state it starts a match in. Their default
/// bodies claim nothing; every strategy of the catalogue states its own.
pub trait Strategy: Sized {
    /// The invariant of the player's private state.
    spec fn wf(&self) -> bool;

    /// The odds of the next move on the given histories.
    open spec fn chance(&self, own: Seq<Action>, opp: Seq<Action>) -> Odds {
        Odds { num: 1, den: 2 }
    }

    /// Whether `next` is the state that the player moves to on the given histories.
    open spec fn steps_to(&self, own: Seq<Action>, opp: Seq<Action>, next: Self) -> bool {
        true
    }

    /// Whether the player is in the state in which it starts a match.
    open spec fn is_initial(&self) -> bool {
        true
    }

    /// Whether `next` is what `reset` makes of this player.
    open spec fn resets_to(&self, next: Self) -> bool {
        next.is_initial()
    }

    fn decide(&mut self, actions_self: &[Action], actions_opponent: &[Action]) -> (r: Action)
        requires
            old(self).wf(),
            actions_self@.len() == actions_opponent@.len(),
        ensures
            final(self).wf(),
            old(self).chance(actions_self@, actions_opponent@).allows(r),
            old(self).steps_to(actions_self@, actions_opponent@, *final(self)),
    ;

    /// Returns the player to the state in which it starts a match.
    fn reset(&mut self)
        ensures
            final(self).wf(),
            final(self).is_initial(),
            old(self).resets_to(*final(self)),
    ;
}

} // verus!
