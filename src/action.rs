use vstd::prelude::*;

verus! {

/// One move of a round.
#[derive(Clone, Copy, PartialEq, Eq, Structural, Debug)]
pub enum Action {
    Cooperate,
    Betray,
}

/// Points of the first player when it plays `a` against `b`.
pub open spec fn points(a: Action, b: Action) -> nat {
    match (a, b) {
        (Action::Cooperate, Action::Cooperate) => 3,
        (Action::Cooperate, Action::Betray) => 0,
        (Action::Betray, Action::Cooperate) => 5,
        (Action::Betray, Action::Betray) => 1,
    }
}

/// Number of `a` in `s`.
pub open spec fn count_of(s: Seq<Action>, a: Action) -> nat
    decreases s.len(),
{
    if s.len() == 0 {
        0
    } else {
        count_of(s.drop_last(), a) + if s.last() == a { 1nat } else { 0nat }
    }
}

/// The round's points for both sides: `(points of a, points of b)`.
pub fn payoff(a: Action, b: Action) -> (r: (u64, u64))
    ensures
        r.0 == points(a, b),
        r.1 == points(b, a),
{
    match (a, b) {
        (Action::Cooperate, Action::Cooperate) => (3, 3),
        (Action::Cooperate, Action::Betray) => (0, 5),
        (Action::Betray, Action::Cooperate) => (5, 0),
        (Action::Betray, Action::Betray) => (1, 1),
    }
}

/// The table is symmetric: what one side gets for `(a, b)` is what the other
/// side gets for `(b, a)`.
pub proof fn lemma_payoff_symmetric(a: Action, b: Action)
    ensures
        payoff_spec(a, b).0 == payoff_spec(b, a).1,
        payoff_spec(a, b).1 == payoff_spec(b, a).0,
{
}

/// The pair that `payoff` returns.
pub open spec fn payoff_spec(a: Action, b: Action) -> (nat, nat) {
    (points(a, b), points(b, a))
}

/// Each side gets at most 5 a round, and together they get from 2 to 6.
pub proof fn lemma_round_bounds(a: Action, b: Action)
    ensures
        points(a, b) <= 5,
        2 <= points(a, b) + points(b, a) <= 6,
{
}

/// Counts `a` among `s[lo..hi]`.
pub fn count_range(s: &[Action], lo: usize, hi: usize, a: Action) -> (r: usize)
    requires
        lo <= hi <= s@.len(),
    ensures
        r == count_of(s@.subrange(lo as int, hi as int), a),
        r <= hi - lo,
{
    let mut i: usize = lo;
    let mut n: usize = 0;
    while i < hi
        invariant
            lo <= i <= hi <= s@.len(),
            n == count_of(s@.subrange(lo as int, i as int), a),
            n <= i - lo,
        decreases hi - i,
    {
        assert(s@.subrange(lo as int, i as int + 1).drop_last() =~= s@.subrange(lo as int, i as int));
        if s[i] == a {
            n += 1;
        }
        i += 1;
    }
    n
}

} // verus!
