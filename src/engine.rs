use vstd::prelude::*;
use crate::action::{Action, payoff, points};
use crate::catalogue::{
    Anonymous, Davis, Downing, Feld, Graaskamp, Grofman, Grudger, Joss, Nydegger, Random,
    Shubik, SteinRapoport, TidemanChieruzzi, TitForTat, Tullock,
};
use crate::strategy::{Odds, Strategy};

verus! {

/// Number of strategies in the catalogue; their ids run from 1 to this.
pub const CATALOGUE_SIZE: usize = 15;

/// One strategy of the catalogue, with its state.
pub enum Player {
    TitForTat(TitForTat),
    TidemanChieruzzi(TidemanChieruzzi),
    Nydegger(Nydegger),
    Grofman(Grofman),
    Shubik(Shubik),
    SteinRapoport(SteinRapoport),
    Grudger(Grudger),
    Davis(Davis),
    Graaskamp(Graaskamp),
    Downing(Downing),
    Feld(Feld),
    Joss(Joss),
    Tullock(Tullock),
    Anonymous(Anonymous),
    Random(Random),
}

impl Player {
    /// The catalogue id of the strategy.
    pub open spec fn id(self) -> nat {
        match self {
            Player::TitForTat(_) => 1,
            Player::TidemanChieruzzi(_) => 2,
            Player::Nydegger(_) => 3,
            Player::Grofman(_) => 4,
            Player::Shubik(_) => 5,
            Player::SteinRapoport(_) => 6,
            Player::Grudger(_) => 7,
            Player::Davis(_) => 8,
            Player::Graaskamp(_) => 9,
            Player::Downing(_) => 10,
            Player::Feld(_) => 11,
            Player::Joss(_) => 12,
            Player::Tullock(_) => 13,
            Player::Anonymous(_) => 14,
            Player::Random(_) => 15,
        }
    }

    /// Whether two players are of one strategy and in the same state.
    pub open spec fn agrees(self, other: Player) -> bool {
        match (self, other) {
            (Player::TitForTat(s), Player::TitForTat(t)) => s == t,
            (Player::TidemanChieruzzi(s), Player::TidemanChieruzzi(t)) => s == t,
            (Player::Nydegger(s), Player::Nydegger(t)) => s.prev_actions@ == t.prev_actions@,
            (Player::Grofman(s), Player::Grofman(t)) => s == t,
            (Player::Shubik(s), Player::Shubik(t)) => s == t,
            (Player::SteinRapoport(s), Player::SteinRapoport(t)) => s == t,
            (Player::Grudger(s), Player::Grudger(t)) => s == t,
            (Player::Davis(s), Player::Davis(t)) => s == t,
            (Player::Graaskamp(s), Player::Graaskamp(t)) => s.random_detected == t.random_detected && s.last_actions@ == t.last_actions@,
            (Player::Downing(s), Player::Downing(t)) => s == t,
            (Player::Feld(s), Player::Feld(t)) => s == t,
            (Player::Joss(s), Player::Joss(t)) => s == t,
            (Player::Tullock(s), Player::Tullock(t)) => s == t,
            (Player::Anonymous(s), Player::Anonymous(t)) => s == t,
            (Player::Random(s), Player::Random(t)) => s == t,
            _ => false,
        }
    }
}

impl Strategy for Player {
    open spec fn wf(&self) -> bool {
        match self {
            Player::TitForTat(s) => s.wf(),
            Player::TidemanChieruzzi(s) => s.wf(),
            Player::Nydegger(s) => s.wf(),
            Player::Grofman(s) => s.wf(),
            Player::Shubik(s) => s.wf(),
            Player::SteinRapoport(s) => s.wf(),
            Player::Grudger(s) => s.wf(),
            Player::Davis(s) => s.wf(),
            Player::Graaskamp(s) => s.wf(),
            Player::Downing(s) => s.wf(),
            Player::Feld(s) => s.wf(),
            Player::Joss(s) => s.wf(),
            Player::Tullock(s) => s.wf(),
            Player::Anonymous(s) => s.wf(),
            Player::Random(s) => s.wf(),
        }
    }

    open spec fn chance(&self, own: Seq<Action>, opp: Seq<Action>) -> Odds {
        match self {
            Player::TitForTat(s) => s.chance(own, opp),
            Player::TidemanChieruzzi(s) => s.chance(own, opp),
            Player::Nydegger(s) => s.chance(own, opp),
            Player::Grofman(s) => s.chance(own, opp),
            Player::Shubik(s) => s.chance(own, opp),
            Player::SteinRapoport(s) => s.chance(own, opp),
            Player::Grudger(s) => s.chance(own, opp),
            Player::Davis(s) => s.chance(own, opp),
            Player::Graaskamp(s) => s.chance(own, opp),
            Player::Downing(s) => s.chance(own, opp),
            Player::Feld(s) => s.chance(own, opp),
            Player::Joss(s) => s.chance(own, opp),
            Player::Tullock(s) => s.chance(own, opp),
            Player::Anonymous(s) => s.chance(own, opp),
            Player::Random(s) => s.chance(own, opp),
        }
    }

    open spec fn steps_to(&self, own: Seq<Action>, opp: Seq<Action>, next: Self) -> bool {
        match (*self, next) {
            (Player::TitForTat(s), Player::TitForTat(n)) => s.steps_to(own, opp, n),
            (Player::TidemanChieruzzi(s), Player::TidemanChieruzzi(n)) => s.steps_to(own, opp, n),
            (Player::Nydegger(s), Player::Nydegger(n)) => s.steps_to(own, opp, n),
            (Player::Grofman(s), Player::Grofman(n)) => s.steps_to(own, opp, n),
            (Player::Shubik(s), Player::Shubik(n)) => s.steps_to(own, opp, n),
            (Player::SteinRapoport(s), Player::SteinRapoport(n)) => s.steps_to(own, opp, n),
            (Player::Grudger(s), Player::Grudger(n)) => s.steps_to(own, opp, n),
            (Player::Davis(s), Player::Davis(n)) => s.steps_to(own, opp, n),
            (Player::Graaskamp(s), Player::Graaskamp(n)) => s.steps_to(own, opp, n),
            (Player::Downing(s), Player::Downing(n)) => s.steps_to(own, opp, n),
            (Player::Feld(s), Player::Feld(n)) => s.steps_to(own, opp, n),
            (Player::Joss(s), Player::Joss(n)) => s.steps_to(own, opp, n),
            (Player::Tullock(s), Player::Tullock(n)) => s.steps_to(own, opp, n),
            (Player::Anonymous(s), Player::Anonymous(n)) => s.steps_to(own, opp, n),
            (Player::Random(s), Player::Random(n)) => s.steps_to(own, opp, n),
            _ => false,
        }
    }

    open spec fn is_initial(&self) -> bool {
        match self {
            Player::TitForTat(s) => s.is_initial(),
            Player::TidemanChieruzzi(s) => s.is_initial(),
            Player::Nydegger(s) => s.is_initial(),
            Player::Grofman(s) => s.is_initial(),
            Player::Shubik(s) => s.is_initial(),
            Player::SteinRapoport(s) => s.is_initial(),
            Player::Grudger(s) => s.is_initial(),
            Player::Davis(s) => s.is_initial(),
            Player::Graaskamp(s) => s.is_initial(),
            Player::Downing(s) => s.is_initial(),
            Player::Feld(s) => s.is_initial(),
            Player::Joss(s) => s.is_initial(),
            Player::Tullock(s) => s.is_initial(),
            Player::Anonymous(s) => s.is_initial(),
            Player::Random(s) => s.is_initial(),
        }
    }

    /// A reset keeps the strategy and starts it afresh.
    open spec fn resets_to(&self, next: Self) -> bool {
        next.id() == self.id() && next.is_initial()
    }

    fn decide(&mut self, actions_self: &[Action], actions_opponent: &[Action]) -> (r: Action)
        ensures
            final(self).id() == old(self).id(),
    {
        match self {
            Player::TitForTat(s) => s.decide(actions_self, actions_opponent),
            Player::TidemanChieruzzi(s) => s.decide(actions_self, actions_opponent),
            Player::Nydegger(s) => s.decide(actions_self, actions_opponent),
            Player::Grofman(s) => s.decide(actions_self, actions_opponent),
            Player::Shubik(s) => s.decide(actions_self, actions_opponent),
            Player::SteinRapoport(s) => s.decide(actions_self, actions_opponent),
            Player::Grudger(s) => s.decide(actions_self, actions_opponent),
            Player::Davis(s) => s.decide(actions_self, actions_opponent),
            Player::Graaskamp(s) => s.decide(actions_self, actions_opponent),
            Player::Downing(s) => s.decide(actions_self, actions_opponent),
            Player::Feld(s) => s.decide(actions_self, actions_opponent),
            Player::Joss(s) => s.decide(actions_self, actions_opponent),
            Player::Tullock(s) => s.decide(actions_self, actions_opponent),
            Player::Anonymous(s) => s.decide(actions_self, actions_opponent),
            Player::Random(s) => s.decide(actions_self, actions_opponent),
        }
    }

    fn reset(&mut self)
        ensures
            final(self).id() == old(self).id(),
    {
        match self {
            Player::TitForTat(s) => s.reset(),
            Player::TidemanChieruzzi(s) => s.reset(),
            Player::Nydegger(s) => s.reset(),
            Player::Grofman(s) => s.reset(),
            Player::Shubik(s) => s.reset(),
            Player::SteinRapoport(s) => s.reset(),
            Player::Grudger(s) => s.reset(),
            Player::Davis(s) => s.reset(),
            Player::Graaskamp(s) => s.reset(),
            Player::Downing(s) => s.reset(),
            Player::Feld(s) => s.reset(),
            Player::Joss(s) => s.reset(),
            Player::Tullock(s) => s.reset(),
            Player::Anonymous(s) => s.reset(),
            Player::Random(s) => s.reset(),
        }
    }
}

/// Two players of one strategy agree once both are in its initial state, as
/// `reset` and `create_strategy` leave them.
pub proof fn lemma_reset_players_agree(a: Player, b: Player)
    requires
        a.id() == b.id(),
        a.is_initial(),
        b.is_initial(),
    ensures
        a.agrees(b),
{
    match (a, b) {
        (Player::Nydegger(s), Player::Nydegger(t)) => {
            assert(s.prev_actions@ =~= t.prev_actions@);
        },
        (Player::Graaskamp(s), Player::Graaskamp(t)) => {
            assert(s.last_actions@ =~= t.last_actions@);
        },
        _ => {},
    }
}

/// Agreeing players that see the same histories and the same draw play the
/// same move and still agree afterwards: after a reset, two players of one
/// strategy play alike for as long as they are fed alike.
pub proof fn lemma_agreeing_players_replay(
    a: Player,
    b: Player,
    own: Seq<Action>,
    opp: Seq<Action>,
    coin: bool,
    a2: Player,
    b2: Player,
)
    requires
        a.agrees(b),
        a.steps_to(own, opp, a2),
        b.steps_to(own, opp, b2),
    ensures
        a.chance(own, opp) == b.chance(own, opp),
        a.chance(own, opp).resolve(coin) == b.chance(own, opp).resolve(coin),
        a2.agrees(b2),
{
    match (a, b) {
        (Player::Nydegger(s), Player::Nydegger(t)) => {
            assert(s.choice(opp) == t.choice(opp));
        },
        (Player::Graaskamp(s), Player::Graaskamp(t)) => {
            assert(s.choice(opp) == t.choice(opp));
        },
        _ => {},
    }
}

/// A new player of the strategy with catalogue id `id`, in its initial state.
pub fn create_strategy(id: usize) -> (r: Player)
    requires
        1 <= id <= CATALOGUE_SIZE,
    ensures
        r.wf(),
        r.id() == id,
        r.is_initial(),
{
    match id {
        1 => Player::TitForTat(TitForTat::new()),
        2 => Player::TidemanChieruzzi(TidemanChieruzzi::new()),
        3 => Player::Nydegger(Nydegger::new()),
        4 => Player::Grofman(Grofman::new()),
        5 => Player::Shubik(Shubik::new()),
        6 => Player::SteinRapoport(SteinRapoport::new()),
        7 => Player::Grudger(Grudger::new()),
        8 => Player::Davis(Davis::new()),
        9 => Player::Graaskamp(Graaskamp::new()),
        10 => Player::Downing(Downing::new()),
        11 => Player::Feld(Feld::new()),
        12 => Player::Joss(Joss::new()),
        13 => Player::Tullock(Tullock::new()),
        14 => Player::Anonymous(Anonymous::new()),
        _ => Player::Random(Random::new()),
    }
}

/// The name of the strategy with catalogue id `id`.
pub fn strategy_name(id: usize) -> (r: &'static str)
    requires
        1 <= id <= CATALOGUE_SIZE,
    ensures
        id == 1 ==> r@ == "TitForTat"@,
        id == 2 ==> r@ == "TidemanChieruzzi"@,
        id == 3 ==> r@ == "Nydegger"@,
        id == 4 ==> r@ == "Grofman"@,
        id == 5 ==> r@ == "Shubik"@,
        id == 6 ==> r@ == "SteinRapoport"@,
        id == 7 ==> r@ == "Grudger"@,
        id == 8 ==> r@ == "Davis"@,
        id == 9 ==> r@ == "Graaskamp"@,
        id == 10 ==> r@ == "Downing"@,
        id == 11 ==> r@ == "Feld"@,
        id == 12 ==> r@ == "Joss"@,
        id == 13 ==> r@ == "Tullock"@,
        id == 14 ==> r@ == "Anonymous"@,
        id == 15 ==> r@ == "Random"@,
{
    match id {
        1 => "TitForTat",
        2 => "TidemanChieruzzi",
        3 => "Nydegger",
        4 => "Grofman",
        5 => "Shubik",
        6 => "SteinRapoport",
        7 => "Grudger",
        8 => "Davis",
        9 => "Graaskamp",
        10 => "Downing",
        11 => "Feld",
        12 => "Joss",
        13 => "Tullock",
        14 => "Anonymous",
        _ => "Random",
    }
}

/// Points of the first side over a match in which it played `ha` and the
/// other side played `hb`.
pub open spec fn match_points(ha: Seq<Action>, hb: Seq<Action>) -> nat
    decreases ha.len(),
{
    if ha.len() == 0 || hb.len() == 0 {
        0
    } else {
        match_points(ha.drop_last(), hb.drop_last()) + points(ha.last(), hb.last())
    }
}

/// Over `n` rounds each side scores at most `5n`, and the two together score
/// from `2n` to `6n`.
pub proof fn lemma_match_bounds(ha: Seq<Action>, hb: Seq<Action>)
    requires
        ha.len() == hb.len(),
    ensures
        match_points(ha, hb) <= 5 * ha.len(),
        match_points(hb, ha) <= 5 * ha.len(),
        2 * ha.len() <= match_points(ha, hb) + match_points(hb, ha) <= 6 * ha.len(),
    decreases ha.len(),
{
    if ha.len() > 0 {
        lemma_match_bounds(ha.drop_last(), hb.drop_last());
        crate::action::lemma_round_bounds(ha.last(), hb.last());
        crate::action::lemma_round_bounds(hb.last(), ha.last());
    }
}

/// Whether `states` is a run of a player that played `own` against `opp`:
/// before round `i` it was in `states[i]`, saw the first `i` moves of both
/// sides, played `own[i]` as its odds allow, and moved to `states[i + 1]`.
pub open spec fn follows<S: Strategy>(states: Seq<S>, own: Seq<Action>, opp: Seq<Action>) -> bool {
    &&& opp.len() == own.len()
    &&& states.len() == own.len() + 1
    &&& forall|i: int|
        0 <= i < own.len() ==> {
            &&& (#[trigger] states[i]).chance(own.take(i), opp.take(i)).allows(own[i])
            &&& states[i].steps_to(own.take(i), opp.take(i), states[i + 1])
        }
}

/// Whether `r` is a possible result of a match of `rounds` rounds between
/// players that start out as `a0` and `b0`: both are reset, then play the
/// histories `ha` and `hb`, each deciding on the earlier moves of both sides,
/// and `r` holds the points of each side.
pub open spec fn plays_out<A: Strategy, B: Strategy>(a0: A, b0: B, rounds: nat, r: (u64, u64)) -> bool {
    exists|ha: Seq<Action>, hb: Seq<Action>, sa: Seq<A>, sb: Seq<B>|
        #![trigger follows(sa, ha, hb), follows(sb, hb, ha)]
        {
            &&& ha.len() == rounds
            &&& follows(sa, ha, hb)
            &&& follows(sb, hb, ha)
            &&& a0.resets_to(sa[0])
            &&& b0.resets_to(sb[0])
            &&& r.0 == match_points(ha, hb)
            &&& r.1 == match_points(hb, ha)
        }
}

proof fn lemma_follows_extend<S: Strategy>(
    states: Seq<S>,
    own: Seq<Action>,
    opp: Seq<Action>,
    x: Action,
    y: Action,
    n: S,
)
    requires
        follows(states, own, opp),
        states.last().chance(own, opp).allows(x),
        states.last().steps_to(own, opp, n),
    ensures
        follows(states.push(n), own.push(x), opp.push(y)),
{
    let s2 = states.push(n);
    let o2 = own.push(x);
    let p2 = opp.push(y);
    assert forall|i: int| 0 <= i < o2.len() implies {
        &&& (#[trigger] s2[i]).chance(o2.take(i), p2.take(i)).allows(o2[i])
        &&& s2[i].steps_to(o2.take(i), p2.take(i), s2[i + 1])
    } by {
        assert(o2.take(i) =~= own.take(i));
        assert(p2.take(i) =~= opp.take(i));
        if i == own.len() {
            assert(own.take(i) =~= own);
            assert(opp.take(i) =~= opp);
        }
    }
}

/// Every decision of a run is made on histories as long as the rounds
/// already played: the `i`-th move is decided on `i` moves of each side.
pub proof fn lemma_decisions_see_rounds_played<S: Strategy>(
    states: Seq<S>,
    own: Seq<Action>,
    opp: Seq<Action>,
    i: int,
)
    requires
        follows(states, own, opp),
        0 <= i < own.len(),
    ensures
        own.take(i).len() == i,
        opp.take(i).len() == i,
        states[i].chance(own.take(i), opp.take(i)).allows(own[i]),
{
}

/// Swapping the two players swaps the two scores: what one match can give
/// as `(x, y)` the swapped match can give as `(y, x)`.
pub proof fn lemma_plays_out_swap<A: Strategy, B: Strategy>(a0: A, b0: B, rounds: nat, r: (u64, u64))
    requires
        plays_out(a0, b0, rounds, r),
    ensures
        plays_out(b0, a0, rounds, (r.1, r.0)),
{
    let (ha, hb, sa, sb) = choose|ha: Seq<Action>, hb: Seq<Action>, sa: Seq<A>, sb: Seq<B>|
        #![trigger follows(sa, ha, hb), follows(sb, hb, ha)]
        {
            &&& ha.len() == rounds
            &&& follows(sa, ha, hb)
            &&& follows(sb, hb, ha)
            &&& a0.resets_to(sa[0])
            &&& b0.resets_to(sb[0])
            &&& r.0 == match_points(ha, hb)
            &&& r.1 == match_points(hb, ha)
        };
    assert(follows(sb, hb, ha) && follows(sa, ha, hb));
}

/// Plays a match of `rounds` rounds between `a` and `b`, after resetting both,
/// and returns their scores. In each round both decide on the histories as
/// they stood before it, which have the length of the rounds played.
pub fn simulate<A: Strategy, B: Strategy>(a: &mut A, b: &mut B, rounds: usize) -> (r: (u64, u64))
    requires
        5 * rounds <= u64::MAX,
    ensures
        final(a).wf(),
        final(b).wf(),
        plays_out(*old(a), *old(b), rounds as nat, r),
        r.0 <= 5 * rounds,
        r.1 <= 5 * rounds,
        2 * rounds <= r.0 + r.1 <= 6 * rounds,
{
    let ghost a0 = *a;
    let ghost b0 = *b;
    let mut actions_a: Vec<Action> = Vec::new();
    let mut actions_b: Vec<Action> = Vec::new();
    let mut score_a: u64 = 0;
    let mut score_b: u64 = 0;
    a.reset();
    b.reset();
    let ghost mut sa: Seq<A> = seq![*a];
    let ghost mut sb: Seq<B> = seq![*b];
    let mut i: usize = 0;
    while i < rounds
        invariant
            i <= rounds,
            5 * rounds <= u64::MAX,
            a.wf(),
            b.wf(),
            actions_a@.len() == i,
            actions_b@.len() == i,
            follows(sa, actions_a@, actions_b@),
            follows(sb, actions_b@, actions_a@),
            sa.last() == *a,
            sb.last() == *b,
            a0.resets_to(sa[0]),
            b0.resets_to(sb[0]),
            score_a == match_points(actions_a@, actions_b@),
            score_b == match_points(actions_b@, actions_a@),
            score_a <= 5 * i,
            score_b <= 5 * i,
        decreases rounds - i,
    {
        let action_a = a.decide(actions_a.as_slice(), actions_b.as_slice());
        let action_b = b.decide(actions_b.as_slice(), actions_a.as_slice());
        let (pa, pb) = payoff(action_a, action_b);
        proof {
            crate::action::lemma_round_bounds(action_a, action_b);
            crate::action::lemma_round_bounds(action_b, action_a);
            lemma_follows_extend(sa, actions_a@, actions_b@, action_a, action_b, *a);
            lemma_follows_extend(sb, actions_b@, actions_a@, action_b, action_a, *b);
            assert(sa.push(*a)[0] == sa[0]);
            assert(sb.push(*b)[0] == sb[0]);
            sa = sa.push(*a);
            sb = sb.push(*b);
        }
        score_a = score_a + pa;
        score_b = score_b + pb;
        let ghost old_a = actions_a@;
        let ghost old_b = actions_b@;
        actions_a.push(action_a);
        actions_b.push(action_b);
        assert(actions_a@ == old_a.push(action_a));
        assert(actions_b@ == old_b.push(action_b));
        assert(actions_a@.drop_last() =~= old_a);
        assert(actions_b@.drop_last() =~= old_b);
        i += 1;
    }
    proof {
        lemma_match_bounds(actions_a@, actions_b@);
        assert(follows(sa, actions_a@, actions_b@) && follows(sb, actions_b@, actions_a@));
    }
    (score_a, score_b)
}

} // verus!
