use vstd::prelude::*;
use crate::action::{Action, count_of, count_range};
use crate::strategy::{Odds, Strategy};

verus! {

/// The opponent's last move, or `Cooperate` before the first round.
pub open spec fn last_or_cooperate(opp: Seq<Action>) -> Action {
    if opp.len() == 0 {
        Action::Cooperate
    } else {
        opp.last()
    }
}

/// Adds one to a counter, which stays put at the largest value.
pub open spec fn bump(x: u64) -> u64 {
    if x < u64::MAX {
        (x + 1) as u64
    } else {
        x
    }
}

/// Appends `x` to a window that holds at most `cap` moves, dropping the oldest.
pub open spec fn slide(w: Seq<Action>, x: Action, cap: nat) -> Seq<Action> {
    if w.len() + 1 > cap {
        w.push(x).drop_first()
    } else {
        w.push(x)
    }
}

fn bump_exec(x: u64) -> (r: u64)
    ensures
        r == bump(x),
{
    if x < u64::MAX {
        x + 1
    } else {
        x
    }
}

fn slide_window(w: &mut Vec<Action>, x: Action, cap: usize)
    requires
        1 <= cap,
        old(w)@.len() <= cap,
    ensures
        final(w)@ == slide(old(w)@, x, cap as nat),
        final(w)@.len() <= cap,
{
    w.push(x);
    if w.len() > cap {
        w.remove(0);
        assert(w@ =~= old(w)@.push(x).drop_first());
    }
}

fn last_or_cooperate_exec(opp: &[Action]) -> (r: Action)
    ensures
        r == last_or_cooperate(opp@),
{
    if opp.len() == 0 {
        Action::Cooperate
    } else {
        opp[opp.len() - 1]
    }
}

/// Whether the opponent has ever betrayed.
fn any_betrayal(opp: &[Action]) -> (r: bool)
    ensures
        r == opp@.contains(Action::Betray),
{
    let mut i: usize = 0;
    while i < opp.len()
        invariant
            i <= opp@.len(),
            forall|j: int| 0 <= j < i ==> opp@[j] != Action::Betray,
        decreases opp@.len() - i,
    {
        if opp[i] == Action::Betray {
            assert(opp@[i as int] == Action::Betray);
            return true;
        }
        i += 1;
    }
    false
}

/// Mirrors the opponent's last move; cooperates first.
pub struct TitForTat {
    pub first_move: bool,
}

impl TitForTat {
    pub fn new() -> (r: TitForTat)
        ensures
            r.first_move,
    {
        TitForTat { first_move: true }
    }
}

impl Strategy for TitForTat {
    open spec fn wf(&self) -> bool {
        true
    }

    open spec fn chance(&self, own: Seq<Action>, opp: Seq<Action>) -> Odds {
        Odds::certain(last_or_cooperate(opp))
    }

    open spec fn steps_to(&self, own: Seq<Action>, opp: Seq<Action>, next: Self) -> bool {
        next == *self
    }

    open spec fn is_initial(&self) -> bool {
        self.first_move
    }

    open spec fn resets_to(&self, next: Self) -> bool {
        next.is_initial()
    }

    fn decide(&mut self, actions_self: &[Action], actions_opponent: &[Action]) -> (r: Action)
        ensures
            r == last_or_cooperate(actions_opponent@),
            *final(self) == *old(self),
    {
        last_or_cooperate_exec(actions_opponent)
    }

    fn reset(&mut self)
        ensures
            final(self).first_move,
    {
        self.first_move = true;
    }
}

/// Tit for tat mirrors: once the opponent has moved, it plays the
/// opponent's last move.
pub proof fn lemma_tit_for_tat_mirrors(own: Seq<Action>, opp: Seq<Action>)
    requires
        opp.len() > 0,
    ensures
        last_or_cooperate(opp) == opp.last(),
{
}

/// The grudger latches: once a betrayal stands anywhere in the opponent's
/// history, every later history that extends it makes the grudger betray,
/// whatever its flag.
pub proof fn lemma_grudger_latches(flag: bool, prefix: Seq<Action>, rest: Seq<Action>)
    requires
        prefix.contains(Action::Betray),
    ensures
        Grudger::choice(flag, prefix + rest) == Action::Betray,
{
    let i = choose|i: int| 0 <= i < prefix.len() && prefix[i] == Action::Betray;
    assert((prefix + rest)[i] == Action::Betray);
}

/// Cooperates until the opponent betrays once, then betrays for good.
pub struct Grudger {
    pub ever_betrayed: bool,
}

impl Grudger {
    pub fn new() -> (r: Grudger)
        ensures
            !r.ever_betrayed,
    {
        Grudger { ever_betrayed: false }
    }

    /// The move of a grudger whose flag is `flag`.
    pub open spec fn choice(flag: bool, opp: Seq<Action>) -> Action {
        if flag || opp.contains(Action::Betray) {
            Action::Betray
        } else {
            Action::Cooperate
        }
    }
}

impl Strategy for Grudger {
    open spec fn wf(&self) -> bool {
        true
    }

    open spec fn chance(&self, own: Seq<Action>, opp: Seq<Action>) -> Odds {
        Odds::certain(Grudger::choice(self.ever_betrayed, opp))
    }

    open spec fn steps_to(&self, own: Seq<Action>, opp: Seq<Action>, next: Self) -> bool {
        next.ever_betrayed == (Grudger::choice(self.ever_betrayed, opp) == Action::Betray)
    }

    open spec fn is_initial(&self) -> bool {
        !self.ever_betrayed
    }

    open spec fn resets_to(&self, next: Self) -> bool {
        next.is_initial()
    }

    fn decide(&mut self, actions_self: &[Action], actions_opponent: &[Action]) -> (r: Action)
        ensures
            r == Grudger::choice(old(self).ever_betrayed, actions_opponent@),
            final(self).ever_betrayed == (r == Action::Betray),
    {
        if self.ever_betrayed {
            return Action::Betray;
        }
        if any_betrayal(actions_opponent) {
            self.ever_betrayed = true;
            Action::Betray
        } else {
            Action::Cooperate
        }
    }

    fn reset(&mut self)
        ensures
            !final(self).ever_betrayed,
    {
        self.ever_betrayed = false;
    }
}

/// Tit for tat that answers each further betrayal in a row with one more
/// round of punishment.
pub struct TidemanChieruzzi {
    pub consecutive_betrayals: u64,
    pub punishment_counter: u64,
}

impl TidemanChieruzzi {
    pub fn new() -> (r: TidemanChieruzzi)
        ensures
            r.consecutive_betrayals == 0,
            r.punishment_counter == 0,
    {
        TidemanChieruzzi { consecutive_betrayals: 0, punishment_counter: 0 }
    }

    pub open spec fn next(self, opp: Seq<Action>) -> TidemanChieruzzi {
        if opp.len() == 0 {
            self
        } else if opp.last() == Action::Betray {
            let c = bump(self.consecutive_betrayals);
            TidemanChieruzzi {
                consecutive_betrayals: c,
                punishment_counter: if c >= 2 { (c - 1) as u64 } else { self.punishment_counter },
            }
        } else {
            TidemanChieruzzi {
                consecutive_betrayals: 0,
                punishment_counter: if self.punishment_counter > 0 {
                    (self.punishment_counter - 1) as u64
                } else {
                    0
                },
            }
        }
    }

    pub open spec fn choice(self, opp: Seq<Action>) -> Action {
        if opp.len() == 0 {
            Action::Cooperate
        } else if opp.last() == Action::Betray || self.punishment_counter > 0 {
            Action::Betray
        } else {
            Action::Cooperate
        }
    }
}

impl Strategy for TidemanChieruzzi {
    open spec fn wf(&self) -> bool {
        true
    }

    open spec fn chance(&self, own: Seq<Action>, opp: Seq<Action>) -> Odds {
        Odds::certain(self.choice(opp))
    }

    open spec fn steps_to(&self, own: Seq<Action>, opp: Seq<Action>, next: Self) -> bool {
        next == self.next(opp)
    }

    open spec fn is_initial(&self) -> bool {
        self.consecutive_betrayals == 0 && self.punishment_counter == 0
    }

    open spec fn resets_to(&self, next: Self) -> bool {
        next.is_initial()
    }

    fn decide(&mut self, actions_self: &[Action], actions_opponent: &[Action]) -> (r: Action)
        ensures
            r == old(self).choice(actions_opponent@),
            *final(self) == old(self).next(actions_opponent@),
    {
        if actions_opponent.len() == 0 {
            return Action::Cooperate;
        }
        let last_opponent = actions_opponent[actions_opponent.len() - 1];
        if last_opponent == Action::Betray {
            self.consecutive_betrayals = bump_exec(self.consecutive_betrayals);
            if self.consecutive_betrayals >= 2 {
                self.punishment_counter = self.consecutive_betrayals - 1;
            }
            Action::Betray
        } else {
            self.consecutive_betrayals = 0;
            if self.punishment_counter > 0 {
                self.punishment_counter -= 1;
                Action::Betray
            } else {
                Action::Cooperate
            }
        }
    }

    fn reset(&mut self)
        ensures
            final(self).consecutive_betrayals == 0,
            final(self).punishment_counter == 0,
    {
        self.consecutive_betrayals = 0;
        self.punishment_counter = 0;
    }
}

/// Tit for tat for three rounds, then a rule on the opponent's last three moves.
pub struct Nydegger {
    pub prev_actions: Vec<Action>,
}

/// Weight of a window: 4, 2 and 1 for a betrayal in its first, second and
/// third place.
pub open spec fn window_weight(w: Seq<Action>) -> nat {
    (if w.len() > 0 && w[0] == Action::Betray { 4nat } else { 0nat })
        + (if w.len() > 1 && w[1] == Action::Betray { 2nat } else { 0nat })
        + (if w.len() > 2 && w[2] == Action::Betray { 1nat } else { 0nat })
}

/// Nydegger cooperates on weights 0, 1, 6 and 7.
pub open spec fn weight_move(a: nat) -> Action {
    if a == 0 || a == 1 || a == 6 || a == 7 {
        Action::Cooperate
    } else {
        Action::Betray
    }
}

impl Nydegger {
    pub fn new() -> (r: Nydegger)
        ensures
            r.prev_actions@ == Seq::<Action>::empty(),
    {
        Nydegger { prev_actions: Vec::new() }
    }

    pub open spec fn window_after(self, opp: Seq<Action>) -> Seq<Action> {
        if opp.len() == 0 {
            self.prev_actions@
        } else {
            slide(self.prev_actions@, opp.last(), 3)
        }
    }

    pub open spec fn choice(self, opp: Seq<Action>) -> Action {
        if opp.len() <= 3 {
            last_or_cooperate(opp)
        } else {
            weight_move(window_weight(self.window_after(opp)))
        }
    }

    /// The weight of the current window.
    pub fn calculate_a(&self) -> (r: u8)
        ensures
            r == window_weight(self.prev_actions@),
    {
        let mut a: u8 = 0;
        let n = self.prev_actions.len();
        if n > 0 && self.prev_actions[0] == Action::Betray {
            a += 4;
        }
        if n > 1 && self.prev_actions[1] == Action::Betray {
            a += 2;
        }
        if n > 2 && self.prev_actions[2] == Action::Betray {
            a += 1;
        }
        a
    }
}

impl Strategy for Nydegger {
    open spec fn wf(&self) -> bool {
        self.prev_actions@.len() <= 3
    }

    open spec fn chance(&self, own: Seq<Action>, opp: Seq<Action>) -> Odds {
        Odds::certain(self.choice(opp))
    }

    open spec fn steps_to(&self, own: Seq<Action>, opp: Seq<Action>, next: Self) -> bool {
        next.prev_actions@ == self.window_after(opp)
    }

    open spec fn is_initial(&self) -> bool {
        self.prev_actions@.len() == 0
    }

    open spec fn resets_to(&self, next: Self) -> bool {
        next.is_initial()
    }

    fn decide(&mut self, actions_self: &[Action], actions_opponent: &[Action]) -> (r: Action)
        ensures
            final(self).prev_actions@ == old(self).window_after(actions_opponent@),
            r == old(self).choice(actions_opponent@),
    {
        let t = actions_opponent.len();
        if t == 0 {
            return Action::Cooperate;
        }
        let last = actions_opponent[t - 1];
        slide_window(&mut self.prev_actions, last, 3);
        if t <= 3 {
            last
        } else {
            let a = self.calculate_a();
            if a == 0 || a == 1 || a == 6 || a == 7 {
                Action::Cooperate
            } else {
                Action::Betray
            }
        }
    }

    fn reset(&mut self)
        ensures
            final(self).prev_actions@ == Seq::<Action>::empty(),
    {
        self.prev_actions.clear();
    }
}

/// Retaliates for each betrayal, one round longer every time.
pub struct Shubik {
    pub revenge_counter: u64,
    pub revenge_length: u64,
}

impl Shubik {
    pub fn new() -> (r: Shubik)
        ensures
            r.revenge_counter == 0,
            r.revenge_length == 1,
    {
        Shubik { revenge_counter: 0, revenge_length: 1 }
    }

    pub open spec fn provoked(opp: Seq<Action>) -> bool {
        opp.len() > 0 && opp.last() == Action::Betray
    }

    /// The state after a betrayal is taken into account, before this round's move.
    pub open spec fn armed(self, opp: Seq<Action>) -> Shubik {
        if Shubik::provoked(opp) {
            let l = bump(self.revenge_length);
            Shubik { revenge_counter: l, revenge_length: l }
        } else {
            self
        }
    }

    pub open spec fn next(self, opp: Seq<Action>) -> Shubik {
        let s = self.armed(opp);
        Shubik {
            revenge_counter: if s.revenge_counter > 0 { (s.revenge_counter - 1) as u64 } else { 0 },
            revenge_length: s.revenge_length,
        }
    }

    pub open spec fn choice(self, opp: Seq<Action>) -> Action {
        if self.armed(opp).revenge_counter > 0 {
            Action::Betray
        } else {
            Action::Cooperate
        }
    }
}

impl Strategy for Shubik {
    open spec fn wf(&self) -> bool {
        true
    }

    open spec fn chance(&self, own: Seq<Action>, opp: Seq<Action>) -> Odds {
        Odds::certain(self.choice(opp))
    }

    open spec fn steps_to(&self, own: Seq<Action>, opp: Seq<Action>, next: Self) -> bool {
        next == self.next(opp)
    }

    open spec fn is_initial(&self) -> bool {
        self.revenge_counter == 0 && self.revenge_length == 1
    }

    open spec fn resets_to(&self, next: Self) -> bool {
        next.is_initial()
    }

    fn decide(&mut self, actions_self: &[Action], actions_opponent: &[Action]) -> (r: Action)
        ensures
            r == old(self).choice(actions_opponent@),
            *final(self) == old(self).next(actions_opponent@),
    {
        let t = actions_opponent.len();
        if t > 0 && actions_opponent[t - 1] == Action::Betray {
            self.revenge_length = bump_exec(self.revenge_length);
            self.revenge_counter = self.revenge_length;
        }
        if self.revenge_counter > 0 {
            self.revenge_counter -= 1;
            Action::Betray
        } else {
            Action::Cooperate
        }
    }

    fn reset(&mut self)
        ensures
            final(self).revenge_counter == 0,
            final(self).revenge_length == 1,
    {
        self.revenge_counter = 0;
        self.revenge_length = 1;
    }
}

/// Whether `c` cooperations out of `n` moves lie within a fifth of one half:
/// `|c / n - 1/2| < 1/5`.
pub open spec fn within_fifth_of_half(c: nat, n: nat) -> bool {
    3 * n < 10 * c && 10 * c < 7 * n
}

/// Whether `c` cooperations out of `n` moves lie within a tenth of one half:
/// `|c / n - 1/2| < 1/10`.
pub open spec fn within_tenth_of_half(c: nat, n: nat) -> bool {
    4 * n < 10 * c && 10 * c < 6 * n
}

/// Cooperates for five rounds, then plays tit for tat, betraying on every
/// fifteenth round an opponent that looks random.
pub struct SteinRapoport {}

impl SteinRapoport {
    pub fn new() -> (r: SteinRapoport) {
        SteinRapoport {}
    }

    pub open spec fn choice(opp: Seq<Action>) -> Action {
        let t = opp.len();
        if t <= 4 {
            Action::Cooperate
        } else if t % 15 == 0 && within_fifth_of_half(count_of(opp, Action::Cooperate), t) {
            Action::Betray
        } else {
            opp.last()
        }
    }
}

impl Strategy for SteinRapoport {
    open spec fn wf(&self) -> bool {
        true
    }

    open spec fn chance(&self, own: Seq<Action>, opp: Seq<Action>) -> Odds {
        Odds::certain(SteinRapoport::choice(opp))
    }

    open spec fn steps_to(&self, own: Seq<Action>, opp: Seq<Action>, next: Self) -> bool {
        next == *self
    }

    open spec fn is_initial(&self) -> bool {
        true
    }

    open spec fn resets_to(&self, next: Self) -> bool {
        next.is_initial()
    }

    fn decide(&mut self, actions_self: &[Action], actions_opponent: &[Action]) -> (r: Action)
        ensures
            r == SteinRapoport::choice(actions_opponent@),
    {
        let t = actions_opponent.len();
        if t <= 4 {
            return Action::Cooperate;
        }
        if t % 15 == 0 {
            let c = count_range(actions_opponent, 0, t, Action::Cooperate);
            assert(actions_opponent@.subrange(0, t as int) =~= actions_opponent@);
            if 3 * (t as u128) < 10 * (c as u128) && 10 * (c as u128) < 7 * (t as u128) {
                return Action::Betray;
            }
        }
        actions_opponent[t - 1]
    }

    fn reset(&mut self) {
    }
}

/// Cooperates for eleven rounds, then betrays for good if the opponent has
/// ever betrayed.
pub struct Davis {
    pub opponent_betrayed: bool,
}

impl Davis {
    pub fn new() -> (r: Davis)
        ensures
            !r.opponent_betrayed,
    {
        Davis { opponent_betrayed: false }
    }

    pub open spec fn flag_after(self, opp: Seq<Action>) -> bool {
        if opp.len() <= 10 {
            self.opponent_betrayed
        } else {
            self.opponent_betrayed || opp.contains(Action::Betray)
        }
    }

    pub open spec fn choice(self, opp: Seq<Action>) -> Action {
        if opp.len() > 10 && self.flag_after(opp) {
            Action::Betray
        } else {
            Action::Cooperate
        }
    }
}

impl Strategy for Davis {
    open spec fn wf(&self) -> bool {
        true
    }

    open spec fn chance(&self, own: Seq<Action>, opp: Seq<Action>) -> Odds {
        Odds::certain(self.choice(opp))
    }

    open spec fn steps_to(&self, own: Seq<Action>, opp: Seq<Action>, next: Self) -> bool {
        next.opponent_betrayed == self.flag_after(opp)
    }

    open spec fn is_initial(&self) -> bool {
        !self.opponent_betrayed
    }

    open spec fn resets_to(&self, next: Self) -> bool {
        next.is_initial()
    }

    fn decide(&mut self, actions_self: &[Action], actions_opponent: &[Action]) -> (r: Action)
        ensures
            r == old(self).choice(actions_opponent@),
            final(self).opponent_betrayed == old(self).flag_after(actions_opponent@),
    {
        if actions_opponent.len() <= 10 {
            return Action::Cooperate;
        }
        if !self.opponent_betrayed {
            self.opponent_betrayed = any_betrayal(actions_opponent);
        }
        if self.opponent_betrayed {
            Action::Betray
        } else {
            Action::Cooperate
        }
    }

    fn reset(&mut self)
        ensures
            !final(self).opponent_betrayed,
    {
        self.opponent_betrayed = false;
    }
}

/// Tit for tat with one probing betrayal, then betrays for good an opponent
/// that looks random over its last ten moves.
pub struct Graaskamp {
    pub random_detected: bool,
    pub last_actions: Vec<Action>,
}

impl Graaskamp {
    pub fn new() -> (r: Graaskamp)
        ensures
            !r.random_detected,
            r.last_actions@ == Seq::<Action>::empty(),
    {
        Graaskamp { random_detected: false, last_actions: Vec::new() }
    }

    /// Whether the detector is still watching in this round.
    pub open spec fn watching(self, opp: Seq<Action>) -> bool {
        opp.len() >= 57 && !self.random_detected
    }

    pub open spec fn flag_after(self, opp: Seq<Action>) -> bool {
        if self.watching(opp) {
            let w = self.last_actions@;
            w.len() >= 10 && within_tenth_of_half(count_of(w, Action::Cooperate), w.len())
        } else {
            self.random_detected
        }
    }

    pub open spec fn window_after(self, opp: Seq<Action>) -> Seq<Action> {
        if self.watching(opp) {
            slide(self.last_actions@, opp.last(), 10)
        } else {
            self.last_actions@
        }
    }

    pub open spec fn choice(self, opp: Seq<Action>) -> Action {
        let t = opp.len();
        if t <= 50 {
            last_or_cooperate(opp)
        } else if t == 51 {
            Action::Betray
        } else if t <= 56 {
            opp.last()
        } else if self.flag_after(opp) {
            Action::Betray
        } else {
            opp.last()
        }
    }
}

impl Strategy for Graaskamp {
    open spec fn wf(&self) -> bool {
        self.last_actions@.len() <= 10
    }

    open spec fn chance(&self, own: Seq<Action>, opp: Seq<Action>) -> Odds {
        Odds::certain(self.choice(opp))
    }

    open spec fn steps_to(&self, own: Seq<Action>, opp: Seq<Action>, next: Self) -> bool {
        next.random_detected == self.flag_after(opp) && next.last_actions@ == self.window_after(opp)
    }

    open spec fn is_initial(&self) -> bool {
        !self.random_detected && self.last_actions@.len() == 0
    }

    open spec fn resets_to(&self, next: Self) -> bool {
        next.is_initial()
    }

    fn decide(&mut self, actions_self: &[Action], actions_opponent: &[Action]) -> (r: Action)
        ensures
            r == old(self).choice(actions_opponent@),
            final(self).random_detected == old(self).flag_after(actions_opponent@),
            final(self).last_actions@ == old(self).window_after(actions_opponent@),
    {
        let t = actions_opponent.len();
        if t <= 50 {
            return last_or_cooperate_exec(actions_opponent);
        }
        if t == 51 {
            return Action::Betray;
        }
        let last = actions_opponent[t - 1];
        if t <= 56 {
            return last;
        }
        if !self.random_detected {
            let n = self.last_actions.len();
            if n >= 10 {
                let c = count_range(self.last_actions.as_slice(), 0, n, Action::Cooperate);
                assert(self.last_actions@.subrange(0, n as int) =~= self.last_actions@);
                self.random_detected = 4 * (n as u128) < 10 * (c as u128) && 10 * (c as u128) < 6 * (
                n as u128);
            }
            slide_window(&mut self.last_actions, last, 10);
        }
        if self.random_detected {
            Action::Betray
        } else {
            last
        }
    }

    fn reset(&mut self)
        ensures
            !final(self).random_detected,
            final(self).last_actions@ == Seq::<Action>::empty(),
    {
        self.random_detected = false;
        self.last_actions.clear();
    }
}

/// Whether betraying pays more than cooperating against an opponent that
/// cooperated `c` times out of `n`: `5p + (1 - p) > 3p` with `p = c / n`.
pub open spec fn betrayal_pays(c: nat, n: nat) -> bool {
    n > 0 && 5 * c + (n - c) > 3 * c
}

/// Estimates the opponent's chance of cooperating and plays the move with
/// the larger expected payoff.
pub struct Downing {
    pub opp_coop_count: u64,
    pub opp_total: u64,
}

impl Downing {
    pub fn new() -> (r: Downing)
        ensures
            r.opp_coop_count == 0,
            r.opp_total == 0,
    {
        Downing { opp_coop_count: 0, opp_total: 0 }
    }

    /// The counts after the opponent's last move is taken in; they stop at
    /// the largest `u64`.
    pub open spec fn next(self, opp: Seq<Action>) -> Downing {
        if opp.len() == 0 || self.opp_total == u64::MAX {
            self
        } else {
            Downing {
                opp_coop_count: if opp.last() == Action::Cooperate {
                    (self.opp_coop_count + 1) as u64
                } else {
                    self.opp_coop_count
                },
                opp_total: (self.opp_total + 1) as u64,
            }
        }
    }

    pub open spec fn choice(self, opp: Seq<Action>) -> Action {
        let s = self.next(opp);
        if opp.len() > 0 && betrayal_pays(s.opp_coop_count as nat, s.opp_total as nat) {
            Action::Betray
        } else {
            Action::Cooperate
        }
    }
}

impl Strategy for Downing {
    open spec fn wf(&self) -> bool {
        self.opp_coop_count <= self.opp_total
    }

    open spec fn chance(&self, own: Seq<Action>, opp: Seq<Action>) -> Odds {
        Odds::certain(self.choice(opp))
    }

    open spec fn steps_to(&self, own: Seq<Action>, opp: Seq<Action>, next: Self) -> bool {
        next == self.next(opp)
    }

    open spec fn is_initial(&self) -> bool {
        self.opp_coop_count == 0 && self.opp_total == 0
    }

    open spec fn resets_to(&self, next: Self) -> bool {
        next.is_initial()
    }

    fn decide(&mut self, actions_self: &[Action], actions_opponent: &[Action]) -> (r: Action)
        ensures
            r == old(self).choice(actions_opponent@),
            *final(self) == old(self).next(actions_opponent@),
    {
        let t = actions_opponent.len();
        if t == 0 {
            return Action::Cooperate;
        }
        if self.opp_total < u64::MAX {
            self.opp_total += 1;
            if actions_opponent[t - 1] == Action::Cooperate {
                self.opp_coop_count += 1;
            }
        }
        let c = self.opp_coop_count as u128;
        let n = self.opp_total as u128;
        if n > 0 && 5 * c + (n - c) > 3 * c {
            Action::Betray
        } else {
            Action::Cooperate
        }
    }

    fn reset(&mut self)
        ensures
            final(self).opp_coop_count == 0,
            final(self).opp_total == 0,
    {
        self.opp_coop_count = 0;
        self.opp_total = 0;
    }
}

/// Cooperates when both sides played the same last move, else with chance 2/7.
pub struct Grofman {}

impl Grofman {
    pub fn new() -> (r: Grofman) {
        Grofman {}
    }

    pub open spec fn chance(own: Seq<Action>, opp: Seq<Action>) -> Odds {
        if opp.len() == 0 || own.len() == 0 || own.last() == opp.last() {
            Odds::certain(Action::Cooperate)
        } else {
            Odds { num: 2, den: 7 }
        }
    }

    pub fn odds(&self, own: &[Action], opp: &[Action]) -> (r: Odds)
        ensures
            r == Grofman::chance(own@, opp@),
            r.wf(),
    {
        if opp.len() == 0 || own.len() == 0 || own[own.len() - 1] == opp[opp.len() - 1] {
            Odds::always(Action::Cooperate)
        } else {
            Odds { num: 2, den: 7 }
        }
    }
}

impl Strategy for Grofman {
    open spec fn wf(&self) -> bool {
        true
    }

    open spec fn chance(&self, own: Seq<Action>, opp: Seq<Action>) -> Odds {
        Grofman::chance(own, opp)
    }

    open spec fn steps_to(&self, own: Seq<Action>, opp: Seq<Action>, next: Self) -> bool {
        next == *self
    }

    open spec fn is_initial(&self) -> bool {
        true
    }

    open spec fn resets_to(&self, next: Self) -> bool {
        next.is_initial()
    }

    fn decide(&mut self, actions_self: &[Action], actions_opponent: &[Action]) -> (r: Action)
        ensures
            Grofman::chance(actions_self@, actions_opponent@).allows(r),
    {
        self.odds(actions_self, actions_opponent).draw()
    }

    fn reset(&mut self) {
    }
}

/// The largest run of cooperations that Feld counts.
pub const FELD_RUN_CAP: u32 = 1_000_000_000;

/// Answers a betrayal with a betrayal; after the `k`-th cooperation in a row
/// cooperates with chance `k / (10 + 2k)`.
pub struct Feld {
    pub consecutive_coop: u32,
}

impl Feld {
    pub fn new() -> (r: Feld)
        ensures
            r.consecutive_coop == 0,
    {
        Feld { consecutive_coop: 0 }
    }

    pub open spec fn run_after(self, opp: Seq<Action>) -> u32 {
        if opp.len() == 0 {
            self.consecutive_coop
        } else if opp.last() == Action::Betray {
            0
        } else if self.consecutive_coop < FELD_RUN_CAP {
            (self.consecutive_coop + 1) as u32
        } else {
            self.consecutive_coop
        }
    }

    pub open spec fn chance(self, opp: Seq<Action>) -> Odds {
        if opp.len() == 0 {
            Odds::certain(Action::Cooperate)
        } else if opp.last() == Action::Betray {
            Odds::certain(Action::Betray)
        } else {
            let k = self.run_after(opp);
            Odds { num: k, den: (10 + 2 * k) as u32 }
        }
    }

    pub fn odds(&mut self, opp: &[Action]) -> (r: Odds)
        requires
            old(self).consecutive_coop <= FELD_RUN_CAP,
        ensures
            r == old(self).chance(opp@),
            r.wf(),
            final(self).consecutive_coop == old(self).run_after(opp@),
            final(self).consecutive_coop <= FELD_RUN_CAP,
    {
        let t = opp.len();
        if t == 0 {
            return Odds::always(Action::Cooperate);
        }
        if opp[t - 1] == Action::Betray {
            self.consecutive_coop = 0;
            return Odds::always(Action::Betray);
        }
        if self.consecutive_coop < FELD_RUN_CAP {
            self.consecutive_coop += 1;
        }
        let k = self.consecutive_coop;
        Odds { num: k, den: 10 + 2 * k }
    }
}

impl Strategy for Feld {
    open spec fn wf(&self) -> bool {
        self.consecutive_coop <= FELD_RUN_CAP
    }

    open spec fn chance(&self, own: Seq<Action>, opp: Seq<Action>) -> Odds {
        Feld::chance(*self, opp)
    }

    open spec fn steps_to(&self, own: Seq<Action>, opp: Seq<Action>, next: Self) -> bool {
        next.consecutive_coop == self.run_after(opp)
    }

    open spec fn is_initial(&self) -> bool {
        self.consecutive_coop == 0
    }

    open spec fn resets_to(&self, next: Self) -> bool {
        next.is_initial()
    }

    fn decide(&mut self, actions_self: &[Action], actions_opponent: &[Action]) -> (r: Action)
        ensures
            old(self).chance(actions_opponent@).allows(r),
            final(self).consecutive_coop == old(self).run_after(actions_opponent@),
    {
        self.odds(actions_opponent).draw()
    }

    fn reset(&mut self)
        ensures
            final(self).consecutive_coop == 0,
    {
        self.consecutive_coop = 0;
    }
}

/// Tit for tat that answers a cooperation with a cooperation only with chance 9/10.
pub struct Joss {}

impl Joss {
    pub fn new() -> (r: Joss) {
        Joss {}
    }

    pub open spec fn chance(opp: Seq<Action>) -> Odds {
        if opp.len() == 0 {
            Odds::certain(Action::Cooperate)
        } else if opp.last() == Action::Betray {
            Odds::certain(Action::Betray)
        } else {
            Odds { num: 9, den: 10 }
        }
    }

    pub fn odds(&self, opp: &[Action]) -> (r: Odds)
        ensures
            r == Joss::chance(opp@),
            r.wf(),
    {
        let t = opp.len();
        if t == 0 {
            Odds::always(Action::Cooperate)
        } else if opp[t - 1] == Action::Betray {
            Odds::always(Action::Betray)
        } else {
            Odds { num: 9, den: 10 }
        }
    }
}

impl Strategy for Joss {
    open spec fn wf(&self) -> bool {
        true
    }

    open spec fn chance(&self, own: Seq<Action>, opp: Seq<Action>) -> Odds {
        Joss::chance(opp)
    }

    open spec fn steps_to(&self, own: Seq<Action>, opp: Seq<Action>, next: Self) -> bool {
        next == *self
    }

    open spec fn is_initial(&self) -> bool {
        true
    }

    open spec fn resets_to(&self, next: Self) -> bool {
        next.is_initial()
    }

    fn decide(&mut self, actions_self: &[Action], actions_opponent: &[Action]) -> (r: Action)
        ensures
            Joss::chance(actions_opponent@).allows(r),
    {
        self.odds(actions_opponent).draw()
    }

    fn reset(&mut self) {
    }
}

/// Cooperates for twelve rounds, then cooperates with nine tenths of the
/// opponent's rate of cooperation over its first ten moves, in percent.
pub struct Tullock {
    pub initial_phase: bool,
    pub coop_percent: u32,
}

impl Tullock {
    pub fn new() -> (r: Tullock)
        ensures
            r.initial_phase,
            r.coop_percent == 100,
    {
        Tullock { initial_phase: true, coop_percent: 100 }
    }

    pub open spec fn next(self, opp: Seq<Action>) -> Tullock {
        if opp.len() > 11 && self.initial_phase {
            Tullock {
                initial_phase: false,
                coop_percent: (9 * count_of(opp.subrange(0, 10), Action::Cooperate)) as u32,
            }
        } else {
            self
        }
    }

    pub open spec fn chance(self, opp: Seq<Action>) -> Odds {
        if opp.len() <= 11 {
            Odds::certain(Action::Cooperate)
        } else {
            Odds { num: self.next(opp).coop_percent, den: 100 }
        }
    }

    pub fn odds(&mut self, opp: &[Action]) -> (r: Odds)
        requires
            old(self).coop_percent <= 100,
        ensures
            r == old(self).chance(opp@),
            r.wf(),
            *final(self) == old(self).next(opp@),
            final(self).coop_percent <= 100,
    {
        if opp.len() <= 11 {
            return Odds::always(Action::Cooperate);
        }
        if self.initial_phase {
            let c = count_range(opp, 0, 10, Action::Cooperate);
            self.coop_percent = 9 * (c as u32);
            self.initial_phase = false;
        }
        Odds { num: self.coop_percent, den: 100 }
    }
}

impl Strategy for Tullock {
    open spec fn wf(&self) -> bool {
        self.coop_percent <= 100
    }

    open spec fn chance(&self, own: Seq<Action>, opp: Seq<Action>) -> Odds {
        Tullock::chance(*self, opp)
    }

    open spec fn steps_to(&self, own: Seq<Action>, opp: Seq<Action>, next: Self) -> bool {
        next == self.next(opp)
    }

    open spec fn is_initial(&self) -> bool {
        self.initial_phase && self.coop_percent == 100
    }

    open spec fn resets_to(&self, next: Self) -> bool {
        next.is_initial()
    }

    fn decide(&mut self, actions_self: &[Action], actions_opponent: &[Action]) -> (r: Action)
        ensures
            old(self).chance(actions_opponent@).allows(r),
            *final(self) == old(self).next(actions_opponent@),
    {
        self.odds(actions_opponent).draw()
    }

    fn reset(&mut self)
        ensures
            final(self).initial_phase,
            final(self).coop_percent == 100,
    {
        self.initial_phase = true;
        self.coop_percent = 100;
    }
}

/// Probabilities of `Anonymous` are counted in billionths.
pub const BILLION: u32 = 1_000_000_000;

/// The lowest and highest chance of cooperating of `Anonymous`, in billionths.
pub const ANONYMOUS_LOW: u32 = 300_000_000;
pub const ANONYMOUS_HIGH: u32 = 700_000_000;

/// The new chance after ten rounds in which the opponent cooperated `c` times:
/// `clamp(0.7 p + 0.3 c / 10, 0.3, 0.7)`, in billionths, rounded down.
pub open spec fn blend(p: nat, c: nat) -> nat {
    let x = (7 * p) / 10 + 30_000_000 * c;
    if x < ANONYMOUS_LOW {
        ANONYMOUS_LOW as nat
    } else if x > ANONYMOUS_HIGH {
        ANONYMOUS_HIGH as nat
    } else {
        x
    }
}

/// Cooperates with a chance that starts at 0.3 and every ten rounds moves
/// toward the opponent's recent rate of cooperation, within [0.3, 0.7].
pub struct Anonymous {
    pub coop_prob: u32,
}

impl Anonymous {
    pub fn new() -> (r: Anonymous)
        ensures
            r.coop_prob == ANONYMOUS_LOW,
    {
        Anonymous { coop_prob: ANONYMOUS_LOW }
    }

    pub open spec fn next(self, opp: Seq<Action>) -> Anonymous {
        let t = opp.len();
        if t > 0 && t % 10 == 0 {
            Anonymous {
                coop_prob: blend(
                    self.coop_prob as nat,
                    count_of(opp.subrange(t - 10, t as int), Action::Cooperate),
                ) as u32,
            }
        } else {
            self
        }
    }

    pub open spec fn chance(self, opp: Seq<Action>) -> Odds {
        Odds { num: self.next(opp).coop_prob, den: BILLION }
    }

    pub fn odds(&mut self, opp: &[Action]) -> (r: Odds)
        requires
            old(self).coop_prob <= BILLION,
        ensures
            r == old(self).chance(opp@),
            r.wf(),
            *final(self) == old(self).next(opp@),
            final(self).coop_prob <= BILLION,
    {
        let t = opp.len();
        if t > 0 && t % 10 == 0 {
            let c = count_range(opp, t - 10, t, Action::Cooperate) as u64;
            let x: u64 = (7 * (self.coop_prob as u64)) / 10 + 30_000_000 * c;
            self.coop_prob = if x < ANONYMOUS_LOW as u64 {
                ANONYMOUS_LOW
            } else if x > ANONYMOUS_HIGH as u64 {
                ANONYMOUS_HIGH
            } else {
                x as u32
            };
        }
        Odds { num: self.coop_prob, den: BILLION }
    }
}

impl Strategy for Anonymous {
    open spec fn wf(&self) -> bool {
        self.coop_prob <= BILLION
    }

    open spec fn chance(&self, own: Seq<Action>, opp: Seq<Action>) -> Odds {
        Anonymous::chance(*self, opp)
    }

    open spec fn steps_to(&self, own: Seq<Action>, opp: Seq<Action>, next: Self) -> bool {
        next == self.next(opp)
    }

    open spec fn is_initial(&self) -> bool {
        self.coop_prob == ANONYMOUS_LOW
    }

    open spec fn resets_to(&self, next: Self) -> bool {
        next.is_initial()
    }

    fn decide(&mut self, actions_self: &[Action], actions_opponent: &[Action]) -> (r: Action)
        ensures
            old(self).chance(actions_opponent@).allows(r),
            *final(self) == old(self).next(actions_opponent@),
    {
        self.odds(actions_opponent).draw()
    }

    fn reset(&mut self)
        ensures
            final(self).coop_prob == ANONYMOUS_LOW,
    {
        self.coop_prob = ANONYMOUS_LOW;
    }
}

/// Cooperates with chance 1/2, whatever happened before.
pub struct Random {}

impl Random {
    pub fn new() -> (r: Random) {
        Random {}
    }

    pub open spec fn chance() -> Odds {
        Odds { num: 1, den: 2 }
    }
}

impl Strategy for Random {
    open spec fn wf(&self) -> bool {
        true
    }

    open spec fn chance(&self, own: Seq<Action>, opp: Seq<Action>) -> Odds {
        Random::chance()
    }

    open spec fn steps_to(&self, own: Seq<Action>, opp: Seq<Action>, next: Self) -> bool {
        next == *self
    }

    open spec fn is_initial(&self) -> bool {
        true
    }

    open spec fn resets_to(&self, next: Self) -> bool {
        next.is_initial()
    }

    fn decide(&mut self, actions_self: &[Action], actions_opponent: &[Action]) -> (r: Action)
        ensures
            Random::chance().allows(r),
    {
        let odds = Odds { num: 1, den: 2 };
        odds.draw()
    }

    fn reset(&mut self) {
    }
}

} // verus!
