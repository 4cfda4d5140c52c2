use ipd_tournament::action::{count_range, payoff, Action};
use ipd_tournament::catalogue::{
    Anonymous, Davis, Downing, Feld, Graaskamp, Grofman, Grudger, Joss, Nydegger, Random, Shubik,
    SteinRapoport, TidemanChieruzzi, TitForTat, Tullock,
};
use ipd_tournament::engine::{create_strategy, simulate, strategy_name, Player};
use ipd_tournament::strategy::{Odds, Strategy};
use ipd_tournament::tournament::{play_pair, ranking, run_tournament};

use Action::{Betray as B, Cooperate as C};

/// Plays a fixed list of moves, then cooperates.
struct Script {
    moves: Vec<Action>,
}

impl Strategy for Script {
    fn decide(&mut self, _own: &[Action], opp: &[Action]) -> Action {
        self.moves.get(opp.len()).copied().unwrap_or(C)
    }
    fn wf(&self) -> bool {
        true
    }
    fn reset(&mut self) {}
}

struct Always(Action);

impl Strategy for Always {
    fn decide(&mut self, _own: &[Action], _opp: &[Action]) -> Action {
        self.0
    }
    fn wf(&self) -> bool {
        true
    }
    fn reset(&mut self) {}
}

/// Feeds `opp` to `s` one round at a time and returns its moves.
fn replay<S: Strategy>(s: &mut S, opp: &[Action]) -> Vec<Action> {
    let mut own = Vec::new();
    for t in 0..opp.len() {
        let a = s.decide(&own, &opp[..t]);
        own.push(a);
    }
    own
}

#[test]
fn payoff_table() {
    assert_eq!(payoff(C, C), (3, 3));
    assert_eq!(payoff(C, B), (0, 5));
    assert_eq!(payoff(B, C), (5, 0));
    assert_eq!(payoff(B, B), (1, 1));
}

#[test]
fn payoff_symmetry() {
    for a in [C, B] {
        for b in [C, B] {
            assert_eq!(payoff(a, b).0, payoff(b, a).1);
        }
    }
}

#[test]
fn tit_for_tat_self_play() {
    let mut a = TitForTat::new();
    let mut b = TitForTat::new();
    assert_eq!(simulate(&mut a, &mut b, 10), (30, 30));
}

#[test]
fn grudger_against_schedule() {
    let mut g = Grudger::new();
    let mut opp = Script { moves: vec![C, C, C, B, C, C, C, C, C, C] };
    // Rounds: three (C, C), one (C, B), then six (B, C).
    assert_eq!(simulate(&mut g, &mut opp, 10), (3 + 3 + 3 + 0 + 5 * 6, 3 + 3 + 3 + 5));
    let mut g2 = Grudger::new();
    let moves = replay(&mut g2, &[C, C, C, B, C, C, C, C, C, C]);
    assert_eq!(moves, vec![C, C, C, C, B, B, B, B, B, B]);
}

#[test]
fn tit_for_tat_against_all_betray() {
    let mut t = TitForTat::new();
    let mut opp = Always(B);
    assert_eq!(simulate(&mut t, &mut opp, 5), (4, 9));
}

#[test]
fn tit_for_tat_mirrors_last_move() {
    let mut t = TitForTat::new();
    assert_eq!(t.decide(&[C, C], &[C, B]), B);
    assert_eq!(t.decide(&[C, B], &[B, C]), C);
    assert_eq!(t.decide(&[], &[]), C);
}

#[test]
fn grudger_latches() {
    let mut g = Grudger::new();
    assert_eq!(g.decide(&[C, C, C], &[C, B, C]), B);
    g.reset();
    assert_eq!(g.decide(&[C, C], &[C, C]), C);
    assert_eq!(g.decide(&[C, C, C, C], &[C, B, C, C]), B);
    assert_eq!(g.decide(&[C, C, C, C, B], &[C, B, C, C, C]), B);
}

#[test]
fn shubik_revenge_grows() {
    let opp = [B, C, C, C, C, B, C, C, C, C];
    let mut s = Shubik::new();
    let mut own = Vec::new();
    let mut lengths = Vec::new();
    let mut counters = Vec::new();
    for t in 0..opp.len() {
        own.push(s.decide(&own.clone(), &opp[..t]));
        lengths.push(s.revenge_length);
        counters.push(s.revenge_counter);
    }
    assert_eq!(own, vec![C, B, B, C, C, C, B, B, B, C]);
    assert_eq!(lengths, vec![1, 2, 2, 2, 2, 2, 3, 3, 3, 3]);
    assert_eq!(counters, vec![0, 1, 0, 0, 0, 0, 2, 1, 0, 0]);
}

#[test]
fn nydegger_window_after_four_moves() {
    let mut n = Nydegger::new();
    let moves = replay(&mut n, &[B, C, B, B, C]);
    assert_eq!(n.prev_actions, vec![C, B, B]);
    assert_eq!(n.calculate_a(), 3);
    assert_eq!(moves[4], B);
    assert_eq!(&moves[..4], &[C, B, C, B]);
}

#[test]
fn nydegger_weights() {
    let mut n = Nydegger::new();
    n.prev_actions = vec![B, B, C];
    assert_eq!(n.calculate_a(), 6);
    n.prev_actions = vec![B];
    assert_eq!(n.calculate_a(), 4);
    n.prev_actions = vec![];
    assert_eq!(n.calculate_a(), 0);
}

#[test]
fn downing_against_all_cooperate() {
    let mut d = Downing::new();
    let mut opp = Always(C);
    assert_eq!(simulate(&mut d, &mut opp, 100), (498, 3));
    assert_eq!(d.opp_total, 99);
    assert_eq!(d.opp_coop_count, 99);
}

#[test]
fn tideman_chieruzzi_punishes_runs() {
    let mut t = TidemanChieruzzi::new();
    let moves = replay(&mut t, &[B, B, B, C, C, C, C]);
    assert_eq!(moves, vec![C, B, B, B, B, B, C]);
}

#[test]
fn stein_rapoport_checks_every_fifteenth_round() {
    let mut s = SteinRapoport::new();
    let mut opp = vec![C; 8];
    opp.extend(vec![B; 6]);
    opp.push(C);
    assert_eq!(s.decide(&vec![C; 15], &opp), B);
    let all_coop = vec![C; 15];
    assert_eq!(s.decide(&vec![C; 15], &all_coop), C);
    assert_eq!(s.decide(&[C; 4], &[B; 4]), C);
}

#[test]
fn davis_waits_eleven_rounds() {
    let mut d = Davis::new();
    let mut opp = vec![B];
    opp.extend(vec![C; 9]);
    assert_eq!(d.decide(&vec![C; 10], &opp), C);
    opp.push(C);
    assert_eq!(d.decide(&vec![C; 11], &opp), B);
    assert!(d.opponent_betrayed);
}

#[test]
fn graaskamp_probes_and_detects() {
    let mut g = Graaskamp::new();
    let mut opp = vec![C; 51];
    assert_eq!(g.decide(&vec![C; 51], &opp), B);
    let alternating: Vec<Action> = (0..20).map(|i| if i % 2 == 0 { C } else { B }).collect();
    opp.extend(alternating);
    let mut moves = Vec::new();
    for t in 57..opp.len() {
        moves.push(g.decide(&vec![C; t], &opp[..t]));
    }
    assert!(g.random_detected);
    assert_eq!(*moves.last().unwrap(), B);
}

#[test]
fn feld_odds_formula() {
    let mut f = Feld::new();
    assert_eq!(f.odds(&[C]), Odds { num: 1, den: 12 });
    assert_eq!(f.odds(&[C, C]), Odds { num: 2, den: 14 });
    assert_eq!(f.odds(&[C, B]), Odds { num: 0, den: 1 });
    assert_eq!(f.consecutive_coop, 0);
    assert_eq!(f.decide(&[C, C, C], &[C, C, B]), B);
}

#[test]
fn joss_odds() {
    let j = Joss::new();
    assert_eq!(j.odds(&[]), Odds { num: 1, den: 1 });
    assert_eq!(j.odds(&[C]), Odds { num: 9, den: 10 });
    assert_eq!(j.odds(&[B]), Odds { num: 0, den: 1 });
}

#[test]
fn grofman_odds() {
    let g = Grofman::new();
    assert_eq!(g.odds(&[C], &[C]), Odds { num: 1, den: 1 });
    assert_eq!(g.odds(&[C], &[B]), Odds { num: 2, den: 7 });
}

#[test]
fn tullock_latches_at_twelve() {
    let mut t = Tullock::new();
    let mut opp = vec![C, C, C, C, C, B, B, B, B, B, C, C];
    assert_eq!(t.odds(&opp[..11]), Odds { num: 1, den: 1 });
    assert_eq!(t.odds(&opp), Odds { num: 45, den: 100 });
    opp.push(B);
    assert_eq!(t.odds(&opp), Odds { num: 45, den: 100 });
    assert!(!t.initial_phase);
}

#[test]
fn anonymous_blends_then_clamps() {
    let mut a = Anonymous::new();
    assert_eq!(a.odds(&[C; 5]), Odds { num: 300_000_000, den: 1_000_000_000 });
    assert_eq!(a.odds(&[C; 10]), Odds { num: 510_000_000, den: 1_000_000_000 });
    assert_eq!(a.odds(&[C; 20]), Odds { num: 657_000_000, den: 1_000_000_000 });
    assert_eq!(a.odds(&[C; 30]), Odds { num: 700_000_000, den: 1_000_000_000 });
    assert_eq!(a.odds(&[B; 40]), Odds { num: 490_000_000, den: 1_000_000_000 });
}

#[test]
fn certain_odds_draw_their_move() {
    assert_eq!(Odds { num: 0, den: 1 }.draw(), B);
    assert_eq!(Odds { num: 7, den: 7 }.draw(), C);
    assert_eq!(Odds { num: 3, den: 7 }.settle(true), C);
    assert_eq!(Odds { num: 3, den: 7 }.settle(false), B);
}

#[test]
fn reset_makes_players_agree() {
    let opp = [C, B, B, C, B, C, C, C, B, C, C, C, C, C];
    let mut a = create_strategy(2);
    let mut b = create_strategy(2);
    replay(&mut a, &[B, B, B]);
    a.reset();
    b.reset();
    assert_eq!(replay(&mut a, &opp), replay(&mut b, &opp));
}

#[test]
fn random_players_stay_within_bounds() {
    let mut a = Random::new();
    let mut b = Joss::new();
    let (x, y) = simulate(&mut a, &mut b, 50);
    assert!(x <= 250 && y <= 250);
    assert!(x + y >= 100 && x + y <= 300);
}

#[test]
fn every_id_builds_a_player() {
    for id in 1..=15 {
        let mut p = create_strategy(id);
        let (x, y) = simulate(&mut p, &mut Always(C), 20);
        assert!(x <= 100 && y <= 100);
        assert!(!strategy_name(id).is_empty());
    }
    assert!(matches!(create_strategy(9), Player::Graaskamp(_)));
    assert_eq!(strategy_name(1), "TitForTat");
    assert_eq!(strategy_name(15), "Random");
}

#[test]
fn pair_totals_add_up() {
    assert_eq!(play_pair(1, 1, 10, 3), (90, 90));
    assert_eq!(play_pair(7, 8, 20, 2), (120, 120));
}

#[test]
fn count_range_counts() {
    assert_eq!(count_range(&[C, B, C, C], 1, 4, C), 2);
    assert_eq!(count_range(&[C, B, C, C], 0, 0, C), 0);
}

#[test]
fn ranking_orders_by_total() {
    assert_eq!(ranking(&vec![5, 9, 5, 1, 9]), vec![1, 4, 0, 2, 3]);
    assert_eq!(ranking(&vec![]), Vec::<usize>::new());
}

#[test]
fn tournament_covers_every_pair() {
    let (records, totals) = run_tournament(3, 1);
    assert_eq!(records.len(), 225);
    assert_eq!(totals.len(), 15);
    for (c, r) in records.iter().enumerate() {
        assert_eq!((r.player_a, r.player_b), (c / 15 + 1, c % 15 + 1));
        assert!(r.total_a <= 15 && r.total_b <= 15);
    }
    for id in 1..=15usize {
        let sum: u64 = records
            .iter()
            .map(|r| {
                (if r.player_a == id { r.total_a } else { 0 })
                    + (if r.player_b == id { r.total_b } else { 0 })
            })
            .sum();
        assert_eq!(totals[id - 1], sum);
    }
    let order = ranking(&totals);
    assert_eq!(order.len(), 15);
    for w in order.windows(2) {
        assert!(totals[w[0]] >= totals[w[1]]);
    }
}

#[test]
fn swapped_players_swap_scores() {
    let mut t = TitForTat::new();
    let mut opp = Always(B);
    assert_eq!(simulate(&mut opp, &mut t, 5), (9, 4));
    let mut d = create_strategy(10);
    let mut g = create_strategy(7);
    let forward = simulate(&mut d, &mut g, 30);
    let backward = simulate(&mut g, &mut d, 30);
    assert_eq!(forward, (backward.1, backward.0));
}
