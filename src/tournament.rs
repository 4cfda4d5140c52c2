use vstd::prelude::*;
use crate::engine::{CATALOGUE_SIZE, Player, create_strategy, plays_out, simulate};
use crate::strategy::Strategy;

verus! {

/// Totals of one ordered pairing over all its matches.
#[derive(Clone, Copy, PartialEq, Eq, Structural, Debug)]
pub struct MatchRecord {
    pub player_a: usize,
    pub player_b: usize,
    pub total_a: u64,
    pub total_b: u64,
}

/// What the strategy `id` earned over `recs`, on either side of each pairing.
pub open spec fn credited(recs: Seq<MatchRecord>, id: usize) -> nat
    decreases recs.len(),
{
    if recs.len() == 0 {
        0
    } else {
        let x = recs.last();
        credited(recs.drop_last(), id)
            + (if x.player_a == id { x.total_a as nat } else { 0nat })
            + (if x.player_b == id { x.total_b as nat } else { 0nat })
    }
}

/// Whether `r` is a possible result of one match of `rounds` rounds between
/// players of the strategies `a_id` and `b_id`.
pub open spec fn fresh_match(a_id: usize, b_id: usize, rounds: nat, r: (u64, u64)) -> bool {
    exists|a0: Player, b0: Player|
        #![trigger plays_out(a0, b0, rounds, r)]
        a0.id() == a_id && b0.id() == b_id && plays_out(a0, b0, rounds, r)
}

/// Sum of the first side's scores.
pub open spec fn sum_a(results: Seq<(u64, u64)>) -> nat
    decreases results.len(),
{
    if results.len() == 0 {
        0
    } else {
        sum_a(results.drop_last()) + results.last().0 as nat
    }
}

/// Sum of the second side's scores.
pub open spec fn sum_b(results: Seq<(u64, u64)>) -> nat
    decreases results.len(),
{
    if results.len() == 0 {
        0
    } else {
        sum_b(results.drop_last()) + results.last().1 as nat
    }
}

/// Whether `r` holds the two sides' totals over `simulations` matches of
/// `rounds` rounds between players of the strategies `a_id` and `b_id`.
pub open spec fn pair_totals(a_id: usize, b_id: usize, rounds: nat, simulations: nat, r: (u64, u64)) -> bool {
    exists|results: Seq<(u64, u64)>|
        #![trigger sum_a(results), sum_b(results)]
        {
            &&& results.len() == simulations
            &&& forall|k: int| 0 <= k < simulations ==> fresh_match(a_id, b_id, rounds, #[trigger] results[k])
            &&& r.0 == sum_a(results)
            &&& r.1 == sum_b(results)
        }
}

/// Plays `simulations` matches of `rounds` rounds between fresh players of
/// strategies `a_id` and `b_id`, and returns the two sides' totals.
pub fn play_pair(a_id: usize, b_id: usize, rounds: usize, simulations: usize) -> (r: (u64, u64))
    requires
        1 <= a_id <= CATALOGUE_SIZE,
        1 <= b_id <= CATALOGUE_SIZE,
        5 * rounds * simulations <= u64::MAX,
    ensures
        pair_totals(a_id, b_id, rounds as nat, simulations as nat, r),
        r.0 <= 5 * rounds * simulations,
        r.1 <= 5 * rounds * simulations,
        2 * rounds * simulations <= r.0 + r.1 <= 6 * rounds * simulations,
{
    let ghost mut results: Seq<(u64, u64)> = Seq::empty();
    let mut a_total: u64 = 0;
    let mut b_total: u64 = 0;
    let mut k: usize = 0;
    while k < simulations
        invariant
            k <= simulations,
            5 * rounds * simulations <= u64::MAX,
            1 <= a_id <= CATALOGUE_SIZE,
            1 <= b_id <= CATALOGUE_SIZE,
            a_total <= 5 * rounds * k,
            b_total <= 5 * rounds * k,
            2 * rounds * k <= a_total + b_total <= 6 * rounds * k,
            results.len() == k,
            forall|j: int| 0 <= j < k ==> fresh_match(a_id, b_id, rounds as nat, #[trigger] results[j]),
            a_total == sum_a(results),
            b_total == sum_b(results),
        decreases simulations - k,
    {
        proof {
            assert(5 * rounds * (k + 1) <= 5 * rounds * simulations) by (nonlinear_arith)
                requires k + 1 <= simulations;
            assert(5 * rounds <= 5 * rounds * simulations) by (nonlinear_arith)
                requires 1 <= simulations;
            assert(5 * rounds * (k + 1) == 5 * rounds * k + 5 * rounds) by (nonlinear_arith);
            assert(2 * rounds * (k + 1) == 2 * rounds * k + 2 * rounds) by (nonlinear_arith);
            assert(6 * rounds * (k + 1) == 6 * rounds * k + 6 * rounds) by (nonlinear_arith);
        }
        let mut p1 = create_strategy(a_id);
        let mut p2 = create_strategy(b_id);
        let ghost p1_0 = p1;
        let ghost p2_0 = p2;
        let (score_a, score_b) = simulate(&mut p1, &mut p2, rounds);
        proof {
            assert(p1_0.id() == a_id && p2_0.id() == b_id && plays_out(p1_0, p2_0, rounds as nat, (score_a, score_b)));
            assert(fresh_match(a_id, b_id, rounds as nat, (score_a, score_b)));
            let before = results;
            results = results.push((score_a, score_b));
            assert(results.drop_last() =~= before);
        }
        a_total = a_total + score_a;
        b_total = b_total + score_b;
        k += 1;
    }
    assert(results.len() == simulations && sum_a(results) == a_total && sum_b(results) == b_total);
    (a_total, b_total)
}

/// Number of cells of the tournament: every ordered pair, self-play included.
pub const PAIRINGS: usize = 225;

/// Plays the whole round robin: `simulations` matches of `rounds` rounds for
/// each ordered pair of strategies. Returns one record per pair, in the order
/// (1, 1), (1, 2), ..., (15, 15), and each strategy's overall total (index
/// `id - 1`), credited from both sides of every pairing.
/// Each record adds at most `2 * 5 * rounds * simulations` to a strategy's
/// total, so the 225 records stay within `u64` under the stated bound.
pub fn run_tournament(rounds: usize, simulations: usize) -> (r: (Vec<MatchRecord>, Vec<u64>))
    requires
        2250 * rounds * simulations <= u64::MAX,
    ensures
        r.0@.len() == PAIRINGS,
        forall|c: int|
            0 <= c < PAIRINGS ==> {
                &&& #[trigger] r.0@[c].player_a == c / 15 + 1
                &&& r.0@[c].player_b == c % 15 + 1
                &&& r.0@[c].total_a <= 5 * rounds * simulations
                &&& r.0@[c].total_b <= 5 * rounds * simulations
                &&& 2 * rounds * simulations <= r.0@[c].total_a + r.0@[c].total_b
                    <= 6 * rounds * simulations
                &&& pair_totals(
                    (c / 15 + 1) as usize,
                    (c % 15 + 1) as usize,
                    rounds as nat,
                    simulations as nat,
                    (r.0@[c].total_a, r.0@[c].total_b),
                )
            },
        r.1@.len() == CATALOGUE_SIZE,
        forall|k: int| 0 <= k < CATALOGUE_SIZE ==> #[trigger] r.1@[k] == credited(r.0@, (k + 1) as usize),
{
    let ghost m: int = 5 * rounds * simulations;
    let mut records: Vec<MatchRecord> = Vec::new();
    let mut totals: Vec<u64> = Vec::new();
    let mut k: usize = 0;
    while k < CATALOGUE_SIZE
        invariant
            k <= CATALOGUE_SIZE,
            totals@.len() == k,
            forall|j: int| 0 <= j < k ==> totals@[j] == 0,
        decreases CATALOGUE_SIZE - k,
    {
        totals.push(0);
        k += 1;
    }
    let mut c: usize = 0;
    while c < PAIRINGS
        invariant
            c <= PAIRINGS,
            2250 * rounds * simulations <= u64::MAX,
            m == 5 * rounds * simulations,
            records@.len() == c,
            totals@.len() == CATALOGUE_SIZE,
            forall|d: int|
                0 <= d < c ==> {
                    &&& #[trigger] records@[d].player_a == d / 15 + 1
                    &&& records@[d].player_b == d % 15 + 1
                    &&& records@[d].total_a <= m
                    &&& records@[d].total_b <= m
                    &&& 2 * rounds * simulations <= records@[d].total_a + records@[d].total_b
                        <= 6 * rounds * simulations
                    &&& pair_totals(
                        (d / 15 + 1) as usize,
                        (d % 15 + 1) as usize,
                        rounds as nat,
                        simulations as nat,
                        (records@[d].total_a, records@[d].total_b),
                    )
                },
            forall|j: int|
                0 <= j < CATALOGUE_SIZE ==> #[trigger] totals@[j] == credited(records@, (j + 1) as usize),
            forall|j: int| 0 <= j < CATALOGUE_SIZE ==> #[trigger] totals@[j] <= 2 * m * c,
        decreases PAIRINGS - c,
    {
        let a = c / 15 + 1;
        let b = c % 15 + 1;
        proof {
            assert(5 * rounds * simulations <= 2250 * rounds * simulations) by (nonlinear_arith);
            assert(2 * m * (c + 1) <= 2 * m * 225) by (nonlinear_arith)
                requires c + 1 <= 225, m >= 0;
            assert(2 * m * 225 == 2250 * rounds * simulations) by (nonlinear_arith)
                requires m == 5 * rounds * simulations;
            assert(2 * m * (c + 1) == 2 * m * c + 2 * m) by (nonlinear_arith);
        }
        let (ta, tb) = play_pair(a, b, rounds, simulations);
        let rec = MatchRecord { player_a: a, player_b: b, total_a: ta, total_b: tb };
        let ghost before = records@;
        records.push(rec);
        assert(records@.drop_last() =~= before);
        let ia = a - 1;
        let va = totals[ia] + ta;
        totals.set(ia, va);
        let ib = b - 1;
        let vb = totals[ib] + tb;
        totals.set(ib, vb);
        c += 1;
    }
    (records, totals)
}

/// Number of `true` in `s`.
pub open spec fn count_true(s: Seq<bool>) -> nat
    decreases s.len(),
{
    if s.len() == 0 {
        0
    } else {
        count_true(s.drop_last()) + if s.last() { 1nat } else { 0nat }
    }
}

proof fn lemma_count_true_bound(s: Seq<bool>)
    ensures
        count_true(s) <= s.len(),
        count_true(s) < s.len() ==> exists|j: int| 0 <= j < s.len() && !s[j],
    decreases s.len(),
{
    if s.len() > 0 {
        lemma_count_true_bound(s.drop_last());
        if count_true(s) < s.len() && s.last() {
            let j = choose|j: int| 0 <= j < s.len() - 1 && !s.drop_last()[j];
            assert(!s[j]);
        }
        if !s.last() {
            assert(!s[s.len() - 1]);
        }
    }
}

proof fn lemma_count_true_set(s: Seq<bool>, j: int)
    requires
        0 <= j < s.len(),
        !s[j],
    ensures
        count_true(s.update(j, true)) == count_true(s) + 1,
    decreases s.len(),
{
    if j < s.len() - 1 {
        lemma_count_true_set(s.drop_last(), j);
        assert(s.update(j, true).drop_last() =~= s.drop_last().update(j, true));
    } else {
        assert(s.update(j, true).drop_last() =~= s.drop_last());
    }
}

/// Whether `i` is ranked before `j`: a larger total first, and the smaller
/// index first between equal totals.
pub open spec fn ranks_before(totals: Seq<u64>, i: int, j: int) -> bool {
    totals[i] > totals[j] || (totals[i] == totals[j] && i < j)
}

/// The indices of `totals` ordered by total, largest first; equal totals keep
/// the order of their indices.
pub fn ranking(totals: &Vec<u64>) -> (r: Vec<usize>)
    ensures
        r@.len() == totals@.len(),
        forall|i: int| 0 <= i < r@.len() ==> #[trigger] r@[i] < totals@.len(),
        forall|j: usize| j < totals@.len() ==> #[trigger] r@.contains(j),
        forall|i: int, j: int|
            0 <= i < j < r@.len() ==> ranks_before(totals@, r@[i] as int, r@[j] as int),
{
    let n = totals.len();
    let mut used: Vec<bool> = Vec::new();
    let mut k: usize = 0;
    while k < n
        invariant
            k <= n == totals@.len(),
            used@.len() == k,
            forall|j: int| 0 <= j < k ==> !used@[j],
            count_true(used@) == 0,
        decreases n - k,
    {
        let ghost before = used@;
        used.push(false);
        assert(used@.drop_last() =~= before);
        k += 1;
    }
    let mut r: Vec<usize> = Vec::new();
    while r.len() < n
        invariant
            n == totals@.len(),
            used@.len() == n,
            r@.len() <= n,
            count_true(used@) == r@.len(),
            forall|i: int| 0 <= i < r@.len() ==> #[trigger] r@[i] < n,
            forall|j: int| 0 <= j < n ==> (used@[j] <==> r@.contains(j as usize)),
            forall|i: int, j: int|
                0 <= i < j < r@.len() ==> ranks_before(totals@, r@[i] as int, r@[j] as int),
            forall|i: int, j: int|
                0 <= i < r@.len() && 0 <= j < n && !used@[j] ==> ranks_before(
                    totals@,
                    r@[i] as int,
                    j,
                ),
        decreases n - r@.len(),
    {
        proof {
            lemma_count_true_bound(used@);
        }
        let mut best: usize = n;
        let mut j: usize = 0;
        while j < n
            invariant
                n == totals@.len(),
                used@.len() == n,
                j <= n,
                best == n || (best < j && !used@[best as int]),
                best == n ==> forall|x: int| 0 <= x < j ==> used@[x],
                best < n ==> forall|x: int|
                    0 <= x < j && !used@[x] && x != best ==> ranks_before(totals@, best as int, x),
            decreases n - j,
        {
            if !used[j] && (best == n || totals[j] > totals[best]) {
                best = j;
            }
            j += 1;
        }
        assert(best < n);
        let ghost old_used = used@;
        let ghost old_r = r@;
        proof {
            lemma_count_true_set(used@, best as int);
        }
        used.set(best, true);
        r.push(best);
        assert forall|x: int| 0 <= x < n implies (used@[x] <==> r@.contains(x as usize)) by {
            if used@[x] && x != best {
                assert(old_used[x]);
                let i = choose|i: int| 0 <= i < old_r.len() && old_r[i] == x as usize;
                assert(r@[i] == x as usize);
            }
            if x == best {
                assert(r@[old_r.len() as int] == best);
            }
            if r@.contains(x as usize) && x != best {
                let i = choose|i: int| 0 <= i < r@.len() && r@[i] == x as usize;
                assert(i < old_r.len());
                assert(old_r.contains(x as usize));
            }
        }
    }
    proof {
        lemma_count_true_bound(used@);
        assert forall|j: int| 0 <= j < n implies used@[j] by {
            if !used@[j] {
                lemma_all_true_when_full(used@, j);
            }
        }
        assert forall|j: usize| j < n implies #[trigger] r@.contains(j) by {
            assert(used@[j as int]);
        }
    }
    r
}

proof fn lemma_all_true_when_full(s: Seq<bool>, j: int)
    requires
        0 <= j < s.len(),
        !s[j],
    ensures
        count_true(s) < s.len(),
    decreases s.len(),
{
    lemma_count_true_bound(s.drop_last());
    if j < s.len() - 1 {
        lemma_all_true_when_full(s.drop_last(), j);
    }
}

} // verus!
