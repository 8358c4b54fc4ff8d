//! The iterative-deepening driver over the bounded search, the solution
//! formatter, and the cost filter that keeps only the cheapest solutions.

use vstd::prelude::*;
use vstd::string::StringExecFns;
use crate::moves::{Move, spec_move_token, display_move};
use crate::reorient::Reorient;
use crate::search::{Oracle, dfs, dfs_ok, sols_contain, solved_state};

verus! {

/// The total effective cost of a solution: the sum of the effective cost of
/// every reorientation in it, under the given cheap-move mask.
pub open spec fn spec_solution_cost(rs: Seq<Reorient>, cheap_mask: u32) -> nat
    decreases rs.len(),
{
    if rs.len() == 0 {
        0
    } else {
        spec_solution_cost(rs.drop_last(), cheap_mask) + rs.last().spec_cost(cheap_mask)
    }
}

/// Sums the effective costs of the reorientations of a solution.
pub fn solution_cost(rs: &Vec<Reorient>, cheap_mask: u32) -> (c: usize)
    requires
        rs@.len() * 3 <= usize::MAX,
    ensures
        c == spec_solution_cost(rs@, cheap_mask),
{
    let mut acc: usize = 0;
    let n = rs.len();
    for i in 0..n
        invariant
            n == rs@.len(),
            n * 3 <= usize::MAX,
            acc == spec_solution_cost(rs@.subrange(0, i as int), cheap_mask),
            acc <= 3 * i,
    {
        proof {
            assert(rs@.subrange(0, i as int + 1).drop_last() =~= rs@.subrange(0, i as int));
            assert(rs@.subrange(0, i as int + 1).last() == rs@[i as int]);
        }
        acc = acc + rs[i].cost(cheap_mask);
    }
    proof {
        assert(rs@.subrange(0, n as int) =~= rs@);
    }
    acc
}

/// The display of the gaps of an algorithm tail: each gap's reorientation
/// token followed by the next move's token, until either runs out.
pub open spec fn spec_gaps(moves: Seq<Move>, rs: Seq<Reorient>, stickers: bool) -> Seq<char>
    decreases rs.len(),
{
    if rs.len() == 0 || moves.len() == 0 {
        Seq::empty()
    } else {
        rs[0].spec_token(stickers) + spec_move_token(moves[0]) + spec_gaps(
            moves.drop_first(),
            rs.drop_first(),
            stickers,
        )
    }
}

/// The display of an algorithm with reorientations inserted in its gaps:
/// the first move's token, then alternately a reorientation token and the
/// next move's token.  `rs` is in gap order: `rs[i]` stands between move
/// `i` and move `i + 1`.
pub open spec fn spec_display(moves: Seq<Move>, rs: Seq<Reorient>, stickers: bool) -> Seq<char> {
    if moves.len() == 0 {
        Seq::empty()
    } else {
        spec_move_token(moves[0]) + spec_gaps(moves.drop_first(), rs, stickers)
    }
}

/// A display interleaves the tokens with nothing else: for three moves and
/// two reorientations it is exactly the five tokens in alternation.
pub proof fn lemma_display_interleaves(
    m1: Move,
    m2: Move,
    m3: Move,
    r1: Reorient,
    r2: Reorient,
    stickers: bool,
)
    ensures
        spec_display(seq![m1, m2, m3], seq![r1, r2], stickers) == spec_move_token(m1)
            + r1.spec_token(stickers) + spec_move_token(m2) + r2.spec_token(stickers)
            + spec_move_token(m3),
{
    let ms = seq![m1, m2, m3];
    let rs = seq![r1, r2];
    let e_m = Seq::<Move>::empty();
    let e_r = Seq::<Reorient>::empty();
    assert(ms.drop_first() =~= seq![m2, m3]);
    assert(rs.drop_first() =~= seq![r2]);
    assert(seq![m2, m3].drop_first() =~= seq![m3]);
    assert(seq![r2].drop_first() =~= e_r);
    assert(seq![m3].drop_first() =~= e_m);
    assert(spec_gaps(e_m, e_r, stickers) == Seq::<char>::empty());
    assert(spec_gaps(seq![m3], e_r, stickers) == Seq::<char>::empty());
    assert(spec_gaps(seq![m2, m3], seq![r2], stickers) == r2.spec_token(stickers)
        + spec_move_token(m2) + spec_gaps(seq![m3], e_r, stickers));
    assert(spec_gaps(ms.drop_first(), rs, stickers) == r1.spec_token(stickers) + spec_move_token(
        m2,
    ) + spec_gaps(seq![m3], seq![r2], stickers));
    assert(spec_gaps(seq![m3], seq![r2], stickers) == r2.spec_token(stickers) + spec_move_token(
        m3,
    ) + spec_gaps(e_m, e_r, stickers));
    assert(spec_display(ms, rs, stickers) =~= spec_move_token(m1) + r1.spec_token(stickers)
        + spec_move_token(m2) + r2.spec_token(stickers) + spec_move_token(m3));
}

/// Renders an algorithm with the given reorientations in its gaps.
pub fn format_solution(moves: &Vec<Move>, rs: &Vec<Reorient>, stickers: bool) -> (res: String)
    ensures
        res@ == spec_display(moves@, rs@, stickers),
{
    if moves.len() == 0 {
        let res = String::new();
        return res;
    }
    let mut res = display_move(moves[0]);
    proof {
        assert(rs@.skip(0) =~= rs@);
        assert(moves@.skip(1) =~= moves@.drop_first());
    }
    let count = if rs.len() <= moves.len() - 1 {
        rs.len()
    } else {
        moves.len() - 1
    };
    for i in 0..count
        invariant
            count <= rs@.len(),
            count + 1 <= moves@.len(),
            res@ + spec_gaps(moves@.skip(1 + i as int), rs@.skip(i as int), stickers)
                == spec_display(moves@, rs@, stickers),
    {
        let tok = rs[i].to_token(stickers);
        let mv = display_move(moves[i + 1]);
        proof {
            let ms = moves@.skip(1 + i as int);
            let rr = rs@.skip(i as int);
            assert(ms.len() > 0 && rr.len() > 0);
            assert(ms.drop_first() =~= moves@.skip(2 + i as int));
            assert(rr.drop_first() =~= rs@.skip(i as int + 1));
            assert(ms[0] == moves@[1 + i as int]);
            assert(rr[0] == rs@[i as int]);
            assert(spec_gaps(ms, rr, stickers) == rr[0].spec_token(stickers) + spec_move_token(
                ms[0],
            ) + spec_gaps(moves@.skip(2 + i as int), rs@.skip(i as int + 1), stickers));
            assert(res@ + tok@ + mv@ + spec_gaps(
                moves@.skip(2 + i as int),
                rs@.skip(i as int + 1),
                stickers,
            ) =~= res@ + spec_gaps(ms, rr, stickers));
        }
        res.append(tok.as_str());
        res.append(mv.as_str());
    }
    proof {
        assert(spec_gaps(moves@.skip(1 + count as int), rs@.skip(count as int), stickers)
            == Seq::<char>::empty());
        assert(res@ + Seq::<char>::empty() =~= res@);
    }
    res
}

/// Reverses a solution from the search's reverse gap order into gap order.
pub fn reverse_solution(rs: &Vec<Reorient>) -> (res: Vec<Reorient>)
    ensures
        res@ == rs@.reverse(),
{
    let n = rs.len();
    let mut res: Vec<Reorient> = Vec::new();
    for i in 0..n
        invariant
            n == rs@.len(),
            res@.len() == i,
            forall|j: int| 0 <= j < i ==> res@[j] == rs@[n - 1 - j],
    {
        res.push(rs[n - 1 - i]);
    }
    proof {
        assert(res@ =~= rs@.reverse());
    }
    res
}

/// Whether the bounded search accepts any solution for the whole algorithm
/// at the given budget, starting from the solved cube.
pub open spec fn search_feasible(o: Oracle, moves: Seq<Move>, k: nat) -> bool {
    exists|rs: Seq<Reorient>| dfs_ok(o, Seq::empty(), moves, k, rs)
}

/// The number of budgets the driver tries: every budget below the
/// algorithm's length, further capped by the configured maximum.
pub open spec fn spec_budget_limit(len: nat, max_depth: nat) -> nat {
    if len <= max_depth {
        len
    } else {
        max_depth + 1
    }
}

/// Whether `out` prices and displays exactly the solution set `sols`: the
/// sequence `sols` enumerates, without repetition, the solutions the
/// bounded search accepts for the whole algorithm at budget `k`, and entry
/// `i` of `out` carries the effective cost of `sols[i]` and its display
/// with the gaps filled in gap order.
pub open spec fn spec_reported(
    o: Oracle,
    moves: Seq<Move>,
    k: nat,
    cheap_mask: u32,
    stickers: bool,
    out: Seq<(usize, String)>,
    sols: Seq<Seq<Reorient>>,
) -> bool {
    &&& forall|i: int, j: int| 0 <= i < j < sols.len() ==> sols[i] != sols[j]
    &&& forall|rs: Seq<Reorient>| #[trigger]
        sols.contains(rs) <==> dfs_ok(o, Seq::empty(), moves, k, rs)
    &&& out.len() == sols.len()
    &&& forall|i: int|
        0 <= i < sols.len() ==> (#[trigger] out[i]).0 == spec_solution_cost(sols[i], cheap_mask)
            && out[i].1@ == spec_display(moves, sols[i].reverse(), stickers)
}

/// The iterative-deepening driver.  Tries budgets `0, 1, 2, ...` below the
/// budget limit and stops at the first one where the bounded search finds
/// solutions; returns that budget and one `(cost, display)` pair per found
/// solution.  An algorithm of at most one move needs no reorientation and
/// yields its own display at cost 0; if no budget helps, the result is
/// `(0, [])`.
pub fn iddfs(o: &Oracle, moves: &Vec<Move>, max_depth: usize, cheap_mask: u32, stickers: bool) -> (r:
    (usize, Vec<(usize, String)>))
    requires
        moves@.len() <= usize::MAX / 3,
    ensures
        moves@.len() <= 1 ==> r.0 == 0 && r.1@.len() == 1 && r.1@[0].0 == 0 && r.1@[0].1@ == (
        if moves@.len() == 0 {
            Seq::<char>::empty()
        } else {
            spec_move_token(moves@[0])
        }),
        moves@.len() > 1 && r.1@.len() > 0 ==> {
            &&& (r.0 as nat) < spec_budget_limit(moves@.len(), max_depth as nat)
            &&& search_feasible(*o, moves@, r.0 as nat)
            &&& forall|k: nat| k < r.0 ==> !search_feasible(*o, moves@, k)
            &&& exists|sols: Seq<Seq<Reorient>>| #[trigger]
                spec_reported(*o, moves@, r.0 as nat, cheap_mask, stickers, r.1@, sols)
        },
        moves@.len() > 1 && r.1@.len() == 0 ==> r.0 == 0 && forall|k: nat|
            k < spec_budget_limit(moves@.len(), max_depth as nat) ==> !search_feasible(
                *o,
                moves@,
                k,
            ),
        moves@.len() > 1 && (exists|k: nat|
            k < spec_budget_limit(moves@.len(), max_depth as nat) && search_feasible(
                *o,
                moves@,
                k,
            )) ==> r.1@.len() > 0,
{
    if moves.len() <= 1 {
        let s = if moves.len() == 0 {
            String::new()
        } else {
            display_move(moves[0])
        };
        let mut out: Vec<(usize, String)> = Vec::new();
        out.push((0usize, s));
        return (0usize, out);
    }
    let limit = if moves.len() <= max_depth {
        moves.len()
    } else {
        max_depth + 1
    };
    let solved = solved_state();
    let mut k: usize = 0;
    while k < limit
        invariant
            moves@.len() > 1,
            moves@.len() <= usize::MAX / 3,
            limit == spec_budget_limit(moves@.len(), max_depth as nat),
            limit <= moves@.len(),
            k <= limit,
            solved@ == Seq::<Move>::empty(),
            forall|kk: nat| kk < k ==> !search_feasible(*o, moves@, kk),
        decreases limit - k,
    {
        let ret = dfs(o, &solved, moves, 0, k);
        proof {
            assert(moves@.skip(0) =~= moves@);
        }
        if ret.len() > 0 {
            let ghost sols = Seq::new(ret@.len(), |i: int| ret@[i]@);
            proof {
                assert(sols_contain(ret@, ret@[0]@)) by {
                    assert(ret@[0]@ == ret@[0]@);
                }
                assert(dfs_ok(*o, solved@, moves@, k as nat, ret@[0]@));
                assert(search_feasible(*o, moves@, k as nat));
                assert forall|rs: Seq<Reorient>| #[trigger]
                    sols.contains(rs) <==> dfs_ok(*o, Seq::empty(), moves@, k as nat, rs) by {
                    if sols.contains(rs) {
                        let i = choose|i: int| 0 <= i < sols.len() && sols[i] == rs;
                        assert(sols_contain(ret@, rs)) by {
                            assert(ret@[i]@ == rs);
                        }
                    }
                    if dfs_ok(*o, Seq::empty(), moves@, k as nat, rs) {
                        assert(dfs_ok(*o, solved@, moves@, k as nat, rs));
                        assert(sols_contain(ret@, rs));
                        let i = choose|i: int| 0 <= i < ret@.len() && ret@[i]@ == rs;
                        assert(sols[i] == rs);
                        assert(sols.contains(rs));
                    }
                }
                assert forall|i: int, j: int|
                    0 <= i < j < sols.len() implies sols[i] != sols[j] by {
                    assert(ret@[i]@ != ret@[j]@);
                }
            }
            let mut out: Vec<(usize, String)> = Vec::new();
            let count = ret.len();
            for t in 0..count
                invariant
                    count == ret@.len(),
                    sols == Seq::new(ret@.len(), |i: int| ret@[i]@),
                    moves@.len() <= usize::MAX / 3,
                    out@.len() == t,
                    forall|rs: Seq<Reorient>| #[trigger]
                        sols_contain(ret@, rs) ==> rs.len() == moves@.len() - 1,
                    forall|i: int|
                        0 <= i < t ==> (#[trigger] out@[i]).0 == spec_solution_cost(
                            sols[i],
                            cheap_mask,
                        ) && out@[i].1@ == spec_display(moves@, sols[i].reverse(), stickers),
            {
                let sref = &ret[t];
                proof {
                    assert(sols_contain(ret@, sref@)) by {
                        assert(ret@[t as int]@ == sref@);
                    }
                    assert(sref@.len() == moves@.len() - 1);
                }
                let c = solution_cost(sref, cheap_mask);
                let fwd = reverse_solution(sref);
                let s = format_solution(moves, &fwd, stickers);
                proof {
                    assert(sols[t as int] == sref@);
                }
                out.push((c, s));
            }
            proof {
                assert(spec_reported(*o, moves@, k as nat, cheap_mask, stickers, out@, sols));
            }
            return (k, out);
        } else {
            proof {
                assert forall|rs: Seq<Reorient>|
                    !dfs_ok(*o, Seq::empty(), moves@, k as nat, rs) by {
                    if dfs_ok(*o, Seq::empty(), moves@, k as nat, rs) {
                        assert(dfs_ok(*o, solved@, moves@, k as nat, rs));
                        assert(sols_contain(ret@, rs));
                    }
                }
            }
        }
        k = k + 1;
    }
    (0usize, Vec::new())
}

/// The smallest cost among a non-empty list of priced solutions.
pub open spec fn spec_min_cost(s: Seq<(usize, String)>) -> usize
    decreases s.len(),
{
    if s.len() <= 1 {
        s[0].0
    } else {
        let m = spec_min_cost(s.drop_last());
        if s.last().0 < m {
            s.last().0
        } else {
            m
        }
    }
}

/// The priced solutions whose cost equals `m`, in their original order.
pub open spec fn spec_filter_cost(s: Seq<(usize, String)>, m: usize) -> Seq<(usize, String)>
    decreases s.len(),
{
    if s.len() == 0 {
        Seq::empty()
    } else {
        spec_filter_cost(s.drop_last(), m) + if s.last().0 == m {
            seq![s.last()]
        } else {
            Seq::empty()
        }
    }
}

/// The minimum cost is a lower bound on every cost, and some solution
/// attains it.
pub proof fn lemma_min_cost(s: Seq<(usize, String)>)
    requires
        s.len() > 0,
    ensures
        forall|j: int| 0 <= j < s.len() ==> (#[trigger] s[j]).0 >= spec_min_cost(s),
        exists|j: int| 0 <= j < s.len() && (#[trigger] s[j]).0 == spec_min_cost(s),
    decreases s.len(),
{
    if s.len() == 1 {
        assert(s[0].0 == spec_min_cost(s));
    } else {
        lemma_min_cost(s.drop_last());
        assert forall|j: int| 0 <= j < s.len() implies (#[trigger] s[j]).0 >= spec_min_cost(
            s,
        ) by {
            if j < s.len() - 1 {
                assert(s.drop_last()[j] == s[j]);
            }
        }
        if s.last().0 < spec_min_cost(s.drop_last()) {
            assert(s[s.len() - 1].0 == spec_min_cost(s));
        } else {
            let j0 = choose|j: int|
                0 <= j < s.drop_last().len() && (#[trigger] s.drop_last()[j]).0 == spec_min_cost(
                    s.drop_last(),
                );
            assert(s[j0].0 == spec_min_cost(s));
        }
    }
}

/// Keeps only the solutions whose cost is minimal: the turn-metric-optimal
/// subset.  Every kept solution costs exactly the minimum, no dropped
/// solution costs less, and the kept ones appear in their original order.
pub fn filter_etm_optimal(solutions: Vec<(usize, String)>) -> (res: Vec<(usize, String)>)
    requires
        solutions@.len() > 0,
    ensures
        res@ == spec_filter_cost(solutions@, spec_min_cost(solutions@)),
        forall|i: int| 0 <= i < res@.len() ==> (#[trigger] res@[i]).0 == spec_min_cost(solutions@),
        forall|j: int|
            0 <= j < solutions@.len() ==> (#[trigger] solutions@[j]).0 >= spec_min_cost(
                solutions@,
            ),
        res@.len() > 0,
{
    proof {
        lemma_min_cost(solutions@);
    }
    let ghost orig = solutions@;
    let n = solutions.len();
    let mut min: usize = solutions[0].0;
    proof {
        assert(orig.subrange(0, 1).drop_last() =~= Seq::<(usize, String)>::empty());
        assert(orig.subrange(0, 1).last() == orig[0]);
    }
    let mut i: usize = 1;
    while i < n
        invariant
            1 <= i <= n,
            n == orig.len(),
            solutions@ == orig,
            min == spec_min_cost(orig.subrange(0, i as int)),
        decreases n - i,
    {
        proof {
            assert(orig.subrange(0, i as int + 1).drop_last() =~= orig.subrange(0, i as int));
            assert(orig.subrange(0, i as int + 1).last() == orig[i as int]);
        }
        if solutions[i].0 < min {
            min = solutions[i].0;
        }
        i = i + 1;
    }
    proof {
        assert(orig.subrange(0, n as int) =~= orig);
    }
    let mut rest = solutions;
    let mut res: Vec<(usize, String)> = Vec::new();
    let mut taken: usize = 0;
    while rest.len() > 0
        invariant
            taken <= n,
            n == orig.len(),
            rest@ =~= orig.skip(taken as int),
            res@ == spec_filter_cost(orig.subrange(0, taken as int), min),
        decreases rest@.len(),
    {
        proof {
            assert(rest@[0] == orig[taken as int]);
            assert(orig.subrange(0, taken as int + 1).drop_last() =~= orig.subrange(
                0,
                taken as int,
            ));
            assert(orig.subrange(0, taken as int + 1).last() == orig[taken as int]);
            assert(orig.skip(taken as int).drop_first() =~= orig.skip(taken as int + 1));
        }
        let p = rest.remove(0);
        if p.0 == min {
            res.push(p);
        }
        taken = taken + 1;
    }
    proof {
        assert(orig.subrange(0, n as int) =~= orig);
        assert(res@ == spec_filter_cost(orig, min));
        let j0 = choose|j: int|
            0 <= j < orig.len() && (#[trigger] orig[j]).0 == spec_min_cost(orig);
        lemma_filter_cost_keeps(orig, min, j0);
        assert forall|i2: int|
            0 <= i2 < res@.len() implies (#[trigger] res@[i2]).0 == spec_min_cost(orig) by {
            lemma_filter_cost_members(orig, min, i2);
        }
    }
    res
}

/// Every member of the cost filter's result has the filtered cost.
proof fn lemma_filter_cost_members(s: Seq<(usize, String)>, m: usize, i: int)
    requires
        0 <= i < spec_filter_cost(s, m).len(),
    ensures
        spec_filter_cost(s, m)[i].0 == m,
    decreases s.len(),
{
    if s.len() > 0 {
        if i < spec_filter_cost(s.drop_last(), m).len() {
            lemma_filter_cost_members(s.drop_last(), m, i);
        }
    }
}

/// A solution with the filtered cost is kept by the cost filter.
proof fn lemma_filter_cost_keeps(s: Seq<(usize, String)>, m: usize, j: int)
    requires
        0 <= j < s.len(),
        s[j].0 == m,
    ensures
        spec_filter_cost(s, m).len() > 0,
    decreases s.len(),
{
    if j < s.len() - 1 {
        assert(s.drop_last()[j] == s[j]);
        lemma_filter_cost_keeps(s.drop_last(), m, j);
    }
}

} // verus!
