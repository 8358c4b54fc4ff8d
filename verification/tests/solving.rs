use reorient_search::moves::{Move, MoveVariant};
use reorient_search::reorient::{Reorient, all_reorients};
use reorient_search::search::{
    apply_move, apply_moves, dfs, lower_bound, make_naive_solver, solved_state,
};
use reorient_search::driver::{filter_etm_optimal, format_solution, iddfs, solution_cost};

#[test]
fn lower_bound_of_solved_is_zero() {
    let o = make_naive_solver(2);
    let st = solved_state();
    assert_eq!(lower_bound(&o, &st), 0);
}

#[test]
fn lower_bound_grows_with_scrambling() {
    let o = make_naive_solver(2);
    let st = solved_state();
    let st = apply_move(&st, Move::R(MoveVariant::Standard));
    assert_eq!(lower_bound(&o, &st), 1);
    let st = apply_move(&st, Move::U(MoveVariant::Standard));
    assert_eq!(lower_bound(&o, &st), 2);
}

#[test]
fn oracle_bound_is_invariant_under_reorientation() {
    let o = make_naive_solver(2);
    let solved = solved_state();
    let scrambled = apply_moves(
        &solved,
        &vec![
            Move::R(MoveVariant::Standard),
            Move::U(MoveVariant::Standard),
        ],
    );
    let solved = solved_state();
    for r in all_reorients() {
        let st = solved_state();
        let st = apply_moves(&st, &r.equivalent_rkt_moves());
        assert_eq!(lower_bound(&o, &st), lower_bound(&o, &solved));
        let base = solved_state();
        let base = apply_moves(
            &base,
            &vec![
                Move::R(MoveVariant::Standard),
                Move::U(MoveVariant::Standard),
            ],
        );
        let reoriented = apply_moves(&base, &r.equivalent_rkt_moves());
        assert_eq!(lower_bound(&o, &reoriented), lower_bound(&o, &scrambled));
    }
}

#[test]
fn search_is_monotonic_in_budget() {
    let o = make_naive_solver(2);
    let moves = vec![
        Move::R(MoveVariant::Standard),
        Move::U(MoveVariant::Standard),
    ];
    let solved = solved_state();
    let at_one = dfs(&o, &solved, &moves, 0, 1);
    assert!(at_one.len() > 0);
    let solved = solved_state();
    let at_two = dfs(&o, &solved, &moves, 0, 2);
    assert!(at_two.len() > 0);
}

#[test]
fn degenerate_single_move_algorithm() {
    let o = make_naive_solver(2);
    let moves = vec![Move::R(MoveVariant::Standard)];
    let (count, solutions) = iddfs(&o, &moves, 3, 0, false);
    assert_eq!(count, 0);
    assert_eq!(solutions.len(), 1);
    assert_eq!(solutions[0].0, 0);
    assert_eq!(solutions[0].1, "R");
}

#[test]
fn degenerate_empty_algorithm() {
    let o = make_naive_solver(2);
    let moves: Vec<Move> = vec![];
    let (count, solutions) = iddfs(&o, &moves, 3, 0, false);
    assert_eq!(count, 0);
    assert_eq!(solutions.len(), 1);
    assert_eq!(solutions[0].0, 0);
    assert_eq!(solutions[0].1, "");
}

#[test]
fn scenario_r_u_needs_one_reorientation() {
    let o = make_naive_solver(2);
    let moves = vec![
        Move::R(MoveVariant::Standard),
        Move::U(MoveVariant::Standard),
    ];
    let (count, solutions) = iddfs(&o, &moves, 3, 0, false);
    assert_eq!(count, 1);
    assert!(solutions.len() > 0);
    for (_cost, s) in &solutions {
        assert!(s.starts_with("R "));
        assert!(s.ends_with(" U"));
        assert!(s.len() > "R  U".len());
    }
    // The cheapest fix is a single quarter rotation about the z axis: it
    // turns the following U into a turn of the R face.
    let best = filter_etm_optimal(solutions);
    assert_eq!(best.len(), 1);
    assert_eq!(best[0].0, 1);
    assert!(best[0].1 == "R Oz U" || best[0].1 == "R Oz' U");
}

#[test]
fn no_solution_when_budget_exhausted() {
    let o = make_naive_solver(2);
    let moves = vec![
        Move::R(MoveVariant::Standard),
        Move::U(MoveVariant::Standard),
    ];
    let (count, solutions) = iddfs(&o, &moves, 0, 0, false);
    assert_eq!(count, 0);
    assert_eq!(solutions.len(), 0);
}

#[test]
fn display_round_trip() {
    let moves = vec![
        Move::R(MoveVariant::Standard),
        Move::U(MoveVariant::Double),
        Move::F(MoveVariant::Inverse),
    ];
    let rs = vec![Reorient::U, Reorient::Identity];
    let s = format_solution(&moves, &rs, false);
    assert_eq!(s, "R Oy U2 F'");
    let s = format_solution(&moves, &rs, true);
    assert_eq!(s, "R 23I:D U2 F'");
    let rs = vec![Reorient::UF, Reorient::DBL];
    let s = format_solution(&moves, &rs, false);
    assert_eq!(s, "R Oxy2 U2 Oy'x' F'");
}

#[test]
fn solution_cost_sums_effective_costs() {
    let rs = vec![Reorient::U, Reorient::UF];
    assert_eq!(solution_cost(&rs, 0), 4);
    let cheap_uf = 1u32 << Reorient::UF.index();
    assert_eq!(solution_cost(&rs, cheap_uf), 2);
    let rs = vec![Reorient::Identity, Reorient::Identity];
    assert_eq!(solution_cost(&rs, u32::MAX), 0);
}

#[test]
fn filter_keeps_exactly_the_cheapest() {
    let input = vec![
        (3usize, String::from("a")),
        (1usize, String::from("b")),
        (2usize, String::from("c")),
        (1usize, String::from("d")),
    ];
    let best = filter_etm_optimal(input);
    assert_eq!(best.len(), 2);
    assert_eq!(best[0], (1, String::from("b")));
    assert_eq!(best[1], (1, String::from("d")));
}
