use reorient_search::moves::{Move, MoveVariant, display_move, display_move_variant};
use reorient_search::reorient::{Reorient, all_reorients};
use reorient_search::config::cheap_move_mask;

#[test]
fn identity_cost_is_zero_for_any_mask() {
    assert_eq!(Reorient::Identity.cost(0), 0);
    assert_eq!(Reorient::Identity.cost(u32::MAX), 0);
    assert_eq!(Reorient::Identity.cost(1), 0);
}

#[test]
fn base_costs_match_geometric_class() {
    assert_eq!(Reorient::R.cost(0), 1);
    assert_eq!(Reorient::L.cost(0), 1);
    assert_eq!(Reorient::U.cost(0), 1);
    assert_eq!(Reorient::D.cost(0), 1);
    assert_eq!(Reorient::F.cost(0), 1);
    assert_eq!(Reorient::B.cost(0), 1);
    assert_eq!(Reorient::R2.cost(0), 2);
    assert_eq!(Reorient::U2.cost(0), 2);
    assert_eq!(Reorient::F2.cost(0), 2);
    assert_eq!(Reorient::UF.cost(0), 3);
    assert_eq!(Reorient::UR.cost(0), 3);
    assert_eq!(Reorient::FR.cost(0), 3);
    assert_eq!(Reorient::DF.cost(0), 3);
    assert_eq!(Reorient::UL.cost(0), 3);
    assert_eq!(Reorient::BR.cost(0), 3);
    assert_eq!(Reorient::UFR.cost(0), 2);
    assert_eq!(Reorient::DBL.cost(0), 2);
    assert_eq!(Reorient::UFL.cost(0), 2);
    assert_eq!(Reorient::DBR.cost(0), 2);
    assert_eq!(Reorient::DFR.cost(0), 2);
    assert_eq!(Reorient::UBL.cost(0), 2);
    assert_eq!(Reorient::UBR.cost(0), 2);
    assert_eq!(Reorient::DFL.cost(0), 2);
}

#[test]
fn cheap_override_forces_cost_one() {
    // UF sits at catalog position 10 and has base cost 3.
    let mask = 1u32 << Reorient::UF.index();
    assert_eq!(Reorient::UF.cost(mask), 1);
    assert!(Reorient::UF.cost(mask) <= Reorient::UF.cost(0));
    // The mask leaves every other reorientation alone.
    assert_eq!(Reorient::UR.cost(mask), 3);
    // Marking a quarter turn cheap keeps its cost at 1.
    let mask_r = 1u32 << Reorient::R.index();
    assert_eq!(Reorient::R.cost(mask_r), 1);
}

#[test]
fn catalog_has_24_distinct_members_identity_first() {
    let all = all_reorients();
    assert_eq!(all.len(), 24);
    assert_eq!(all[0], Reorient::Identity);
    for i in 0..all.len() {
        assert_eq!(all[i].index() as usize, i);
        for j in 0..i {
            assert!(all[j] != all[i]);
        }
    }
}

#[test]
fn is_none_only_for_identity() {
    assert!(Reorient::Identity.is_none());
    let all = all_reorients();
    for r in all.into_iter().skip(1) {
        assert!(!r.is_none());
    }
}

#[test]
fn equivalent_rkt_moves_match_catalog() {
    assert_eq!(Reorient::Identity.equivalent_rkt_moves(), vec![]);
    assert_eq!(
        Reorient::R.equivalent_rkt_moves(),
        vec![Move::X(MoveVariant::Standard)]
    );
    assert_eq!(
        Reorient::UF.equivalent_rkt_moves(),
        vec![Move::X(MoveVariant::Standard), Move::Y(MoveVariant::Double)]
    );
    assert_eq!(
        Reorient::DBL.equivalent_rkt_moves(),
        vec![Move::Y(MoveVariant::Inverse), Move::X(MoveVariant::Inverse)]
    );
}

#[test]
fn move_tokens() {
    assert_eq!(display_move(Move::U(MoveVariant::Standard)), "U");
    assert_eq!(display_move(Move::U(MoveVariant::Double)), "U2");
    assert_eq!(display_move(Move::U(MoveVariant::Inverse)), "U'");
    assert_eq!(display_move(Move::Rw(MoveVariant::Double)), "Rw2");
    assert_eq!(display_move(Move::X(MoveVariant::Inverse)), "x'");
    assert_eq!(display_move(Move::Z(MoveVariant::Standard)), "z");
    assert_eq!(display_move_variant(MoveVariant::Standard), "");
    assert_eq!(display_move_variant(MoveVariant::Double), "2");
    assert_eq!(display_move_variant(MoveVariant::Inverse), "'");
}

#[test]
fn reorient_tokens_in_both_notations() {
    assert_eq!(Reorient::Identity.to_token(false), " ");
    assert_eq!(Reorient::Identity.to_token(true), " ");
    assert_eq!(Reorient::R.to_token(false), " Ox ");
    assert_eq!(Reorient::R.to_token(true), " 23I:L ");
    assert_eq!(Reorient::DBL.to_token(false), " Oy'x' ");
    assert_eq!(Reorient::DBL.to_token(true), " 23I:UFR ");
    assert_eq!(Reorient::UF.to_token(false), " Oxy2 ");
    assert_eq!(Reorient::UF.to_token(true), " 23I:UF ");
}

#[test]
fn cheap_mask_from_names() {
    // "x" names the axis-rotation token " Ox ", catalog position 1.
    let mask = cheap_move_mask(&vec![String::from("x")]);
    assert_eq!(mask, 1 << 1);
    // "xy2" names " Oxy2 ", catalog position 10.
    let mask = cheap_move_mask(&vec![String::from("xy2")]);
    assert_eq!(mask, 1 << 10);
    // Several names set several bits; unknown names set none.
    let mask = cheap_move_mask(&vec![
        String::from("x"),
        String::from("y'x'"),
        String::from("nonsense"),
    ]);
    assert_eq!(mask, (1 << 1) | (1 << 17));
    // No name ever marks the identity.
    assert_eq!(mask & 1, 0);
    let mask = cheap_move_mask(&vec![String::from("")]);
    assert_eq!(mask, 0);
}
