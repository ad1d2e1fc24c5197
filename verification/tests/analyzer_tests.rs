use infection::analyzer::{
    calculate_cell_cost, count_cloning_moves, parse_analyzer_type, Analyzer, AnalyzerChoice,
    Basic, Dumbass, Surrounder, SCORE_SCALE,
};
use infection::field::Field;

#[test]
fn cell_costs_favor_the_center() {
    // corners weigh 9/7, the four middle cells 13/7
    assert_eq!(calculate_cell_cost([0, 0]), 9);
    assert_eq!(calculate_cell_cost([5, 5]), 9);
    assert_eq!(calculate_cell_cost([2, 2]), 13);
    assert_eq!(calculate_cell_cost([3, 2]), 13);
    assert_eq!(calculate_cell_cost([1, 2]), 11);
    assert_eq!(calculate_cell_cost([0, 2]), 9);
}

#[test]
fn basic_is_balanced_on_the_default_start() {
    let f = Field::default();
    assert_eq!(Basic.heuristic(1, f), 0);
    assert_eq!(Basic.heuristic(2, f), 0);
}

#[test]
fn basic_counts_material_by_position() {
    let mut f = Field::new();
    f.set([0, 0], 1).unwrap();
    // one corner stone: 9/7 of a point, at scale 1960 that is 9 * 280
    assert_eq!(Basic.heuristic(1, f), 9 * 280);
    assert_eq!(Basic.heuristic(2, f), -9 * 280);
    f.set([2, 2], 2).unwrap();
    assert_eq!(Basic.heuristic(1, f), 9 * 280 - 13 * 280);
}

#[test]
fn count_cloning_moves_on_default_start() {
    // each of player one's two corner stones has three adjacent empty cells
    assert_eq!(count_cloning_moves(Field::default()), 6);
}

#[test]
fn surrounder_adds_mobility_for_the_side_to_move() {
    let f = Field::default();
    // balanced material, six clone moves at a quarter point each
    assert_eq!(Surrounder.heuristic(1, f), 6 * 490);
    assert_eq!(Surrounder.heuristic(2, f), -6 * 490);
}

#[test]
fn surrounder_amplifies_material() {
    let mut f = Field::new();
    f.set([0, 0], 1).unwrap();
    // material 9/7; amplified part is 4 * 9 * 9; one stone has 3 clone moves
    assert_eq!(Surrounder.heuristic(1, f), 4 * 81 + 3 * 490);
    // seen from player two the material part flips sign, and the mobility
    // of the side to move (player one) counts against player two
    assert_eq!(Surrounder.heuristic(2, f), -(4 * 81) - 3 * 490);
}

#[test]
fn dumbass_stays_in_its_unit_range() {
    let f = Field::default();
    for _ in 0..50 {
        let h = Dumbass.heuristic(1, f);
        assert!(0 <= h && h < SCORE_SCALE);
    }
}

#[test]
fn analyzer_tokens_select_evaluators() {
    assert!(matches!(parse_analyzer_type("surrounder"), AnalyzerChoice::Surrounder(_)));
    assert!(matches!(parse_analyzer_type("basic"), AnalyzerChoice::Basic(_)));
    assert!(matches!(parse_analyzer_type("anything else"), AnalyzerChoice::Basic(_)));
    assert!(matches!(parse_analyzer_type(""), AnalyzerChoice::Basic(_)));
}

#[test]
fn analyzer_choice_delegates() {
    let f = Field::default();
    assert_eq!(parse_analyzer_type("basic").heuristic(1, f), 0);
    assert_eq!(parse_analyzer_type("surrounder").heuristic(1, f), 6 * 490);
}
