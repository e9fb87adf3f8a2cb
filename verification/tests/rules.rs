use game_of_life::game::ConwaysGame;

fn board(rows: i32, cols: i32, living: &[(usize, usize)]) -> ConwaysGame {
    let mut game = ConwaysGame::new([cols * 10, rows * 10], 10);
    for &(r, c) in living {
        game.set_cell(r, c, true);
    }
    game
}

fn living(game: &ConwaysGame) -> Vec<(usize, usize)> {
    game.cells_to_render()
}

#[test]
fn blinker_oscillates_with_period_two() {
    let mut game = board(3, 3, &[(1, 0), (1, 1), (1, 2)]);
    game.update_board();
    assert_eq!(living(&game), vec![(0, 1), (1, 1), (2, 1)]);
    game.update_board();
    assert_eq!(living(&game), vec![(1, 0), (1, 1), (1, 2)]);
}

#[test]
fn blinker_in_a_larger_board() {
    let mut game = board(5, 5, &[(2, 1), (2, 2), (2, 3)]);
    game.update_board();
    assert_eq!(living(&game), vec![(1, 2), (2, 2), (3, 2)]);
    game.update_board();
    assert_eq!(living(&game), vec![(2, 1), (2, 2), (2, 3)]);
}

#[test]
fn count_leaves_out_the_cell_itself() {
    let alone = board(3, 3, &[(1, 1)]);
    assert_eq!(alone.count_neighbors(1, 1), 0);
    let full = board(3, 3, &[
        (0, 0), (0, 1), (0, 2), (1, 0), (1, 1), (1, 2), (2, 0), (2, 1), (2, 2),
    ]);
    assert_eq!(full.count_neighbors(1, 1), 8);
    let ring = board(3, 3, &[(0, 0), (0, 1), (0, 2), (1, 0), (1, 2), (2, 0), (2, 1), (2, 2)]);
    assert_eq!(ring.count_neighbors(1, 1), 8);
}

#[test]
fn count_stops_at_the_edges() {
    let full = board(3, 3, &[
        (0, 0), (0, 1), (0, 2), (1, 0), (1, 1), (1, 2), (2, 0), (2, 1), (2, 2),
    ]);
    assert_eq!(full.count_neighbors(0, 0), 3);
    assert_eq!(full.count_neighbors(0, 2), 3);
    assert_eq!(full.count_neighbors(2, 0), 3);
    assert_eq!(full.count_neighbors(2, 2), 3);
    assert_eq!(full.count_neighbors(0, 1), 5);
    assert_eq!(full.count_neighbors(1, 0), 5);
    assert_eq!(full.count_neighbors(1, 2), 5);
    assert_eq!(full.count_neighbors(2, 1), 5);
}

#[test]
fn count_does_not_wrap_around() {
    let game = board(4, 4, &[(0, 3), (3, 0), (3, 3)]);
    assert_eq!(game.count_neighbors(0, 0), 0);
    let column = board(4, 4, &[(0, 3), (1, 3), (2, 3)]);
    assert_eq!(column.count_neighbors(1, 0), 0);
}

#[test]
fn count_around_a_coordinate_off_the_board() {
    let game = board(2, 2, &[(0, 0), (0, 1), (1, 0), (1, 1)]);
    assert_eq!(game.count_neighbors(-1, -1), 1);
    assert_eq!(game.count_neighbors(-1, 0), 2);
    assert_eq!(game.count_neighbors(2, 2), 1);
    assert_eq!(game.count_neighbors(1, 2), 2);
    assert_eq!(game.count_neighbors(5, 5), 0);
    assert_eq!(game.count_neighbors(i32::MAX, i32::MAX), 0);
    assert_eq!(game.count_neighbors(i32::MIN, i32::MIN), 0);
    assert_eq!(game.count_neighbors(i32::MAX, 0), 0);
}

#[test]
fn dead_board_stays_dead() {
    let mut game = ConwaysGame::new([60, 40], 10);
    game.update_board();
    assert_eq!(living(&game), Vec::<(usize, usize)>::new());
    assert_eq!(game.rows(), 4);
    assert_eq!(game.cols(), 6);
}

#[test]
fn lonely_cell_dies() {
    let mut game = board(5, 5, &[(2, 2)]);
    assert_eq!(game.count_neighbors(2, 2), 0);
    game.update_board();
    assert!(!game.is_alive(2, 2));
    assert_eq!(living(&game), Vec::<(usize, usize)>::new());
}

#[test]
fn cell_with_one_neighbor_dies() {
    let mut game = board(5, 5, &[(2, 2), (2, 3)]);
    game.update_board();
    assert_eq!(living(&game), Vec::<(usize, usize)>::new());
}

#[test]
fn cell_with_four_neighbors_dies() {
    let mut game = board(5, 5, &[(2, 2), (1, 2), (3, 2), (2, 1), (2, 3)]);
    assert_eq!(game.count_neighbors(2, 2), 4);
    game.update_board();
    assert!(!game.is_alive(2, 2));
}

#[test]
fn cell_with_two_neighbors_survives() {
    let mut game = board(5, 5, &[(2, 2), (1, 1), (3, 3)]);
    assert_eq!(game.count_neighbors(2, 2), 2);
    game.update_board();
    assert!(game.is_alive(2, 2));
    assert_eq!(living(&game), vec![(2, 2)]);
}

#[test]
fn cell_with_three_neighbors_survives() {
    let mut game = board(5, 5, &[(2, 2), (1, 1), (3, 3), (1, 3)]);
    assert_eq!(game.count_neighbors(2, 2), 3);
    game.update_board();
    assert!(game.is_alive(2, 2));
}

#[test]
fn dead_cell_with_three_neighbors_is_born() {
    let mut game = board(3, 3, &[(0, 0), (0, 2), (2, 1)]);
    assert_eq!(game.count_neighbors(1, 1), 3);
    game.update_board();
    assert_eq!(living(&game), vec![(1, 1)]);
}

#[test]
fn dead_cell_with_two_or_four_neighbors_stays_dead() {
    let mut two = board(3, 3, &[(0, 0), (2, 2)]);
    two.update_board();
    assert!(!two.is_alive(1, 1));
    let mut four = board(3, 3, &[(0, 0), (0, 2), (2, 0), (2, 2)]);
    assert_eq!(four.count_neighbors(1, 1), 4);
    four.update_board();
    assert!(!four.is_alive(1, 1));
}

#[test]
fn block_is_a_still_life() {
    let cells = [(1, 1), (1, 2), (2, 1), (2, 2)];
    let mut game = board(4, 4, &cells);
    game.update_board();
    assert_eq!(living(&game), cells.to_vec());
    game.update_board();
    assert_eq!(living(&game), cells.to_vec());
}

#[test]
fn block_in_a_board_of_its_own_size_is_a_still_life() {
    let cells = [(0, 0), (0, 1), (1, 0), (1, 1)];
    let mut game = board(2, 2, &cells);
    game.update_board();
    assert_eq!(living(&game), cells.to_vec());
}

#[test]
fn every_cell_is_judged_on_the_board_before_the_step() {
    // Judged one by one on a board already half updated, the row of three
    // would lose its left end first and then its middle; judged together,
    // only the ends go and the middle gets company above and below.
    let mut game = board(3, 4, &[(1, 0), (1, 1), (1, 2)]);
    game.update_board();
    assert_eq!(living(&game), vec![(0, 1), (1, 1), (2, 1)]);
}

#[test]
fn glider_moves_one_cell_diagonally_in_four_steps() {
    let mut game = board(6, 6, &[(0, 1), (1, 2), (2, 0), (2, 1), (2, 2)]);
    game.update_board();
    assert_eq!(living(&game), vec![(1, 0), (1, 2), (2, 1), (2, 2), (3, 1)]);
    game.update_board();
    game.update_board();
    game.update_board();
    assert_eq!(living(&game), vec![(1, 2), (2, 3), (3, 1), (3, 2), (3, 3)]);
}

#[test]
fn act_on_count_applies_the_rule_to_one_cell() {
    let mut game = board(3, 3, &[(1, 1)]);
    game.act_on_count(1, 1, 2);
    assert!(game.is_alive(1, 1));
    game.act_on_count(1, 1, 3);
    assert!(game.is_alive(1, 1));
    game.act_on_count(1, 1, 1);
    assert!(!game.is_alive(1, 1));
    game.act_on_count(1, 1, 2);
    assert!(!game.is_alive(1, 1));
    game.act_on_count(1, 1, 3);
    assert!(game.is_alive(1, 1));
    game.act_on_count(1, 1, 4);
    assert!(!game.is_alive(1, 1));
    game.act_on_count(0, 2, 3);
    assert_eq!(living(&game), vec![(0, 2)]);
    game.act_on_count(0, 2, 0);
    assert_eq!(living(&game), Vec::<(usize, usize)>::new());
}

#[test]
fn act_on_count_ignores_a_cell_off_the_board() {
    let mut game = board(3, 3, &[(1, 1)]);
    game.act_on_count(3, 0, 3);
    game.act_on_count(0, 3, 3);
    game.act_on_count(usize::MAX, usize::MAX, 3);
    assert_eq!(living(&game), vec![(1, 1)]);
}
