use tetris_thinker::board::PieceSet;
use tetris_thinker::metrics::{bumpiness, cavities_and_overhangs, covered_cells, find_well, max_height};
use tetris_thinker::Board;

fn empty_field() -> Vec<Vec<bool>> {
    vec![vec![false; 10]; 40]
}

fn no_bag() -> PieceSet {
    PieceSet { i: false, o: false, t: false, s: false, z: false, j: false, l: false }
}

fn board_from(field: Vec<Vec<bool>>) -> Board {
    Board::new_with_state(field, no_bag(), None, false, 0).expect("valid field")
}

#[test]
fn bumpiness_flat_board() {
    // both accumulators start at -1; a flat board adds nothing, and the
    // absolute-value correction turns -1 into 1
    let board = board_from(empty_field());
    let well = find_well(&board);
    assert_eq!(well, 0);
    assert_eq!(bumpiness(&board, well), (1, 1));
}

#[test]
fn bumpiness_staircase_board() {
    // column x has height x: eight unit steps after the degenerate first
    // comparison, on top of the -1 start
    let mut field = empty_field();
    for x in 0..10usize {
        for y in 0..x {
            field[y][x] = true;
        }
    }
    let board = board_from(field);
    let well = find_well(&board);
    assert_eq!(well, 0);
    assert_eq!(bumpiness(&board, well), (7, 7));
}

#[test]
fn well_prefers_lowest_index_of_equal_columns() {
    let mut field = empty_field();
    // columns 0 and 5 raised; all others tie at zero, the lowest index wins
    field[0][0] = true;
    field[0][5] = true;
    let board = board_from(field);
    assert_eq!(find_well(&board), 1);

    let mut field = empty_field();
    field[0][3] = true;
    let board = board_from(field);
    assert_eq!(find_well(&board), 0);
}

#[test]
fn max_height_reads_tallest_column() {
    let mut field = empty_field();
    field[6][2] = true;
    field[3][7] = true;
    let board = board_from(field);
    assert_eq!(max_height(&board), 7);
}

#[test]
fn single_buried_hole_is_a_cavity() {
    let mut field = empty_field();
    // column 0 occupied at row 1 only: the cell below it is a hole with no
    // shielding neighbours
    field[1][0] = true;
    let board = board_from(field);
    assert_eq!(cavities_and_overhangs(&board), (1, 0));
}

#[test]
fn shielded_hole_is_an_overhang() {
    let mut field = empty_field();
    // column 2 occupied at row 2: holes at rows 0 and 1; the row-1 hole is
    // shielded by the low columns 0 and 1, the row-0 hole is not
    field[2][2] = true;
    let board = board_from(field);
    assert_eq!(cavities_and_overhangs(&board), (1, 1));
}

#[test]
fn covered_cells_count_buried_depth() {
    let mut field = empty_field();
    // column 0 occupied at rows 3 and 4: empty rows 0..3 scanned up to two
    // rows below the top, each charged its capped burial depth
    field[3][0] = true;
    field[4][0] = true;
    let board = board_from(field);
    assert_eq!(covered_cells(&board), (4 + 3 + 2, 16 + 9 + 4));
}

#[test]
fn covered_cells_depth_is_capped_at_six() {
    let mut field = empty_field();
    // a single block at row 9: the bottom hole is 9 deep but charged 6
    field[9][0] = true;
    let board = board_from(field);
    // depths from row 0 up to row 7: min(6, 9-y) = 6,6,6,6,5,4,3,2
    assert_eq!(covered_cells(&board).0, 6 + 6 + 6 + 6 + 5 + 4 + 3 + 2);
}
