use taquin::Cell;
use taquin::Direction;
use taquin::Grid;
use taquin::GridError;
use taquin::MoveOutcome;
use taquin::TaquinCoord;
use taquin::TaquinSide;
use taquin::resolve;

fn coord(col: usize, line: usize) -> TaquinCoord {
    TaquinCoord { line, col }
}

/// A 3x3 board whose content handles are 10..=18, row-major.
fn grid_3x3() -> Grid {
    let contents: Vec<usize> = (10..19).collect();
    Grid::new(3, 3, contents).unwrap()
}

fn rank_at(g: &Grid, col: usize, line: usize) -> usize {
    match g.tile_at(coord(col, line)) {
        Ok(c) => c.rank,
        Err(_) => panic!("coordinate should be in bounds"),
    }
}

#[test]
fn defaults_match_the_classic_board() {
    let s = TaquinSide::default();
    assert_eq!(s.num_col, 5);
    assert_eq!(s.num_line, 5);
    let c = TaquinCoord::default();
    assert_eq!(c.col, 0);
    assert_eq!(c.line, 0);
    let cell = Cell::default();
    assert_eq!(cell.content, 0);
    assert!(cell.is_void);
    assert_eq!(cell.rank, 0);
}

#[test]
fn new_assigns_ranks_row_major_and_void_last() {
    let g = grid_3x3();
    let mut expected_rank = 0;
    for line in 1..=3 {
        for col in 1..=3 {
            expected_rank += 1;
            let tile = g.tile_at(coord(col, line)).unwrap();
            assert_eq!(tile.rank, expected_rank);
            assert_eq!(tile.content, 9 + expected_rank);
            assert_eq!(tile.is_void, col == 3 && line == 3);
        }
    }
    let v = g.void_coordinate();
    assert_eq!(v.col, 3);
    assert_eq!(v.line, 3);
    assert!(!g.scrambled);
}

#[test]
fn new_rejects_zero_and_mismatched_dimensions() {
    assert_eq!(
        Grid::new(0, 3, Vec::new()).unwrap_err(),
        GridError::InvalidDimensions
    );
    assert_eq!(
        Grid::new(3, 0, Vec::new()).unwrap_err(),
        GridError::InvalidDimensions
    );
    let eight: Vec<usize> = (0..8).collect();
    assert_eq!(
        Grid::new(3, 3, eight).unwrap_err(),
        GridError::InvalidDimensions
    );
    let ten: Vec<usize> = (0..10).collect();
    assert_eq!(
        Grid::new(3, 3, ten).unwrap_err(),
        GridError::InvalidDimensions
    );
}

#[test]
fn tile_at_rejects_out_of_bounds() {
    let g = grid_3x3();
    for &(col, line) in &[(0, 1), (1, 0), (4, 1), (1, 4), (0, 0), (4, 4)] {
        match g.tile_at(coord(col, line)) {
            Ok(_) => panic!("coordinate off the board must be refused"),
            Err(e) => assert_eq!(e, GridError::OutOfBounds),
        }
    }
}

#[test]
fn resolve_rejects_misaligned_activation() {
    // activating (1,1) with the void at (3,3): aligned on neither axis
    assert_eq!(resolve(coord(1, 1), coord(3, 3)), MoveOutcome::NoOp);
    assert_eq!(resolve(coord(2, 1), coord(3, 3)), MoveOutcome::NoOp);
}

#[test]
fn resolve_on_the_void_is_noop() {
    assert_eq!(resolve(coord(3, 3), coord(3, 3)), MoveOutcome::NoOp);
}

#[test]
fn resolve_picks_direction_and_distance() {
    let void = coord(3, 3);
    assert_eq!(
        resolve(coord(1, 3), void),
        MoveOutcome::Shift(Direction::Left, 2)
    );
    assert_eq!(
        resolve(coord(2, 3), void),
        MoveOutcome::Shift(Direction::Left, 1)
    );
    assert_eq!(
        resolve(coord(3, 1), void),
        MoveOutcome::Shift(Direction::Up, 2)
    );
    let void = coord(1, 1);
    assert_eq!(
        resolve(coord(3, 1), void),
        MoveOutcome::Shift(Direction::Right, 2)
    );
    assert_eq!(
        resolve(coord(1, 3), void),
        MoveOutcome::Shift(Direction::Down, 2)
    );
}

#[test]
fn shift_left_slides_the_run_toward_the_void() {
    let mut g = grid_3x3();
    let outcome = g.activate(coord(1, 3)).unwrap();
    assert_eq!(outcome, MoveOutcome::Shift(Direction::Left, 2));
    // the void travelled to the activated cell
    let v = g.void_coordinate();
    assert_eq!((v.col, v.line), (1, 3));
    assert!(g.tile_at(coord(1, 3)).unwrap().is_void);
    // the two tiles of the run each moved one step toward the old void
    assert_eq!(rank_at(&g, 1, 3), 9); // the void tile's rank
    assert_eq!(rank_at(&g, 2, 3), 7);
    assert_eq!(rank_at(&g, 3, 3), 8);
    // the other six tiles are untouched
    assert_eq!(rank_at(&g, 1, 1), 1);
    assert_eq!(rank_at(&g, 2, 1), 2);
    assert_eq!(rank_at(&g, 3, 1), 3);
    assert_eq!(rank_at(&g, 1, 2), 4);
    assert_eq!(rank_at(&g, 2, 2), 5);
    assert_eq!(rank_at(&g, 3, 2), 6);
    // contents travel with their tiles
    assert_eq!(g.tile_at(coord(2, 3)).unwrap().content, 16);
    assert_eq!(g.tile_at(coord(3, 3)).unwrap().content, 17);
}

#[test]
fn four_direction_cycle() {
    let mut g = grid_3x3();
    assert_eq!(
        g.activate(coord(3, 1)).unwrap(),
        MoveOutcome::Shift(Direction::Up, 2)
    );
    assert_eq!(
        g.activate(coord(1, 1)).unwrap(),
        MoveOutcome::Shift(Direction::Left, 2)
    );
    assert_eq!(
        g.activate(coord(1, 3)).unwrap(),
        MoveOutcome::Shift(Direction::Down, 2)
    );
    assert_eq!(
        g.activate(coord(3, 3)).unwrap(),
        MoveOutcome::Shift(Direction::Right, 2)
    );
    let v = g.void_coordinate();
    assert_eq!((v.col, v.line), (3, 3));
    let expected = [
        ((1, 1), 4),
        ((2, 1), 1),
        ((3, 1), 2),
        ((1, 2), 7),
        ((2, 2), 5),
        ((3, 2), 3),
        ((1, 3), 8),
        ((2, 3), 6),
        ((3, 3), 9),
    ];
    for &((col, line), rank) in &expected {
        assert_eq!(rank_at(&g, col, line), rank);
    }
    assert!(g.tile_at(coord(3, 3)).unwrap().is_void);
}

#[test]
fn noop_leaves_every_tile_unchanged() {
    let mut g = grid_3x3();
    let before: Vec<Cell> = g.cells.clone();
    let void_before = g.void_coordinate();
    let outcome = g.activate(coord(1, 1)).unwrap();
    assert_eq!(outcome, MoveOutcome::NoOp);
    assert_eq!(g.cells, before);
    let v = g.void_coordinate();
    assert_eq!((v.col, v.line), (void_before.col, void_before.line));
    assert!(!g.scrambled);
}

#[test]
fn activate_rejects_out_of_bounds() {
    let mut g = grid_3x3();
    let before: Vec<Cell> = g.cells.clone();
    match g.activate(coord(4, 3)) {
        Ok(_) => panic!("coordinate off the board must be refused"),
        Err(e) => assert_eq!(e, GridError::OutOfBounds),
    }
    assert_eq!(g.cells, before);
}

#[test]
fn swap_exchanges_tiles_and_tracks_the_void() {
    let mut g = grid_3x3();
    // swap two ordinary tiles
    g.swap(coord(1, 1), coord(2, 2));
    assert_eq!(rank_at(&g, 1, 1), 5);
    assert_eq!(rank_at(&g, 2, 2), 1);
    let v = g.void_coordinate();
    assert_eq!((v.col, v.line), (3, 3));
    // swap the void with a tile: the cached coordinate follows it
    g.swap(coord(3, 3), coord(1, 1));
    let v = g.void_coordinate();
    assert_eq!((v.col, v.line), (1, 1));
    assert!(g.tile_at(coord(1, 1)).unwrap().is_void);
    assert!(!g.tile_at(coord(3, 3)).unwrap().is_void);
    assert_eq!(rank_at(&g, 3, 3), 5);
}

#[test]
fn moves_preserve_the_invariant() {
    let mut g = grid_3x3();
    let clicks = [
        (1, 3),
        (1, 1),
        (3, 1),
        (3, 3),
        (2, 3),
        (2, 1),
        (1, 1),
        (1, 2),
    ];
    for &(col, line) in &clicks {
        g.activate(coord(col, line)).unwrap();
        assert_invariant(&g);
    }
}

fn assert_invariant(g: &Grid) {
    // exactly one void, at the cached coordinate
    let voids: Vec<usize> = g
        .cells
        .iter()
        .enumerate()
        .filter(|(_, c)| c.is_void)
        .map(|(i, _)| i)
        .collect();
    assert_eq!(voids.len(), 1);
    let v = g.void_coordinate();
    assert_eq!(voids[0], (v.line - 1) * g.sides.num_col + (v.col - 1));
    // the ranks are exactly 1..=size
    let mut ranks: Vec<usize> = g.cells.iter().map(|c| c.rank).collect();
    ranks.sort();
    let expected: Vec<usize> = (1..=g.cells.len()).collect();
    assert_eq!(ranks, expected);
}
