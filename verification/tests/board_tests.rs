use tetris_core::Block;
use tetris_core::BlockCommand;
use tetris_core::Board;
use tetris_core::FallingBlock;
use tetris_core::CELLS_HIGH;
use tetris_core::CELLS_WIDE;
use tetris_core::empty_cells;

fn empty_board() -> Board {
    Board { cells: empty_cells(), falling_block: None }
}

fn falling(block: Block, x: usize, y: usize) -> Option<FallingBlock> {
    Some(FallingBlock { block, x, y })
}

#[test]
fn it_works() {
    assert_eq!(2 + 2, 4);
}

#[test]
fn step_move_down() {
    let mut board = empty_board();
    board.falling_block = falling(Block::T, 3, 10);
    let alive = board.step();
    assert!(alive);
    assert_eq!(board.falling_block, falling(Block::T, 3, 9));
    assert_eq!(board.cells, empty_cells());
}

#[test]
fn step_join_cells() {
    // A T-piece resting on a settled cell: the next tick merges it.
    let mut board = empty_board();
    board.cells[4][5] = true;
    board.falling_block = falling(Block::T, 3, 6);
    let alive = board.step();
    assert!(alive);
    assert_eq!(board.falling_block, None);
    let mut expected = empty_cells();
    expected[4][5] = true;
    expected[4][6] = true;
    expected[3][7] = true;
    expected[4][7] = true;
    expected[5][7] = true;
    assert_eq!(board.cells, expected);
}

#[test]
fn step_lose_game() {
    // Every spawn footprint overlaps the filled spawn row: game over.
    let mut board = empty_board();
    for x in 0..CELLS_WIDE {
        board.cells[x][CELLS_HIGH - 4] = true;
    }
    let alive = board.step();
    assert!(!alive);
    assert_eq!(board.falling_block, None);
}

#[test]
fn step_new_falling() {
    let mut board = empty_board();
    let alive = board.step();
    assert!(alive);
    let fb = board.falling_block.expect("a piece spawns on an empty board");
    assert_eq!(fb.x, CELLS_WIDE / 2);
    assert_eq!(fb.y, CELLS_HIGH - 4);
    assert_eq!(board.cells, empty_cells());
}

#[test]
fn step_bottom() {
    // A piece on the bottom row can descend no further and settles.
    let mut board = empty_board();
    board.falling_block = falling(Block::T, 3, 0);
    let alive = board.step();
    assert!(alive);
    assert_eq!(board.falling_block, None);
    let mut expected = empty_cells();
    expected[4][0] = true;
    expected[3][1] = true;
    expected[4][1] = true;
    expected[5][1] = true;
    assert_eq!(board.cells, expected);
}

#[test]
fn step_line_bottom() {
    // Row 0 is full except one column; a vertical I-piece drops in, the row
    // clears, and everything above shifts down by one.
    let mut board = empty_board();
    for x in 0..CELLS_WIDE {
        if x != 4 {
            board.cells[x][0] = true;
        }
    }
    board.falling_block = falling(Block::I, 4, 1);
    let alive = board.step();
    assert!(alive);
    assert_eq!(board.falling_block, falling(Block::I, 4, 0));
    let alive = board.step();
    assert!(alive);
    assert_eq!(board.falling_block, None);
    let mut expected = empty_cells();
    expected[4][0] = true;
    expected[4][1] = true;
    expected[4][2] = true;
    for y in 0..CELLS_HIGH {
        for x in 0..CELLS_WIDE {
            assert_eq!(board.cells[x][y], expected[x][y], "cell ({}, {})", x, y);
        }
    }
}

#[test]
fn step_line_mid() {
    // A full row in the middle clears; rows below stay, rows above shift.
    let mut board = empty_board();
    for x in 0..CELLS_WIDE {
        if x != 4 {
            board.cells[x][2] = true;
        }
    }
    board.cells[4][1] = true;
    board.falling_block = falling(Block::I, 4, 2);
    let alive = board.step();
    assert!(alive);
    assert_eq!(board.falling_block, None);
    let mut expected = empty_cells();
    expected[4][1] = true;
    expected[4][2] = true;
    expected[4][3] = true;
    expected[4][4] = true;
    assert_eq!(board.cells, expected);
}

#[test]
fn step_two_lines() {
    // An O-piece completes rows 0 and 1 at once; both clear.
    let mut board = empty_board();
    for x in 0..CELLS_WIDE {
        if x != 4 && x != 5 {
            board.cells[x][0] = true;
            board.cells[x][1] = true;
        }
    }
    board.falling_block = falling(Block::O, 4, 0);
    let alive = board.step();
    assert!(alive);
    assert_eq!(board.falling_block, None);
    assert_eq!(board.cells, empty_cells());
}

#[test]
fn input_left() {
    let mut board = empty_board();
    board.falling_block = falling(Block::T, 3, 5);
    board.input(BlockCommand::MovL);
    assert_eq!(board.falling_block, falling(Block::T, 2, 5));
    assert_eq!(board.cells, empty_cells());
}

#[test]
fn input_left_over_bounds() {
    // The piece's leftmost occupied column is already 0: the move is ignored.
    let mut board = empty_board();
    board.falling_block = falling(Block::T, 0, 5);
    board.input(BlockCommand::MovL);
    assert_eq!(board.falling_block, falling(Block::T, 0, 5));
    assert_eq!(board.cells, empty_cells());
}

#[test]
fn input_left_into_block() {
    // The translated piece would overlap a settled cell: the move is ignored.
    let mut board = empty_board();
    board.cells[1][6] = true;
    board.falling_block = falling(Block::T, 2, 5);
    board.input(BlockCommand::MovL);
    assert_eq!(board.falling_block, falling(Block::T, 2, 5));
}

#[test]
fn input_right() {
    let mut board = empty_board();
    board.falling_block = falling(Block::T, 3, 5);
    board.input(BlockCommand::MovR);
    assert_eq!(board.falling_block, falling(Block::T, 4, 5));
}

#[test]
fn input_right_over_bounds() {
    // The T-piece at anchor 5 already occupies the last column.
    let mut board = empty_board();
    board.falling_block = falling(Block::T, 5, 5);
    board.input(BlockCommand::MovR);
    assert_eq!(board.falling_block, falling(Block::T, 5, 5));
}

#[test]
fn input_right_nearly_over_bounds() {
    // One column short of the boundary: the move still fits.
    let mut board = empty_board();
    board.falling_block = falling(Block::T, 4, 5);
    board.input(BlockCommand::MovR);
    assert_eq!(board.falling_block, falling(Block::T, 5, 5));
}

#[test]
fn input_right_into_block() {
    let mut board = empty_board();
    board.cells[6][6] = true;
    board.falling_block = falling(Block::T, 3, 5);
    board.input(BlockCommand::MovR);
    assert_eq!(board.falling_block, falling(Block::T, 3, 5));
}

#[test]
fn input_without_falling_piece_is_a_no_op() {
    let mut board = empty_board();
    board.cells[2][3] = true;
    let before_cells = board.cells;
    board.input(BlockCommand::MovL);
    assert_eq!(board.cells, before_cells);
    assert_eq!(board.falling_block, None);
    board.input(BlockCommand::MovR);
    assert_eq!(board.cells, before_cells);
    assert_eq!(board.falling_block, None);
}

#[test]
fn input_rotation_commands_leave_the_piece() {
    let mut board = empty_board();
    board.falling_block = falling(Block::S, 3, 5);
    board.input(BlockCommand::RotL);
    assert_eq!(board.falling_block, falling(Block::S, 3, 5));
    board.input(BlockCommand::RotR);
    assert_eq!(board.falling_block, falling(Block::S, 3, 5));
}

#[test]
fn spawn_places_the_canonical_anchor() {
    let mut board = empty_board();
    assert!(board.spawn(Block::T));
    assert_eq!(board.falling_block, falling(Block::T, CELLS_WIDE / 2, CELLS_HIGH - 4));
    assert_eq!(board.cells, empty_cells());
}

#[test]
fn spawn_fails_on_overlap() {
    // The spawn anchor's footprint overlaps pre-filled top rows.
    let mut board = empty_board();
    board.cells[5][CELLS_HIGH - 4] = true;
    assert!(!board.spawn(Block::T));
    assert_eq!(board.falling_block, None);
}

#[test]
fn stepping_a_spawned_t_piece_never_loses_while_the_top_stays_clear() {
    // As long as no settled cell reaches the spawn rows, stepping with no
    // input settles pieces and spawns new ones without a game over.
    let mut board = empty_board();
    assert!(board.spawn(Block::T));
    for _ in 0..CELLS_WIDE * CELLS_HIGH {
        let mut top_clear = true;
        for x in 0..CELLS_WIDE {
            for y in (CELLS_HIGH - 4)..CELLS_HIGH {
                if board.cells[x][y] {
                    top_clear = false;
                }
            }
        }
        let alive = board.step();
        if top_clear {
            assert!(alive);
        }
    }
}

#[test]
fn render_overlays_the_falling_piece() {
    let mut board = empty_board();
    board.cells[0][0] = true;
    board.falling_block = falling(Block::O, 3, 2);
    let view = board.render();
    let mut expected = empty_cells();
    expected[0][0] = true;
    expected[3][2] = true;
    expected[4][2] = true;
    expected[3][3] = true;
    expected[4][3] = true;
    assert_eq!(view, expected);
    // Rendering composes a view without mutating the board.
    let mut unchanged = empty_cells();
    unchanged[0][0] = true;
    assert_eq!(board.cells, unchanged);
    assert_eq!(board.falling_block, falling(Block::O, 3, 2));
}
