use game_of_life::life::GameOfLife;

fn grid_from(cells: Vec<Vec<bool>>) -> GameOfLife {
    GameOfLife::from_cells(cells).expect("rectangular cells")
}

fn cells_of(g: &GameOfLife) -> Vec<Vec<bool>> {
    let mut out: Vec<Vec<bool>> = Vec::new();
    for i in 0..g.height() {
        let mut row: Vec<bool> = Vec::new();
        for j in 0..g.width() {
            row.push(g.get(i, j));
        }
        out.push(row);
    }
    out
}

#[test]
fn new_has_requested_dimensions() {
    let g = GameOfLife::new(30, 10);
    assert_eq!(g.width(), 30);
    assert_eq!(g.height(), 10);
}

#[test]
fn next_keeps_dimensions() {
    let mut g = GameOfLife::new(7, 4);
    g.next();
    assert_eq!(g.width(), 7);
    assert_eq!(g.height(), 4);
    let mut h = grid_from(vec![vec![true, false], vec![false, true], vec![true, true]]);
    h.next();
    assert_eq!(h.width(), 2);
    assert_eq!(h.height(), 3);
}

#[test]
fn from_cells_keeps_the_cells() {
    let cells = vec![vec![true, false, true], vec![false, true, false]];
    let g = grid_from(cells.clone());
    assert_eq!(g.width(), 3);
    assert_eq!(g.height(), 2);
    assert_eq!(cells_of(&g), cells);
}

#[test]
fn from_cells_rejects_no_rows() {
    assert!(GameOfLife::from_cells(Vec::new()).is_none());
}

#[test]
fn from_cells_rejects_empty_rows() {
    assert!(GameOfLife::from_cells(vec![Vec::new(), Vec::new()]).is_none());
}

#[test]
fn from_cells_rejects_ragged_rows() {
    let cells = vec![vec![true, false], vec![true], vec![false, false]];
    assert!(GameOfLife::from_cells(cells).is_none());
}

#[test]
fn interior_count_sees_all_eight() {
    let g = grid_from(vec![vec![true; 3]; 3]);
    assert_eq!(g.count_neighbors(1, 1), 8);
}

#[test]
fn corner_count_sees_exactly_three() {
    let g = grid_from(vec![vec![true; 2]; 2]);
    assert_eq!(g.count_neighbors(0, 0), 3);
    let h = grid_from(vec![vec![false, true], vec![true, true]]);
    assert_eq!(h.count_neighbors(0, 0), 3);
    assert_eq!(h.count_neighbors(1, 1), 2);
}

#[test]
fn blinker_flips_from_vertical_to_horizontal() {
    let f = false;
    let t = true;
    let mut g = grid_from(vec![vec![f, t, f], vec![f, t, f], vec![f, t, f]]);
    g.next();
    let expected = vec![vec![f, f, f], vec![t, t, t], vec![f, f, f]];
    assert_eq!(cells_of(&g), expected);
}

#[test]
fn empty_grid_stays_empty() {
    let mut g = grid_from(vec![vec![false; 5]; 4]);
    g.next();
    assert_eq!(cells_of(&g), vec![vec![false; 5]; 4]);
}

#[test]
fn isolated_cell_dies() {
    let f = false;
    let t = true;
    let mut g = grid_from(vec![vec![f, f, f], vec![f, t, f], vec![f, f, f]]);
    g.next();
    assert_eq!(cells_of(&g), vec![vec![f; 3]; 3]);
    let mut lone = grid_from(vec![vec![t]]);
    lone.next();
    assert_eq!(cells_of(&lone), vec![vec![f]]);
}

#[test]
fn block_is_a_still_life() {
    let block = vec![vec![true, true], vec![true, true]];
    let mut g = grid_from(block.clone());
    g.next();
    assert_eq!(cells_of(&g), block);
}

#[test]
fn render_draws_each_cell_and_a_trailing_blank_line() {
    let g = grid_from(vec![vec![true, false, true], vec![false, true, false]]);
    assert_eq!(g.render(), "#.#\n.#.\n\n");
}

#[test]
fn render_has_height_lines_of_width_glyphs() {
    let g = GameOfLife::new(30, 10);
    let text = g.render();
    let lines: Vec<&str> = text.split('\n').collect();
    // 10 grid lines, the trailing blank line, and the empty piece after the
    // final newline.
    assert_eq!(lines.len(), 12);
    for i in 0..10 {
        assert_eq!(lines[i].chars().count(), 30);
        assert!(lines[i].chars().all(|c| c == '#' || c == '.'));
    }
    assert_eq!(lines[10], "");
    assert_eq!(lines[11], "");
}
