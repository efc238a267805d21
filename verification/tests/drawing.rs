use termviz::canvas::{Canvas, Cell, CellPos, Color};
use termviz::painter::{paint_dots, Dot};
use termviz::raster::{draw_line, draw_path};

fn drawn_cells(canvas: &Canvas) -> Vec<(i64, i64, char)> {
    let mut cells = Vec::new();
    for (row, line) in canvas.snapshot_for_flush().iter().enumerate() {
        for (col, cell) in line.iter().enumerate() {
            if let Some(c) = cell {
                cells.push((col as i64, row as i64, c.glyph));
            }
        }
    }
    cells
}

fn at(col: i64, row: i64) -> CellPos {
    CellPos { col, row }
}

#[test]
fn new_canvas_is_blank() {
    let canvas = Canvas::new(7, 3);
    assert_eq!(canvas.width(), 7);
    assert_eq!(canvas.height(), 3);
    let grid = canvas.snapshot_for_flush();
    assert_eq!(grid.len(), 3);
    for line in &grid {
        assert_eq!(line.len(), 7);
        for cell in line {
            assert_eq!(*cell, None);
        }
    }
    let empty = Canvas::new(0, 0);
    assert_eq!(empty.snapshot_for_flush().len(), 0);
}

#[test]
fn set_writes_one_cell() {
    let mut canvas = Canvas::new(4, 3);
    canvas.set(1, 2, 'x', Color::Red);
    assert_eq!(canvas.get(1, 2), Some(Cell { glyph: 'x', color: Color::Red }));
    assert_eq!(canvas.get(2, 1), None);
    assert_eq!(drawn_cells(&canvas), vec![(1, 2, 'x')]);
    let grid = canvas.snapshot_for_flush();
    assert_eq!(grid[2][1], Some(Cell { glyph: 'x', color: Color::Red }));
}

#[test]
fn later_write_overwrites_earlier() {
    let mut canvas = Canvas::new(4, 3);
    canvas.set(3, 0, 'a', Color::Blue);
    canvas.set(3, 0, 'b', Color::Green);
    assert_eq!(canvas.get(3, 0), Some(Cell { glyph: 'b', color: Color::Green }));
    assert_eq!(drawn_cells(&canvas), vec![(3, 0, 'b')]);
}

#[test]
fn writes_outside_the_canvas_are_ignored() {
    let mut canvas = Canvas::new(4, 3);
    canvas.set(0, 0, 'k', Color::Default);
    for (col, row) in [
        (-1, 0),
        (0, -1),
        (4, 0),
        (0, 3),
        (4, 3),
        (i64::MAX, 0),
        (0, i64::MIN),
        (i64::MIN, i64::MAX),
        (65_536, 1),
    ] {
        canvas.set(col, row, '!', Color::Red);
        assert_eq!(canvas.get(col, row), None);
    }
    assert_eq!(drawn_cells(&canvas), vec![(0, 0, 'k')]);
    let mut nothing = Canvas::new(0, 5);
    nothing.set(0, 0, '!', Color::Red);
    assert_eq!(drawn_cells(&nothing), vec![]);
}

#[test]
fn clear_wipes_everything() {
    let mut canvas = Canvas::new(5, 5);
    for i in 0..5 {
        canvas.set(i, i, '*', Color::White);
    }
    assert_eq!(drawn_cells(&canvas).len(), 5);
    canvas.clear();
    assert_eq!(drawn_cells(&canvas), vec![]);
    assert_eq!((canvas.width(), canvas.height()), (5, 5));
    canvas.set(4, 4, 'z', Color::Cyan);
    assert_eq!(drawn_cells(&canvas), vec![(4, 4, 'z')]);
}

#[test]
fn line_visits_the_nearest_cells() {
    let mut canvas = Canvas::new(6, 4);
    draw_line(&mut canvas, at(0, 0), at(4, 2), '#', Color::White);
    assert_eq!(
        drawn_cells(&canvas),
        vec![(0, 0, '#'), (1, 1, '#'), (2, 1, '#'), (3, 2, '#'), (4, 2, '#')]
    );
    let mut back = Canvas::new(6, 4);
    draw_line(&mut back, at(4, 2), at(0, 0), '#', Color::White);
    assert_eq!(drawn_cells(&back), drawn_cells(&canvas));
}

#[test]
fn steep_line_visits_one_cell_per_row() {
    let mut canvas = Canvas::new(4, 7);
    draw_line(&mut canvas, at(1, 6), at(3, 0), '|', Color::White);
    assert_eq!(
        drawn_cells(&canvas),
        vec![
            (3, 0, '|'),
            (3, 1, '|'),
            (2, 2, '|'),
            (2, 3, '|'),
            (2, 4, '|'),
            (1, 5, '|'),
            (1, 6, '|')
        ]
    );
}

#[test]
fn straight_and_diagonal_lines() {
    let mut canvas = Canvas::new(5, 5);
    draw_line(&mut canvas, at(0, 2), at(4, 2), '-', Color::White);
    assert_eq!(
        drawn_cells(&canvas),
        vec![(0, 2, '-'), (1, 2, '-'), (2, 2, '-'), (3, 2, '-'), (4, 2, '-')]
    );
    canvas.clear();
    draw_line(&mut canvas, at(4, 0), at(0, 4), '/', Color::White);
    assert_eq!(
        drawn_cells(&canvas),
        vec![(4, 0, '/'), (3, 1, '/'), (2, 2, '/'), (1, 3, '/'), (0, 4, '/')]
    );
    canvas.clear();
    draw_line(&mut canvas, at(2, 2), at(2, 2), '.', Color::White);
    assert_eq!(drawn_cells(&canvas), vec![(2, 2, '.')]);
}

#[test]
fn line_has_no_gaps() {
    for (a, b) in [
        (at(0, 0), at(19, 7)),
        (at(19, 0), at(0, 13)),
        (at(3, 19), at(11, 0)),
        (at(0, 5), at(19, 6)),
        (at(7, 0), at(8, 19)),
    ] {
        let mut canvas = Canvas::new(20, 20);
        draw_line(&mut canvas, a, b, '#', Color::White);
        let cells = drawn_cells(&canvas);
        let steps = std::cmp::max((b.col - a.col).abs(), (b.row - a.row).abs());
        assert_eq!(cells.len() as i64, steps + 1);
        assert!(cells.contains(&(a.col, a.row, '#')));
        assert!(cells.contains(&(b.col, b.row, '#')));
        for &(col, row, _) in &cells {
            if (col, row) == (b.col, b.row) {
                continue;
            }
            assert!(cells.iter().any(|&(c, r, _)| (c, r) != (col, row)
                && (c - col).abs() <= 1
                && (r - row).abs() <= 1
                && ((c - b.col).abs() < (col - b.col).abs()
                    || (r - b.row).abs() < (row - b.row).abs())));
        }
    }
}

#[test]
fn line_is_clipped_at_the_canvas() {
    let mut canvas = Canvas::new(4, 4);
    draw_line(&mut canvas, at(-2, 1), at(6, 1), '-', Color::White);
    assert_eq!(drawn_cells(&canvas), vec![(0, 1, '-'), (1, 1, '-'), (2, 1, '-'), (3, 1, '-')]);
    canvas.clear();
    draw_line(&mut canvas, at(-10, -10), at(-1, -5), '-', Color::White);
    assert_eq!(drawn_cells(&canvas), vec![]);
    canvas.clear();
    draw_line(&mut canvas, at(10, 0), at(20, 3), '-', Color::White);
    assert_eq!(drawn_cells(&canvas), vec![]);
}

#[test]
fn very_long_line_is_drawn_at_once() {
    let far = 1_000_000_000_000;
    let mut canvas = Canvas::new(5, 5);
    draw_line(&mut canvas, at(-far, -far), at(far, far), '\\', Color::White);
    assert_eq!(
        drawn_cells(&canvas),
        vec![(0, 0, '\\'), (1, 1, '\\'), (2, 2, '\\'), (3, 3, '\\'), (4, 4, '\\')]
    );
    canvas.clear();
    draw_line(&mut canvas, at(2, far), at(2, -far), '|', Color::White);
    assert_eq!(drawn_cells(&canvas).len(), 5);
    canvas.clear();
    draw_line(&mut canvas, at(-far, 0), at(far, 4), '-', Color::White);
    let cells = drawn_cells(&canvas);
    assert_eq!(cells.len(), 5);
    for (_, row, _) in cells {
        assert_eq!(row, 2);
    }
}

#[test]
fn open_and_closed_paths() {
    let corners = vec![at(1, 1), at(4, 1), at(4, 3)];
    let mut open = Canvas::new(6, 5);
    draw_path(&mut open, &corners, false, 'o', Color::White);
    assert_eq!(
        drawn_cells(&open),
        vec![(1, 1, 'o'), (2, 1, 'o'), (3, 1, 'o'), (4, 1, 'o'), (4, 2, 'o'), (4, 3, 'o')]
    );
    let mut closed = Canvas::new(6, 5);
    draw_path(&mut closed, &corners, true, 'c', Color::White);
    assert_eq!(
        drawn_cells(&closed),
        vec![
            (1, 1, 'c'),
            (2, 1, 'c'),
            (3, 1, 'c'),
            (4, 1, 'c'),
            (2, 2, 'c'),
            (3, 2, 'c'),
            (4, 2, 'c'),
            (4, 3, 'c')
        ]
    );
}

#[test]
fn short_paths() {
    let mut canvas = Canvas::new(3, 3);
    draw_path(&mut canvas, &vec![], true, 'x', Color::White);
    assert_eq!(drawn_cells(&canvas), vec![]);
    draw_path(&mut canvas, &vec![at(1, 1)], false, 'x', Color::White);
    assert_eq!(drawn_cells(&canvas), vec![]);
    draw_path(&mut canvas, &vec![at(1, 1)], true, 'x', Color::White);
    assert_eq!(drawn_cells(&canvas), vec![(1, 1, 'x')]);
}

fn dot(col: i64, row: i64, depth: u128, glyph: char) -> Dot {
    Dot { at: at(col, row), depth, cell: Cell { glyph, color: Color::White } }
}

#[test]
fn nearest_dot_shows() {
    let mut canvas = Canvas::new(3, 3);
    canvas.set(0, 0, 'u', Color::White);
    canvas.set(1, 1, 'u', Color::White);
    paint_dots(
        &mut canvas,
        &vec![
            dot(1, 1, 50, 'a'),
            dot(1, 1, 10, 'b'),
            dot(1, 1, 30, 'c'),
            dot(2, 2, 7, 'd'),
            dot(2, 2, 9, 'e'),
            dot(5, 5, 1, 'f'),
            dot(-1, 0, 1, 'g'),
        ],
    );
    assert_eq!(drawn_cells(&canvas), vec![(0, 0, 'u'), (1, 1, 'b'), (2, 2, 'd')]);
}

#[test]
fn later_dot_shows_among_equally_near() {
    let mut canvas = Canvas::new(2, 1);
    paint_dots(&mut canvas, &vec![dot(0, 0, 5, 'a'), dot(0, 0, 5, 'b'), dot(1, 0, 0, 'c')]);
    assert_eq!(drawn_cells(&canvas), vec![(0, 0, 'b'), (1, 0, 'c')]);
    paint_dots(&mut canvas, &vec![dot(0, 0, u128::MAX, 'z')]);
    assert_eq!(drawn_cells(&canvas), vec![(0, 0, 'z'), (1, 0, 'c')]);
}
