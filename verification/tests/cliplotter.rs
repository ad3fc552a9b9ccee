use warehousebot::cliplotter::{draw_warehouse, min_max_xy, output_gridsize};
use warehousebot::warehouse::{Cell, CellGrid, Coords2D};
use warehousebot::Direction;

fn warehouse_1() -> CellGrid {
    let mut cg = CellGrid::new();
    let coords = vec![
        Coords2D { x: 1, y: 0 },
        Coords2D { x: 2, y: 0 },
        Coords2D { x: 3, y: 0 },
        Coords2D { x: 0, y: 1 },
        Coords2D { x: 1, y: 1 },
        Coords2D { x: 2, y: 1 },
        Coords2D { x: 0, y: 2 },
        Coords2D { x: 1, y: 2 },
        Coords2D { x: 2, y: 2 },
        Coords2D { x: 3, y: 2 },
        Coords2D { x: 4, y: 2 },
    ];
    for pos in coords {
        cg.insert(pos.clone(), Cell::default());
    }
    cg
}

fn warehouse_2() -> CellGrid {
    let mut cg = CellGrid::new();
    // Cell 1
    let pos = Coords2D { x: -2, y: 2 };
    let mut c = Cell::with_id("A".to_string());
    _ = c.add_wall(Direction::WEST);
    _ = c.add_wall(Direction::NORTH);
    _ = c.add_wall(Direction::SOUTH);
    cg.insert(pos, c);
    // Cell 2
    let pos = Coords2D { x: -1, y: 2 };
    let mut c = Cell::with_id("B".to_string());
    _ = c.add_wall(Direction::NORTH);
    _ = c.add_wall(Direction::SOUTH);
    cg.insert(pos, c);
    // Cell 3
    let pos = Coords2D { x: 0, y: 1 };
    let mut c = Cell::with_id("C".to_string());
    _ = c.add_wall(Direction::NORTH);
    _ = c.add_wall(Direction::WEST);
    cg.insert(pos, c);
    // Cell 4
    let pos = Coords2D { x: 0, y: 2 };
    let c = Cell::with_id("D".to_string());
    cg.insert(pos, c);
    // Cell 5
    let pos = Coords2D { x: 0, y: 3 };
    let mut c = Cell::with_id("E".to_string());
    _ = c.add_wall(Direction::WEST);
    _ = c.add_wall(Direction::SOUTH);
    cg.insert(pos, c);
    // Cell 6
    let pos = Coords2D { x: 1, y: 0 };
    let mut c = Cell::with_id("F".to_string());
    _ = c.add_wall(Direction::NORTH);
    _ = c.add_wall(Direction::WEST);
    cg.insert(pos, c);
    // Cell 7
    let pos = Coords2D { x: 1, y: 1 };
    let mut c = Cell::with_id("G".to_string());
    _ = c.add_wall(Direction::SOUTH);
    _ = c.add_wall(Direction::WEST);
    cg.insert(pos, c);
    // Cell 8
    let pos = Coords2D { x: 1, y: 2 };
    let mut c = Cell::with_id("H".to_string());
    _ = c.add_wall(Direction::NORTH);
    cg.insert(pos, c);
    // Cell 9
    let pos = Coords2D { x: 1, y: 3 };
    let c = Cell::with_id("I".to_string());
    cg.insert(pos, c);
    // Cell 10
    let pos = Coords2D { x: 1, y: 4 };
    let mut c = Cell::with_id("J".to_string());
    _ = c.add_wall(Direction::SOUTH);
    _ = c.add_wall(Direction::WEST);
    _ = c.add_wall(Direction::EAST);
    cg.insert(pos, c);
    // Cell 11
    let pos = Coords2D { x: 2, y: 0 };
    let mut c = Cell::with_id("K".to_string());
    _ = c.add_wall(Direction::NORTH);
    _ = c.add_wall(Direction::EAST);
    cg.insert(pos, c);
    // Cell 12
    let pos = Coords2D { x: 2, y: 1 };
    let mut c = Cell::with_id("L".to_string());
    _ = c.add_wall(Direction::EAST);
    cg.insert(pos, c);
    // Cell 13
    let pos = Coords2D { x: 2, y: 2 };
    let mut c = Cell::with_id("M".to_string());
    _ = c.add_wall(Direction::SOUTH);
    cg.insert(pos, c);
    // Cell 14
    let pos = Coords2D { x: 2, y: 3 };
    let mut c = Cell::with_id("N".to_string());
    _ = c.add_wall(Direction::NORTH);
    cg.insert(pos, c);
    // Cell 15
    let pos = Coords2D { x: 2, y: 4 };
    let mut c = Cell::with_id("O".to_string());
    _ = c.add_wall(Direction::SOUTH);
    _ = c.add_wall(Direction::WEST);
    _ = c.add_wall(Direction::EAST);
    cg.insert(pos, c);
    // Cell 16
    let pos = Coords2D { x: 3, y: 2 };
    let mut c = Cell::with_id("P".to_string());
    _ = c.add_wall(Direction::SOUTH);
    _ = c.add_wall(Direction::NORTH);
    cg.insert(pos, c);
    // Cell 17
    let pos = Coords2D { x: 3, y: 3 };
    let mut c = Cell::with_id("Q".to_string());
    _ = c.add_wall(Direction::NORTH);
    _ = c.add_wall(Direction::EAST);
    _ = c.add_wall(Direction::SOUTH);
    cg.insert(pos, c);
    // Cell 18
    let pos = Coords2D { x: 4, y: 1 };
    let mut c = Cell::with_id("R".to_string());
    _ = c.add_wall(Direction::WEST);
    _ = c.add_wall(Direction::NORTH);
    cg.insert(pos, c);
    // Cell 19
    let pos = Coords2D { x: 4, y: 2 };
    let mut c = Cell::with_id("S".to_string());
    _ = c.add_wall(Direction::EAST);
    _ = c.add_wall(Direction::SOUTH);
    cg.insert(pos, c);
    cg
}

#[test]
fn test_gridsize() {
    assert_eq!(output_gridsize(0, 3), 9);
    assert_eq!(output_gridsize(-2, 2), 11);
    assert_eq!(output_gridsize(1, 3), 7);
    assert_eq!(output_gridsize(1, 1), 3);
}

#[test]
fn test_min_max_1() {
    let cg = warehouse_1();

    let ((x_min, x_max), (y_min, y_max)) = min_max_xy(&cg.keys());
    assert_eq!(x_min, 0);
    assert_eq!(x_max, 4);
    assert_eq!(y_min, 0);
    assert_eq!(y_max, 2);
}

#[test]
fn test_min_max_2() {
    let cg = warehouse_2();
    let ((x_min, x_max), (y_min, y_max)) = min_max_xy(&cg.keys());
    assert_eq!(x_min, -2);
    assert_eq!(x_max, 4);

    assert_eq!(y_min, 0);
    assert_eq!(y_max, 4);
}

#[test]
fn test_min_max_of_nothing() {
    assert_eq!(min_max_xy(&vec![]), ((i32::MAX, i32::MIN), (i32::MAX, i32::MIN)));
}

#[test]
fn test_draw_empty_warehouse() {
    let cg = CellGrid::new();
    assert_eq!(draw_warehouse(&cg, None), "\n");
    assert_eq!(draw_warehouse(&cg, Some(Coords2D { x: 0, y: 0 })), "\n");
}

#[test]
fn test_draw_single_cell_with_bot() {
    let mut cg = CellGrid::new();
    cg.insert(Coords2D { x: 0, y: 0 }, Cell::default());
    let drawn = draw_warehouse(&cg, Some(Coords2D { x: 0, y: 0 }));
    assert_eq!(drawn, "\n+ + \n o  \n+ + \n    \n");
    assert!(!drawn.contains('-'));
    assert!(!drawn.contains('|'));
    let drawn = draw_warehouse(&cg, None);
    assert_eq!(drawn, "\n+ + \n    \n+ + \n    \n");
}

#[test]
fn test_draw_single_cell_away_from_origin() {
    let mut cg = CellGrid::new();
    let mut c = Cell::default();
    _ = c.add_wall(Direction::NORTH);
    _ = c.add_wall(Direction::WEST);
    cg.insert(Coords2D { x: -7, y: 12 }, c);
    assert_eq!(
        draw_warehouse(&cg, Some(Coords2D { x: 0, y: 0 })),
        "\n+-+ \n|   \n+ + \n    \n"
    );
}

#[test]
fn test_draw_walls_of_neighbours() {
    // a closed cell: the east and south walls are drawn by looking through
    // from the places to the east and south, where no cell is known
    let mut cg = CellGrid::new();
    let mut c = Cell::default();
    _ = c.add_wall(Direction::NORTH);
    _ = c.add_wall(Direction::EAST);
    _ = c.add_wall(Direction::SOUTH);
    cg.insert(Coords2D { x: 0, y: 0 }, c);
    assert_eq!(
        draw_warehouse(&cg, Some(Coords2D { x: 0, y: 0 })),
        "\n+-+ \n o| \n+-+ \n    \n"
    );
}

#[test]
fn test_draw_warehouse_2() {
    let cg = warehouse_2();
    let drawn = draw_warehouse(&cg, Some(Coords2D { x: 1, y: 3 }));
    let expected = "\n".to_string()
        + "      +-+-+     \n"
        + "      |   |     \n"
        + "    +-+ + + +-+ \n"
        + "    | |   | |   \n"
        + "+-+-+ +-+ +-+ + \n"
        + "|             | \n"
        + "+-+-+ + +-+-+-+ \n"
        + "    |  o    |   \n"
        + "    +-+ + +-+   \n"
        + "      | | |     \n"
        + "      +-+-+     \n"
        + "                \n";
    assert_eq!(drawn, expected);
}

#[test]
fn test_draw_lines_have_two_characters_for_each_column() {
    let cg = warehouse_1();
    let drawn = draw_warehouse(&cg, None);
    let lines: Vec<&str> = drawn.split('\n').collect();
    // a leading line feed, two lines for each of four rows, a closing line feed
    assert_eq!(lines.len(), 10);
    assert_eq!(lines[0], "");
    assert_eq!(lines[9], "");
    for line in &lines[1..9] {
        assert_eq!(line.len(), 12);
    }
}
