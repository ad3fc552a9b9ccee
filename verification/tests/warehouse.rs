use warehousebot::direction::{direction_to_literal, literal_to_direction, SOUTH_LIT};
use warehousebot::warehouse::{Cell, CellType, Coords2D, Error, Warehouse};
use warehousebot::Direction::{EAST, NORTH, SOUTH, WEST};

#[test]
fn test_coords_from_str() {
    let strcoords = "3,4";
    let c = Coords2D::from_string(strcoords).unwrap();
    assert_eq!(c.x, 3);
    assert_eq!(c.y, 4);

    let wrong = "43";
    assert!(Coords2D::from_string(wrong).is_none());
}

#[test]
fn test_coords_from_str_malformed() {
    assert!(Coords2D::from_string("4,acht").is_none());
    assert!(Coords2D::from_string("").is_none());
    assert!(Coords2D::from_string(",").is_none());
    assert!(Coords2D::from_string("1,").is_none());
    assert!(Coords2D::from_string(",1").is_none());
    assert!(Coords2D::from_string("1, 2").is_none());
    assert!(Coords2D::from_string("2147483648,0").is_none());
    assert!(Coords2D::from_string("0,-2147483649").is_none());
    assert!(Coords2D::from_string("-,1").is_none());
    assert!(Coords2D::from_string("+,1").is_none());
}

#[test]
fn test_coords_from_str_signs_and_limits() {
    assert_eq!(Coords2D::from_string("-3,+4"), Some(Coords2D { x: -3, y: 4 }));
    assert_eq!(
        Coords2D::from_string("2147483647,-2147483648"),
        Some(Coords2D { x: i32::MAX, y: i32::MIN })
    );
    assert_eq!(Coords2D::from_string("007,-0"), Some(Coords2D { x: 7, y: 0 }));
    assert_eq!(Coords2D::from_string("1,2,3"), Some(Coords2D { x: 1, y: 2 }));
    assert_eq!(Coords2D::from_string("1,2,x"), Some(Coords2D { x: 1, y: 2 }));
}

#[test]
fn test_coords_to_string() {
    assert_eq!(Coords2D { x: 3, y: 4 }.to_string(), "3,4");
    assert_eq!(Coords2D { x: -12, y: 0 }.to_string(), "-12,0");
    assert_eq!(
        Coords2D { x: i32::MIN, y: i32::MAX }.to_string(),
        "-2147483648,2147483647"
    );
}

#[test]
fn test_coords_text_round_trip() {
    for pos in [
        Coords2D { x: 0, y: 0 },
        Coords2D { x: -1, y: 1 },
        Coords2D { x: 10, y: -100 },
        Coords2D { x: i32::MIN, y: i32::MAX },
    ] {
        assert_eq!(Coords2D::from_string(&pos.to_string()), Some(pos));
    }
}

#[test]
fn test_neighbor_coords() {
    let pos = Coords2D { x: 1, y: -1 };
    assert_eq!(pos.neighbor_coords(&NORTH), Coords2D { x: 1, y: -2 });
    assert_eq!(pos.neighbor_coords(&EAST), Coords2D { x: 2, y: -1 });
    assert_eq!(pos.neighbor_coords(&SOUTH), Coords2D { x: 1, y: 0 });
    assert_eq!(pos.neighbor_coords(&WEST), Coords2D { x: 0, y: -1 });
    assert_eq!(pos.go(NORTH), Coords2D { x: 1, y: -2 });
    assert_eq!(pos.neighbor_coords_distance(&EAST, 5), Coords2D { x: 6, y: -1 });
    assert_eq!(pos.neighbor_coords_distance(&EAST, -5), Coords2D { x: -4, y: -1 });
    assert_eq!(pos.neighbor_coords_distance(&NORTH, 3), Coords2D { x: 1, y: -4 });
}

#[test]
fn test_checked_neighbor_at_the_edge() {
    let corner = Coords2D { x: i32::MAX, y: i32::MIN };
    assert_eq!(corner.checked_neighbor(&EAST), None);
    assert_eq!(corner.checked_neighbor(&NORTH), None);
    assert_eq!(corner.checked_neighbor(&WEST), Some(Coords2D { x: i32::MAX - 1, y: i32::MIN }));
    assert_eq!(corner.checked_neighbor(&SOUTH), Some(Coords2D { x: i32::MAX, y: i32::MIN + 1 }));
}

#[test]
fn test_direction_names() {
    for dir in [NORTH, EAST, SOUTH, WEST] {
        assert_eq!(literal_to_direction(direction_to_literal(&dir)), Some(dir));
    }
    assert_eq!(direction_to_literal(&NORTH), "north");
    assert_eq!(direction_to_literal(&EAST), "east");
    assert_eq!(direction_to_literal(&SOUTH), "south");
    assert_eq!(direction_to_literal(&WEST), "west");
    assert_eq!(literal_to_direction("North"), None);
    assert_eq!(literal_to_direction("nort"), None);
    assert_eq!(literal_to_direction("norths"), None);
    assert_eq!(literal_to_direction(""), None);
}

#[test]
fn test_new_cell() {
    let c = Cell::new(Coords2D { x: 1, y: 2 });
    assert_eq!(c.pos.x, 1);
    assert_eq!(c.pos.y, 2);
    assert_eq!(c.get_walls().len(), 0);
    assert!(!c.was_visited());
    assert_eq!(c.storage_capacity(), 4);
}

#[test]
fn test_visit_cell() {
    let mut c = Cell::new(Coords2D { x: 1, y: 2 });
    c.visit();
    assert!(c.was_visited());
    c.visit();
    assert!(c.was_visited());
}

#[test]
fn test_cell_add_walls_ok() {
    let mut c = Cell::new(Coords2D { x: 1, y: 2 });
    assert_eq!(c.cell_type(), CellType::XCross);

    assert_eq!(c.add_wall(SOUTH).unwrap(), CellType::TCross);
    assert_eq!(c.storage_capacity(), 6);

    assert_eq!(c.add_wall(NORTH).unwrap(), CellType::Hallway);
    assert_eq!(c.storage_capacity(), 8);

    assert!(c.add_wall(EAST).is_ok());
    assert_eq!(c.cell_type(), CellType::DeadEnd);
    assert_eq!(c.storage_capacity(), 12);

    assert_eq!(c.get_walls().len(), 3);
    assert!(c.has_wall(&literal_to_direction(SOUTH_LIT).unwrap()))
}

#[test]
fn test_cell_build_corner() {
    let mut c = Cell::new(Coords2D { x: 1, y: 2 });
    assert_eq!(c.add_wall(SOUTH).unwrap(), CellType::TCross);
    assert_eq!(c.storage_capacity(), 6);
    assert_eq!(c.add_wall(EAST).unwrap(), CellType::Corner);
    assert_eq!(c.storage_capacity(), 9);

    let mut c2 = Cell::new(Coords2D { x: 2, y: 3 });
    assert_eq!(c2.add_wall(EAST).unwrap(), CellType::TCross);
    assert_eq!(c2.storage_capacity(), 6);

    assert_eq!(c2.add_wall(SOUTH).unwrap(), CellType::Corner);
    assert_eq!(c.storage_capacity(), 9);

    println!("{}", c.to_string());
}

#[test]
fn test_build_box_panic() {
    let mut c = Cell::new(Coords2D { x: 1, y: 2 });
    assert_eq!(c.add_wall(WEST).unwrap(), CellType::TCross);
    assert_eq!(c.storage_capacity(), 6);
    assert_eq!(c.add_wall(NORTH).unwrap(), CellType::Corner);
    assert_eq!(c.storage_capacity(), 9);
    assert_eq!(c.add_wall(EAST).unwrap(), CellType::DeadEnd);
    assert_eq!(c.storage_capacity(), 12);

    assert!(c.add_wall(SOUTH).is_err());
}

#[test]
fn test_fourth_wall_leaves_cell_unchanged() {
    let mut c = Cell::new(Coords2D { x: 1, y: 2 });
    _ = c.add_wall(WEST);
    _ = c.add_wall(NORTH);
    _ = c.add_wall(EAST);
    assert_eq!(c.add_wall(SOUTH), Err(Error::CellInvalid));
    assert_eq!(c.get_walls(), vec![NORTH, EAST, WEST]);
    assert_eq!(c.cell_type(), CellType::DeadEnd);
    assert_eq!(c.storage_capacity(), 12);
}

#[test]
fn test_shape_for_every_wall_set() {
    let all = [NORTH, EAST, SOUTH, WEST];
    for bits in 0u32..15 {
        let mut c = Cell::default();
        let mut n = 0;
        for (i, dir) in all.iter().enumerate() {
            if bits & (1 << i) != 0 {
                c.add_wall(*dir).unwrap();
                n += 1;
            }
        }
        let opposite = c.has_wall(&NORTH) == c.has_wall(&SOUTH);
        let (shape, capacity) = match n {
            0 => (CellType::XCross, 4),
            1 => (CellType::TCross, 6),
            2 if opposite => (CellType::Hallway, 8),
            2 => (CellType::Corner, 9),
            _ => (CellType::DeadEnd, 12),
        };
        assert_eq!(c.cell_type(), shape);
        assert_eq!(c.storage_capacity(), capacity);
    }
}

#[test]
fn test_cell_add_wall_twice() {
    let mut c = Cell::new(Coords2D { x: 1, y: 2 });
    assert!(c.add_wall(SOUTH).is_ok());
    assert!(c.add_wall(SOUTH).is_err());
    assert_eq!(c.add_wall(SOUTH), Err(Error::WallExists));
    assert_eq!(c.get_walls(), vec![SOUTH]);
}

#[test]
fn test_add_items_ok() {
    let mut c = Cell::new(Coords2D { x: 1, y: 2 });
    assert_eq!(c.stored_good_type(), "-");
    assert_eq!(c.occupied_storage(), 0);
    assert_eq!(c.storage_capacity(), 4);
    assert!(c.put_good_on_shelf("Kürbis".to_string()).is_ok());
    assert_eq!(c.occupied_storage(), 1);
    assert_eq!(c.stored_good_type(), "Kürbis");
}

#[test]
fn test_add_items_fail_full() {
    let mut c = Cell::new(Coords2D { x: 1, y: 2 });
    assert!(c.put_good_on_shelf("Kürbis".to_string()).is_ok());
    assert!(c.put_good_on_shelf("Kürbis".to_string()).is_ok());
    assert!(c.put_good_on_shelf("Kürbis".to_string()).is_ok());
    assert!(c.put_good_on_shelf("Kürbis".to_string()).is_ok());
    assert!(c.put_good_on_shelf("Kürbis".to_string()).is_err());
    assert_eq!(c.occupied_storage(), c.storage_capacity());
}

#[test]
fn test_shelf_fills_to_capacity_of_each_shape() {
    let walls = [vec![], vec![NORTH], vec![NORTH, SOUTH], vec![NORTH, EAST], vec![NORTH, EAST, SOUTH]];
    let room = [4usize, 6, 8, 9, 12];
    for (sides, capacity) in walls.iter().zip(room) {
        let mut c = Cell::default();
        for side in sides {
            c.add_wall(*side).unwrap();
        }
        for n in 1..=capacity {
            assert_eq!(c.put_good_on_shelf("beer".to_string()), Ok(n));
        }
        assert_eq!(c.put_good_on_shelf("beer".to_string()), Err(Error::StorageExceeded));
        assert_eq!(c.occupied_storage(), capacity);
        assert_eq!(c.shelf_items(), vec!["beer".to_string(); capacity]);
    }
}

#[test]
fn test_add_items_fail_mixed_goods() {
    let mut c = Cell::new(Coords2D { x: 1, y: 2 });
    assert!(c.put_good_on_shelf("Kürbis".to_string()).is_ok());
    let e = c.put_good_on_shelf("Milch".to_string());
    assert!(e.is_err());
    assert_eq!(e.unwrap_err(), Error::GoodsIncompatible);
    assert_eq!(c.occupied_storage(), 1);
}

#[test]
fn test_cell_to_string() {
    let mut c = Cell::new(Coords2D { x: 1, y: 2 });
    assert_eq!(c.to_string(), "Cell: 1,2 - Storage (0/4) - Goods: -");
    c.add_wall(NORTH).unwrap();
    c.put_good_on_shelf("Hydrazine".to_string()).unwrap();
    assert_eq!(c.to_string(), "Cell: 1,2 - Storage (1/6) - Goods: Hydrazine");
}

#[test]
fn test_cell_with_id() {
    let c = Cell::with_id("A".to_string());
    assert_eq!(c.id, "A");
    assert_eq!(c.pos, Coords2D { x: 0, y: 0 });
    assert!(c.get_walls().is_empty());
}

#[test]
fn test_add_default_cell() {
    let mut wh = Warehouse::default();
    wh.add_default_cell(Coords2D { x: 4, y: 7 });
    assert_eq!(wh.cells(), 1);
    assert_eq!(wh.get_cell(&Coords2D { x: 4, y: 7 }).unwrap().pos, Coords2D { x: 4, y: 7 });
    let mut cell = Cell::default();
    _ = cell.add_wall(NORTH);
    wh.insert_or_update_cell(Coords2D { x: 4, y: 7 }, cell);
    wh.add_default_cell(Coords2D { x: 4, y: 7 });
    assert_eq!(wh.cells(), 1);
    assert!(wh.get_cell(&Coords2D { x: 4, y: 7 }).unwrap().has_wall(&NORTH));
}

#[test]
fn test_far_scan_cell_does_not_replace_observed_cell() {
    let mut wh = Warehouse::default();
    let mut observed = Cell::default();
    _ = observed.add_wall(NORTH);
    _ = observed.add_wall(EAST);
    wh.insert_or_update_cell(Coords2D { x: 1, y: 1 }, observed);
    let mut made_up = Cell::default();
    _ = made_up.add_wall(SOUTH);
    wh.add_far_scan_cell(Coords2D { x: 1, y: 1 }, made_up);
    assert_eq!(wh.get_cell(&Coords2D { x: 1, y: 1 }).unwrap().get_walls(), vec![NORTH, EAST]);
    // and it tells no neighbour of its walls
    wh.insert_or_update_cell(Coords2D { x: 5, y: 5 }, Cell::default());
    let mut made_up = Cell::default();
    _ = made_up.add_wall(SOUTH);
    wh.add_far_scan_cell(Coords2D { x: 5, y: 4 }, made_up);
    assert!(wh.get_cell(&Coords2D { x: 5, y: 4 }).unwrap().has_wall(&SOUTH));
    assert!(!wh.get_cell(&Coords2D { x: 5, y: 5 }).unwrap().has_wall(&NORTH));
}

#[test]
fn test_storage_capacity_of_warehouse() {
    let mut wh = Warehouse::default();
    assert_eq!(wh.storage_capacity(), (0, 0));
    let mut a = Cell::default();
    _ = a.put_good_on_shelf("beer".to_string());
    _ = a.put_good_on_shelf("beer".to_string());
    wh.insert_or_update_cell(Coords2D { x: 0, y: 0 }, a);
    let mut b = Cell::default();
    _ = b.add_wall(NORTH);
    _ = b.add_wall(SOUTH);
    _ = b.put_good_on_shelf("milk".to_string());
    wh.insert_or_update_cell(Coords2D { x: 5, y: 5 }, b);
    assert_eq!(wh.storage_capacity(), (3, 12));
    assert_eq!(wh.cells(), 2);
    wh.reset();
    assert_eq!(wh.cells(), 0);
    assert_eq!(wh.storage_capacity(), (0, 0));
    assert!(wh.get_cell(&Coords2D { x: 0, y: 0 }).is_none());
}

#[test]
fn test_mirroring_at_the_edge_of_the_grid() {
    let mut wh = Warehouse::default();
    wh.insert_or_update_cell(Coords2D { x: i32::MAX - 1, y: i32::MIN }, Cell::default());
    let mut cell = Cell::default();
    _ = cell.add_wall(NORTH);
    _ = cell.add_wall(EAST);
    _ = cell.add_wall(WEST);
    wh.insert_or_update_cell(Coords2D { x: i32::MAX, y: i32::MIN }, cell);
    assert_eq!(wh.cells(), 2);
    assert_eq!(
        wh.get_cell(&Coords2D { x: i32::MAX - 1, y: i32::MIN }).unwrap().get_walls(),
        vec![EAST]
    );
}
