use warehousebot::bot::rest::{
    scan_near_to_cell, CellInfo, FarScanInfo, RestBot, ScanFarResponse, ScanNearResponse, Walls,
};
use warehousebot::bot::FarScanResult;
use warehousebot::warehouse::CellType;
use warehousebot::Direction::{EAST, NORTH, SOUTH, WEST};
use warehousebot::{Coords2D, Error};

fn info(east: bool, north: bool, south: bool, west: bool, goods: &[&str]) -> CellInfo {
    CellInfo {
        shelf_inventory: goods.iter().map(|g| g.to_string()).collect(),
        walls: Walls { east, north, south, west },
    }
}

#[test]
fn test_scan_near_to_cell() {
    let cell = scan_near_to_cell(info(true, true, true, false, &["beer", "beer"]));
    assert_eq!(cell.get_walls(), vec![NORTH, EAST, SOUTH]);
    assert_eq!(cell.cell_type(), CellType::DeadEnd);
    assert_eq!(cell.occupied_storage(), 2);
    assert_eq!(cell.stored_good_type(), "beer");
    assert!(!cell.was_visited());
}

#[test]
fn test_scan_near_to_cell_without_walls() {
    let cell = scan_near_to_cell(info(false, false, false, false, &[]));
    assert!(cell.get_walls().is_empty());
    assert_eq!(cell.occupied_storage(), 0);
    assert_eq!(cell.stored_good_type(), "-");
}

#[test]
fn test_scan_near_to_cell_with_four_walls_drops_the_south_wall() {
    let cell = scan_near_to_cell(info(true, true, true, true, &[]));
    assert_eq!(cell.get_walls(), vec![NORTH, EAST, WEST]);
}

#[test]
fn test_scan_near_to_cell_leaves_out_goods_that_do_not_fit() {
    let cell = scan_near_to_cell(info(false, false, false, false, &["beer", "milk", "beer"]));
    assert_eq!(cell.shelf_items(), vec!["beer".to_string(), "beer".to_string()]);
    let cell = scan_near_to_cell(info(false, false, false, false, &["a", "a", "a", "a", "a", "a"]));
    assert_eq!(cell.occupied_storage(), 4);
}

#[test]
fn test_rest_bot_urls() {
    let bot = RestBot::new("paul".to_string(), "http://localhost/api/bot".to_string());
    assert_eq!(bot.locate(), Coords2D { x: 0, y: 0 });
    assert_eq!(bot.move_url(&NORTH), "http://localhost/api/bot/paul/move/north");
    assert_eq!(bot.move_url(&WEST), "http://localhost/api/bot/paul/move/west");
    assert_eq!(bot.scan_near_url(), "http://localhost/api/bot/paul/scan/near");
    assert_eq!(bot.scan_far_url(), "http://localhost/api/bot/paul/scan/far");
    assert_eq!(
        bot.reset_url(),
        "http://springschool-lb-54580289.eu-central-1.elb.amazonaws.com/api/james//paul/reset"
    );
}

#[test]
fn test_rest_bot_default() {
    let bot = RestBot::default();
    assert_eq!(bot.bot, "john");
    assert_eq!(
        bot.scan_far_url(),
        "http://springschool-lb-54580289.eu-central-1.elb.amazonaws.com/api/bot/john/scan/far"
    );
}

#[test]
fn test_rest_bot_navigate() {
    let mut bot = RestBot::new("paul".to_string(), "http://localhost".to_string());
    assert_eq!(bot.navigate(EAST, Some(200)), Ok(()));
    assert_eq!(bot.locate(), Coords2D { x: 1, y: 0 });
    assert_eq!(bot.navigate(SOUTH, Some(200)), Ok(()));
    assert_eq!(bot.locate(), Coords2D { x: 1, y: 1 });
    assert_eq!(bot.navigate(SOUTH, Some(405)), Err(Error::HitWall));
    assert_eq!(bot.navigate(SOUTH, Some(404)), Err(Error::InvalidBot));
    assert_eq!(bot.navigate(SOUTH, Some(500)), Err(Error::ClientError));
    assert_eq!(bot.navigate(SOUTH, None), Err(Error::ClientError));
    assert_eq!(bot.locate(), Coords2D { x: 1, y: 1 });
    assert_eq!(bot.navigate(NORTH, Some(200)), Ok(()));
    assert_eq!(bot.navigate(WEST, Some(200)), Ok(()));
    assert_eq!(bot.locate(), Coords2D { x: 0, y: 0 });
}

#[test]
fn test_rest_bot_reset() {
    let mut bot = RestBot::new("paul".to_string(), "http://localhost".to_string());
    assert_eq!(bot.navigate(EAST, Some(200)), Ok(()));
    assert_eq!(bot.reset(Some(404)), Err(Error::InvalidBot));
    assert_eq!(bot.reset(Some(405)), Err(Error::ClientError));
    assert_eq!(bot.reset(None), Err(Error::ClientError));
    assert_eq!(bot.locate(), Coords2D { x: 1, y: 0 });
    assert_eq!(bot.reset(Some(200)), Ok(()));
    assert_eq!(bot.locate(), Coords2D { x: 0, y: 0 });
}

#[test]
fn test_rest_bot_scan_near() {
    let body = ScanNearResponse { field_info: info(false, true, false, false, &["beer"]) };
    let cell = RestBot::scan_near(Some(200), Some(body)).unwrap();
    assert_eq!(cell.get_walls(), vec![NORTH]);
    assert_eq!(cell.shelf_items(), vec!["beer".to_string()]);
    assert_eq!(RestBot::scan_near(Some(200), None).unwrap_err(), Error::ScanFailed);
    assert_eq!(RestBot::scan_near(Some(404), None).unwrap_err(), Error::InvalidBot);
    let body = ScanNearResponse { field_info: info(false, true, false, false, &[]) };
    assert_eq!(RestBot::scan_near(Some(500), Some(body)).unwrap_err(), Error::ClientError);
    assert_eq!(RestBot::scan_near(None, None).unwrap_err(), Error::ClientError);
}

#[test]
fn test_rest_bot_scan_far() {
    let body = ScanFarResponse { scan_info: FarScanInfo { north: 2, east: 1, west: 0, south: 3 } };
    let scan = RestBot::scan_far(Some(200), Some(body)).unwrap();
    assert_eq!(scan.get(&NORTH), Some(&2));
    assert_eq!(scan.get(&EAST), Some(&1));
    assert_eq!(scan.get(&SOUTH), Some(&3));
    assert_eq!(scan.get(&WEST), Some(&0));
    assert_eq!(RestBot::scan_far(Some(200), None), Err(Error::ScanFailed));
    assert_eq!(RestBot::scan_far(Some(404), Some(body)), Err(Error::InvalidBot));
    assert_eq!(RestBot::scan_far(Some(302), Some(body)), Err(Error::ClientError));
    assert_eq!(RestBot::scan_far(None, None), Err(Error::ClientError));
}

#[test]
fn test_far_scan_result() {
    let mut scan = FarScanResult::new();
    assert_eq!(scan.get(&NORTH), None);
    assert_eq!(scan.to_string(), "{}");
    assert_eq!(scan.insert(NORTH, 2), None);
    assert_eq!(scan.insert(NORTH, 3), Some(2));
    assert_eq!(scan.get(&NORTH), Some(&3));
    assert_eq!(scan.to_string(), "{NORTH: 3}");
    scan.insert(WEST, -1);
    assert_eq!(scan.to_string(), "{NORTH: 3, WEST: -1}");
    scan.insert(EAST, 0);
    scan.insert(SOUTH, 10);
    assert_eq!(scan.to_string(), "{NORTH: 3, EAST: 0, SOUTH: 10, WEST: -1}");
}
