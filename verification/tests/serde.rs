use serde_json::Value;
use warehousebot::persist::{cell_from_record, cell_to_record, CellRecord, StoredCell};
use warehousebot::warehouse::{Cell, Coords2D, Warehouse};
use warehousebot::Direction::NORTH;

fn texts(list: &[String]) -> Value {
    Value::Array(list.iter().map(|text| Value::String(text.clone())).collect())
}

fn cell_to_json(record: &CellRecord) -> Value {
    let mut pos = serde_json::Map::new();
    pos.insert("x".to_string(), Value::from(record.x));
    pos.insert("y".to_string(), Value::from(record.y));
    let mut walls = serde_json::Map::new();
    for side in &record.walls {
        walls.insert(side.clone(), Value::Object(serde_json::Map::new()));
    }
    let mut cell = serde_json::Map::new();
    cell.insert("pos".to_string(), Value::Object(pos));
    cell.insert("id".to_string(), Value::String(record.id.clone()));
    cell.insert("walls".to_string(), Value::Object(walls));
    cell.insert("shelf_inventory".to_string(), texts(&record.items));
    cell.insert("visited".to_string(), Value::Bool(record.visited));
    cell.insert("cell_type".to_string(), Value::String(record.shape.clone()));
    Value::Object(cell)
}

fn cell_from_json(value: &Value) -> CellRecord {
    let strings = |list: &Value| -> Vec<String> {
        list.as_array().unwrap().iter().map(|v| v.as_str().unwrap().to_string()).collect()
    };
    CellRecord {
        x: value["pos"]["x"].as_i64().unwrap() as i32,
        y: value["pos"]["y"].as_i64().unwrap() as i32,
        id: value["id"].as_str().unwrap().to_string(),
        walls: value["walls"].as_object().unwrap().keys().cloned().collect(),
        items: strings(&value["shelf_inventory"]),
        visited: value["visited"].as_bool().unwrap(),
        shape: value["cell_type"].as_str().unwrap().to_string(),
    }
}

fn warehouse_to_json(records: &[StoredCell]) -> Value {
    let mut layout = serde_json::Map::new();
    for stored in records {
        layout.insert(stored.key.clone(), cell_to_json(&stored.cell));
    }
    let mut warehouse = serde_json::Map::new();
    warehouse.insert("cell_layout".to_string(), Value::Object(layout));
    Value::Object(warehouse)
}

fn warehouse_from_json(value: &Value) -> Vec<StoredCell> {
    value["cell_layout"]
        .as_object()
        .unwrap()
        .iter()
        .map(|(key, cell)| StoredCell { key: key.clone(), cell: cell_from_json(cell) })
        .collect()
}

#[test]
fn test_serde_default_cell() {
    let c = Cell::new(Coords2D { x: 1, y: 2 });
    let ser = serde_json::to_string(&cell_to_json(&cell_to_record(&c))).unwrap();
    assert_eq!(&ser, "{\"pos\":{\"x\":1,\"y\":2},\"id\":\"\",\"walls\":{},\"shelf_inventory\":[],\"visited\":false,\"cell_type\":\"XCross\"}");

    let parsed: Value = serde_json::from_str(ser.as_str()).unwrap();
    let c2: Cell = cell_from_record(&cell_from_json(&parsed)).unwrap();
    assert_eq!(c, c2);
}

#[test]
fn test_serde_cell() {
    let mut c = Cell::new(Coords2D { x: 1, y: 2 });
    c.add_wall(NORTH).unwrap();
    c.put_good_on_shelf("Hydrazine".to_string()).unwrap();
    let ser = serde_json::to_string(&cell_to_json(&cell_to_record(&c))).unwrap();
    assert_eq!(ser, "{\"pos\":{\"x\":1,\"y\":2},\"id\":\"\",\"walls\":{\"north\":{}},\"shelf_inventory\":[\"Hydrazine\"],\"visited\":false,\"cell_type\":\"TCross\"}");

    let parsed: Value = serde_json::from_str(ser.as_str()).unwrap();
    let c2: Cell = cell_from_record(&cell_from_json(&parsed)).unwrap();
    assert_eq!(c, c2);
}

#[test]
fn test_serde_warehouse() {
    let mut wh = Warehouse::default();
    wh.add_default_cell(Coords2D { x: 4, y: 7 });
    let ser = serde_json::to_string(&warehouse_to_json(&wh.serialize())).unwrap();
    assert_eq!(ser, "{\"cell_layout\":{\"4,7\":{\"pos\":{\"x\":4,\"y\":7},\"id\":\"\",\"walls\":{},\"shelf_inventory\":[],\"visited\":false,\"cell_type\":\"XCross\"}}}");

    let parsed: Value = serde_json::from_str(ser.as_str()).unwrap();
    let wh2: Warehouse = Warehouse::deserialize(&warehouse_from_json(&parsed)).unwrap();
    assert_eq!(wh, wh2);
}
