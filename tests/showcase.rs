use showcase::{
    process_data, process_items, run_with_store, Config, ConfigFault, Database, DbOperation,
    DefaultHandler, Handler, MemoryDatabase, ServerConfig, Status, StoreError, ValidationError,
};

fn status_of(results: &[(String, Status)], name: &str) -> Option<Status> {
    results.iter().find(|(k, _)| k == name).map(|(_, s)| *s)
}

struct RejectAll;

impl Handler for RejectAll {
    fn accepts(&self, _config: &Config) -> bool {
        false
    }

    fn handle(&self, _config: &Config) -> Result<(), ValidationError> {
        Err(ValidationError::InvalidConfig(ConfigFault::EmptyName))
    }
}

fn insert_op(k: &str, v: &str) -> DbOperation {
    DbOperation::Insert { key: k.to_string(), value: v.to_string() }
}

#[test]
fn test_memory_database() {
    let mut db = MemoryDatabase::new();
    let key = "username".to_string();
    let value = "admin".to_string();

    db.insert(key.clone(), value.clone());

    match db.retrieve(&key) {
        Some(retrieved_value) => {
            assert_eq!(retrieved_value, &value);
            println!("Test passed: {} = {}", key, retrieved_value);
        }
        None => panic!("Key not found"),
    }
}

#[test]
fn test_server_config() {
    let config = ServerConfig::default();
    assert_eq!(config.port, 8080);
    assert_eq!(config.max_connections, 100);
    println!("Config: {:?}", config);
}

#[test]
fn test_db_operations() {
    let mut db = MemoryDatabase::new();

    let insert_op = DbOperation::Insert {
        key: "test_key".to_string(),
        value: "test_value".to_string(),
    };

    match insert_op.execute(&mut db) {
        Ok(msg) => println!("Operation result: {}", msg),
        Err(e) => panic!("Operation failed: {}", e),
    }
}

#[test]
fn test_config_validation() {
    let config = Config::new("test".to_string(), 100);
    assert!(config.validate().is_ok());
}

#[test]
fn test_invalid_config() {
    let config = Config::new("".to_string(), 0);
    assert!(config.validate().is_err());
}

#[test]
fn language_year_scenario() {
    let mut db = MemoryDatabase::new();
    db.insert("language".to_string(), "Rust".to_string());
    db.insert("year".to_string(), "2010".to_string());
    assert_eq!(db.retrieve("language"), Some(&"Rust".to_string()));
    assert_eq!(db.delete(&"year".to_string()), Ok(()));
    assert_eq!(db.retrieve("year"), None);
    assert_eq!(db.update("year".to_string(), "2011".to_string()), Err(StoreError::NotFound));
    assert_eq!(db.retrieve("year"), None);
}

#[test]
fn default_handler_scenario() {
    let h = DefaultHandler;
    assert_eq!(
        h.handle(&Config::new("".to_string(), 100)),
        Err(ValidationError::InvalidConfig(ConfigFault::EmptyName))
    );
    assert_eq!(
        h.handle(&Config::new("svc".to_string(), 0)),
        Err(ValidationError::InvalidConfig(ConfigFault::ZeroTimeout))
    );
    assert_eq!(h.handle(&Config::new("svc".to_string(), 100)), Ok(()));
}

#[test]
fn insert_then_retrieve_overwrites() {
    let mut db = MemoryDatabase::new();
    db.insert("k".to_string(), "v1".to_string());
    db.insert("k".to_string(), "v2".to_string());
    assert_eq!(db.retrieve("k"), Some(&"v2".to_string()));
    assert_eq!(db.snapshot().len(), 1);
}

#[test]
fn empty_key_and_value_are_ordinary() {
    let mut db = MemoryDatabase::new();
    db.insert(String::new(), String::new());
    assert_eq!(db.retrieve(""), Some(&String::new()));
    assert_eq!(db.delete(&String::new()), Ok(()));
    assert_eq!(db.retrieve(""), None);
}

#[test]
fn delete_absent_leaves_entries() {
    let mut db = MemoryDatabase::new();
    db.insert("a".to_string(), "1".to_string());
    let before = db.snapshot();
    assert_eq!(db.delete(&"b".to_string()), Err(StoreError::NotFound));
    assert_eq!(db.snapshot(), before);
}

#[test]
fn update_present_and_absent() {
    let mut db = MemoryDatabase::new();
    db.insert("a".to_string(), "1".to_string());
    assert_eq!(db.update("a".to_string(), "2".to_string()), Ok(()));
    assert_eq!(db.retrieve("a"), Some(&"2".to_string()));
    assert_eq!(db.update("b".to_string(), "3".to_string()), Err(StoreError::NotFound));
    assert_eq!(db.retrieve("b"), None);
    assert_eq!(db.snapshot().len(), 1);
}

#[test]
fn snapshot_load_round_trip() {
    let mut db = MemoryDatabase::new();
    db.insert("x".to_string(), "1".to_string());
    db.insert("y".to_string(), "2".to_string());
    db.insert("z".to_string(), "3".to_string());
    db.delete(&"y".to_string()).unwrap();
    let copy = MemoryDatabase::load(db.snapshot());
    for k in ["x", "y", "z", "w"] {
        assert_eq!(copy.retrieve(k), db.retrieve(k));
    }
    assert_eq!(copy.snapshot(), db.snapshot());
}

#[test]
fn load_last_duplicate_wins() {
    let items = vec![
        ("a".to_string(), "1".to_string()),
        ("b".to_string(), "2".to_string()),
        ("a".to_string(), "3".to_string()),
    ];
    let db = MemoryDatabase::load(items);
    assert_eq!(db.retrieve("a"), Some(&"3".to_string()));
    assert_eq!(db.retrieve("b"), Some(&"2".to_string()));
    assert_eq!(db.snapshot().len(), 2);
}

#[test]
fn insert_twice_same_as_once() {
    let mut once = MemoryDatabase::new();
    once.insert("k".to_string(), "v".to_string());
    let mut twice = MemoryDatabase::new();
    twice.insert("k".to_string(), "v".to_string());
    twice.insert("k".to_string(), "v".to_string());
    assert_eq!(once.snapshot(), twice.snapshot());
}

#[test]
fn execute_messages() {
    let mut db = MemoryDatabase::new();
    assert_eq!(insert_op("a", "1").execute(&mut db), Ok("Inserted: a = 1".to_string()));
    let get = DbOperation::Retrieve { key: "a".to_string() };
    assert_eq!(get.execute(&mut db), Ok("Retrieved: a = 1".to_string()));
    let upd = DbOperation::Update { key: "a".to_string(), value: "2".to_string() };
    assert_eq!(upd.execute(&mut db), Ok("Updated: a = 2".to_string()));
    let del = DbOperation::Delete { key: "a".to_string() };
    assert_eq!(del.execute(&mut db), Ok("Deleted: a".to_string()));
    assert_eq!(del.execute(&mut db), Err("Key not found: a".to_string()));
    assert_eq!(get.execute(&mut db), Err("Key not found: a".to_string()));
    let upd_b = DbOperation::Update { key: "b".to_string(), value: "9".to_string() };
    assert_eq!(upd_b.execute(&mut db), Err("Key not found: b".to_string()));
    assert_eq!(db.retrieve("b"), None);
}

#[test]
fn process_items_records_each_name() {
    let configs = vec![
        Config::new("primary".to_string(), 30),
        Config::new("secondary".to_string(), 0),
        Config::new("".to_string(), 10),
    ];
    let results = process_items(&DefaultHandler, configs);
    assert_eq!(results.len(), 3);
    assert_eq!(status_of(&results, "primary"), Some(Status::Active));
    assert_eq!(status_of(&results, "secondary"), Some(Status::Inactive));
    assert_eq!(status_of(&results, ""), Some(Status::Inactive));
}

#[test]
fn process_items_later_name_overrides() {
    let configs = vec![
        Config::new("svc".to_string(), 30),
        Config::new("svc".to_string(), 0),
    ];
    let results = process_items(&DefaultHandler, configs);
    assert_eq!(results.len(), 1);
    assert_eq!(status_of(&results, "svc"), Some(Status::Inactive));
}

#[test]
fn run_with_store_gates_and_orders() {
    let mut db = MemoryDatabase::new();
    let ops = vec![
        (Config::new("ok".to_string(), 10), insert_op("a", "1")),
        (Config::new("".to_string(), 10), insert_op("b", "2")),
        (
            Config::new("ok".to_string(), 10),
            DbOperation::Update { key: "a".to_string(), value: "5".to_string() },
        ),
        (Config::new("ok".to_string(), 10), DbOperation::Delete { key: "c".to_string() }),
    ];
    let results = run_with_store(&mut db, &DefaultHandler, ops);
    assert_eq!(status_of(&results, "a"), Some(Status::Active));
    assert_eq!(status_of(&results, "b"), Some(Status::Inactive));
    assert_eq!(status_of(&results, "c"), Some(Status::Inactive));
    assert_eq!(db.retrieve("a"), Some(&"5".to_string()));
    assert_eq!(db.retrieve("b"), None);
}

#[test]
fn rejecting_handler_leaves_store() {
    let mut db = MemoryDatabase::new();
    db.insert("a".to_string(), "1".to_string());
    let before = db.snapshot();
    let ops = vec![
        (Config::new("ok".to_string(), 10), insert_op("x", "1")),
        (Config::new("ok".to_string(), 10), DbOperation::Delete { key: "a".to_string() }),
    ];
    let results = run_with_store(&mut db, &RejectAll, ops);
    assert_eq!(db.snapshot(), before);
    assert_eq!(results.len(), 2);
    assert_eq!(status_of(&results, "x"), Some(Status::Inactive));
    assert_eq!(status_of(&results, "a"), Some(Status::Inactive));
}

#[test]
fn process_data_checks() {
    let cfg = ServerConfig::default();
    assert_eq!(process_data("Hello, Rust!", &cfg), Ok("Hello, Rust!"));
    let big = "x".repeat(1024 * 1024 + 1);
    assert_eq!(
        process_data(&big, &cfg),
        Err("Input exceeds max size: 1048576".to_string())
    );
    let exact = "x".repeat(1024 * 1024);
    assert!(process_data(&exact, &cfg).is_ok());
    let zero = ServerConfig { host: "h", port: 1, timeout_ms: 0, max_connections: 1 };
    assert_eq!(process_data("a", &zero), Err("Invalid timeout".to_string()));
}
