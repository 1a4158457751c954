use showcase::{parse_snapshot, render_snapshot, Database, MemoryDatabase};

fn pair(k: &str, v: &str) -> (String, String) {
    (k.to_string(), v.to_string())
}

#[test]
fn parse_splits_on_first_colon() {
    let got = parse_snapshot("a:1\nb:2:3\r\nnocolon\n:empty\nlast:x");
    assert_eq!(
        got,
        vec![pair("a", "1"), pair("b", "2:3"), pair("", "empty"), pair("last", "x")]
    );
}

#[test]
fn parse_empty_and_blank_lines() {
    assert_eq!(parse_snapshot(""), Vec::<(String, String)>::new());
    assert_eq!(parse_snapshot("\n\n\r\n"), Vec::<(String, String)>::new());
    assert_eq!(parse_snapshot("k:\n"), vec![pair("k", "")]);
}

#[test]
fn parse_keeps_non_ascii() {
    assert_eq!(parse_snapshot("clé:été\n"), vec![pair("clé", "été")]);
}

#[test]
fn render_writes_one_line_per_entry() {
    let entries = vec![pair("language", "Rust"), pair("year", "2010")];
    assert_eq!(render_snapshot(&entries), "language:Rust\nyear:2010\n");
    assert_eq!(render_snapshot(&Vec::new()), "");
}

#[test]
fn text_round_trip_through_store() {
    let mut db = MemoryDatabase::new();
    db.insert("language".to_string(), "Rust".to_string());
    db.insert("year".to_string(), "2010".to_string());
    let text = render_snapshot(&db.snapshot());
    let copy = MemoryDatabase::load(parse_snapshot(&text));
    assert_eq!(copy.retrieve("language"), Some(&"Rust".to_string()));
    assert_eq!(copy.retrieve("year"), Some(&"2010".to_string()));
    assert_eq!(copy.snapshot(), db.snapshot());
}

#[test]
fn load_text_duplicate_key_last_wins() {
    let db = MemoryDatabase::load(parse_snapshot("a:1\na:2\n"));
    assert_eq!(db.retrieve("a"), Some(&"2".to_string()));
}
