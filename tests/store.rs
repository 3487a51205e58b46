use simple_diary::entry::DiaryEntry;
use simple_diary::session::{entry_from_lines, Feedback, Session, Stage};
use simple_diary::storage::{append, ensure_schema, insert_params, open_store, save_entry, SqlParam, StorageError};

fn lines(v: &[&str]) -> Vec<String> {
    v.iter().map(|s| s.to_string()).collect()
}

fn entry(q: u8, w: &str, t: &str) -> DiaryEntry {
    DiaryEntry { feeling_quant: q, feeling_word: w.to_string(), freeform_text: t.to_string() }
}

fn last_row(conn: &sqlite::Connection) -> (i64, String, i64, String, String) {
    let mut stmt = conn
        .prepare("SELECT id, datetime, feeling_quant, feeling_word, freeform_text FROM diary_entries ORDER BY id DESC LIMIT 1")
        .unwrap();
    assert_eq!(stmt.next().unwrap(), sqlite::State::Row);
    (
        stmt.read::<i64, _>(0).unwrap(),
        stmt.read::<String, _>(1).unwrap(),
        stmt.read::<i64, _>(2).unwrap(),
        stmt.read::<String, _>(3).unwrap(),
        stmt.read::<String, _>(4).unwrap(),
    )
}

fn row_count(conn: &sqlite::Connection) -> i64 {
    let mut stmt = conn.prepare("SELECT count(*) FROM diary_entries").unwrap();
    assert_eq!(stmt.next().unwrap(), sqlite::State::Row);
    stmt.read::<i64, _>(0).unwrap()
}

#[test]
fn test_db_creation_and_insertion() {
    let connection = open_store(":memory:").expect("unable to open database");
    ensure_schema(&connection).expect("unable to create table");
    let query = "INSERT INTO diary_entries (datetime, feeling_quant, feeling_word, freeform_text) VALUES ('2022-01-01 00:00:00', 5, 'happy', 'I am happy')";
    connection.execute(query).expect("unable to insert data");
    let mut stmt = connection
        .prepare("SELECT * FROM diary_entries WHERE id = 1")
        .expect("unable to prepare statement");
    let mut rows = 0;
    while stmt.next().expect("Could not advance state.") == sqlite::State::Row {
        let id: f64 = stmt.read(0).unwrap();
        let datetime: String = stmt.read(1).unwrap();
        let feeling_quant: f64 = stmt.read(2).unwrap();
        let feeling_word: String = stmt.read(3).unwrap();
        let freeform_text: String = stmt.read(4).unwrap();
        assert!(id == 1.0);
        assert!(datetime == "2022-01-01 00:00:00");
        assert!(feeling_quant == 5.0);
        assert!(feeling_word == "happy");
        assert!(freeform_text == "I am happy");
        rows += 1;
    }
    assert_eq!(rows, 1);
}

#[test]
fn append_round_trips() {
    let conn = open_store(":memory:").unwrap();
    ensure_schema(&conn).unwrap();
    append(&conn, &entry(42, "calm", "line one\nline two\n")).unwrap();
    let (id, datetime, q, w, t) = last_row(&conn);
    assert_eq!(id, 1);
    assert!(!datetime.is_empty());
    assert_eq!(q, 42);
    assert_eq!(w, "calm");
    assert_eq!(t, "line one\nline two\n");
    append(&conn, &entry(7, "tired", "")).unwrap();
    let (id, _, q, w, t) = last_row(&conn);
    assert_eq!((id, q, w.as_str(), t.as_str()), (2, 7, "tired", ""));
}

#[test]
fn schema_creation_is_idempotent() {
    let conn = open_store(":memory:").unwrap();
    ensure_schema(&conn).unwrap();
    append(&conn, &entry(1, "low", "x")).unwrap();
    ensure_schema(&conn).unwrap();
    let mut stmt = conn
        .prepare("SELECT count(*) FROM sqlite_master WHERE type = 'table' AND name = 'diary_entries'")
        .unwrap();
    assert_eq!(stmt.next().unwrap(), sqlite::State::Row);
    assert_eq!(stmt.read::<i64, _>(0).unwrap(), 1);
    assert_eq!(row_count(&conn), 1);
}

#[test]
fn quotes_and_newlines_stored_verbatim() {
    let conn = open_store(":memory:").unwrap();
    ensure_schema(&conn).unwrap();
    let text = "He said \"hi\"; it's 'fine'\n'); DROP TABLE diary_entries; --\nünï ✓\n";
    append(&conn, &entry(99, "o'brien", text)).unwrap();
    let (_, _, q, w, t) = last_row(&conn);
    assert_eq!(q, 99);
    assert_eq!(w, "o'brien");
    assert_eq!(t, text);
    assert_eq!(row_count(&conn), 1);
}

#[test]
fn scripted_session_end_to_end() {
    let script = lines(&["57\n", "curious\n", "Today was fine.\n", "", ""]);
    let e = entry_from_lines(&script).unwrap();
    assert_eq!(e.feeling_quant, 57);
    assert_eq!(e.feeling_word, "curious");
    assert_eq!(e.freeform_text, "Today was fine.\n");
    let conn = open_store(":memory:").unwrap();
    ensure_schema(&conn).unwrap();
    append(&conn, &e).unwrap();
    let (id, _, q, w, t) = last_row(&conn);
    assert_eq!((id, q, w.as_str(), t.as_str()), (1, 57, "curious", "Today was fine.\n"));
}

#[test]
fn scripted_session_skips_bad_answers() {
    let script = lines(&["abc\n", "0\n", "101\n", "80\n", "two words\n", "3.5\n", "Glad\n", "ok\n", "\n", "\n", "ignored\n"]);
    let e = entry_from_lines(&script).unwrap();
    assert_eq!(e.feeling_quant, 80);
    assert_eq!(e.feeling_word, "glad");
    assert_eq!(e.freeform_text, "ok\n\n");
}

#[test]
fn scripted_session_needs_rating_and_word() {
    assert!(entry_from_lines(&lines(&["nope\n", "0\n"])).is_none());
    assert!(entry_from_lines(&lines(&["5\n", "1 2\n"])).is_none());
    assert!(entry_from_lines(&lines(&[])).is_none());
    let e = entry_from_lines(&lines(&["5\n", "fine\n"])).unwrap();
    assert_eq!(e.freeform_text, "");
}

#[test]
fn session_feedback_per_line() {
    let mut s = Session::new();
    assert_eq!(s.feed("x\n"), Feedback::BadRating);
    assert_eq!(s.feed("57\n"), Feedback::Rated);
    assert_eq!(s.stage, Stage::Word);
    assert_eq!(s.feed("two words\n"), Feedback::NotSingleWord);
    assert_eq!(s.feed("12\n"), Feedback::NotAWord);
    assert_eq!(s.feed("Curious\n"), Feedback::Worded);
    assert_eq!(s.feed("Today was fine.\n"), Feedback::TextLine);
    assert_eq!(s.feed(""), Feedback::TextLine);
    assert_eq!(s.feed(""), Feedback::Complete);
    assert_eq!(s.stage, Stage::Complete);
    let e = s.entry();
    assert_eq!((e.feeling_quant, e.feeling_word.as_str(), e.freeform_text.as_str()), (57, "curious", "Today was fine.\n"));
}

#[test]
fn save_entry_on_memory_store() {
    assert!(save_entry(":memory:", &entry(50, "meh", "")).is_ok());
}

#[test]
fn open_error_is_reported() {
    let r = open_store("/nonexistent-dir-for-diary/sub/diary.db");
    assert!(matches!(r, Err(StorageError::Open(_))));
}

#[test]
fn schema_error_is_reported() {
    let conn = open_store(":memory:").unwrap();
    conn.execute("PRAGMA query_only = ON").unwrap();
    assert!(matches!(ensure_schema(&conn), Err(StorageError::Schema(_))));
}

#[test]
fn prepare_error_without_table() {
    let conn = open_store(":memory:").unwrap();
    assert!(matches!(append(&conn, &entry(3, "x", "")), Err(StorageError::Prepare(_))));
}

#[test]
fn execute_error_is_reported() {
    let conn = open_store(":memory:").unwrap();
    conn.execute("CREATE TABLE diary_entries (id INTEGER PRIMARY KEY AUTOINCREMENT, datetime TEXT, feeling_quant INTEGER CHECK (feeling_quant > 1000), feeling_word TEXT, freeform_text TEXT)").unwrap();
    assert!(matches!(append(&conn, &entry(3, "x", "")), Err(StorageError::Execute(_))));
    assert_eq!(row_count(&conn), 0);
}

#[test]
fn insert_params_bind_entry_fields_in_order() {
    let p = insert_params(&entry(57, "curious", "it's \"fine\"\n"));
    assert_eq!(p.len(), 3);
    assert!(matches!(p[0], (1, SqlParam::Int(57))));
    assert!(matches!(&p[1], (2, SqlParam::Text(w)) if w == "curious"));
    assert!(matches!(&p[2], (3, SqlParam::Text(t)) if t == "it's \"fine\"\n"));
}

#[test]
fn scripted_session_with_quotes_stored_verbatim() {
    let script = lines(&["7\n", "wary\n", "He said \"hi\"\n", "\n", "it's ok'); DROP TABLE diary_entries;--\n", "", ""]);
    let e = entry_from_lines(&script).unwrap();
    let conn = open_store(":memory:").unwrap();
    ensure_schema(&conn).unwrap();
    append(&conn, &e).unwrap();
    assert_eq!(row_count(&conn), 1);
    let (id, _, q, w, t) = last_row(&conn);
    assert_eq!((id, q, w.as_str()), (1, 7, "wary"));
    assert_eq!(t, "He said \"hi\"\n\nit's ok'); DROP TABLE diary_entries;--\n");
}
