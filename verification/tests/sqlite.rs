//! The store against the statements that an SQLite file of the same schema runs.

use hearth::database::Database;
use hearth::records::{Contact, Message};
use rusqlite::Connection;

fn texts() -> Vec<String> {
    let parts = ["", "a", "B", "é", "É", "ab", "Ab%", "_", "\\", "z\u{10000}", "\u{ffff}", " b"];
    let mut all = vec![];
    for x in parts {
        for y in parts {
            all.push(format!("{x}{y}"));
        }
    }
    all.sort();
    all.dedup();
    all
}

fn with_body(body: &str) -> Database {
    let mut db = Database::in_memory();
    db.create_conversation("c", "dm", "", &vec!["bob".into()], 1);
    db.insert_message(&Message {
        id: "m".into(),
        conversation_id: "c".into(),
        sender_device_id: "d".into(),
        sender_username: "bob".into(),
        message_type: "Message".into(),
        body: body.into(),
        ciphertext: vec![],
        sequence: 1,
        status: "delivered".into(),
        reply_to: None,
        created_at_ms: 1,
        edited_at_ms: None,
        deleted_at_ms: None,
    })
    .unwrap();
    db
}

#[test]
fn searching_agrees_with_like() {
    let sqlite = Connection::open_in_memory().unwrap();
    for body in texts() {
        let db = with_body(&body);
        for query in texts() {
            let mut pattern = String::from("%");
            for c in query.chars().take(80) {
                if matches!(c, '%' | '_' | '\\') {
                    pattern.push('\\');
                }
                pattern.push(c);
            }
            pattern.push('%');
            let expected: bool = sqlite
                .query_row(
                    "SELECT ?1 LIKE ?2 ESCAPE '\\'",
                    (body.as_str(), pattern.as_str()),
                    |row| row.get(0),
                )
                .unwrap();
            let found = db.search_messages("c", &query, 10);
            assert_eq!(!found.is_empty(), expected, "{body:?} {query:?}");
        }
    }
}

#[test]
fn names_are_ordered_like_text() {
    let sqlite = Connection::open_in_memory().unwrap();
    sqlite.execute_batch("CREATE TABLE t (username TEXT PRIMARY KEY)").unwrap();
    let mut db = Database::in_memory();
    for name in texts() {
        sqlite.execute("INSERT INTO t VALUES (?1)", [name.as_str()]).unwrap();
        db.upsert_contact(
            &Contact {
                username: name.clone(),
                display_name: "".into(),
                x25519_pubkey: None,
                ed_pubkey: None,
                endpoint_id: None,
                endpoint_bundle: None,
                status: "friend".into(),
            },
            1,
        );
    }
    let mut statement = sqlite.prepare("SELECT username FROM t ORDER BY username").unwrap();
    let expected: Vec<String> =
        statement.query_map([], |row| row.get(0)).unwrap().map(|r| r.unwrap()).collect();
    let found: Vec<String> = db.list_contacts().into_iter().map(|c| c.username).collect();
    assert_eq!(found, expected);
}

#[test]
fn limits_agree_with_limit() {
    let sqlite = Connection::open_in_memory().unwrap();
    sqlite.execute_batch("CREATE TABLE t (n INTEGER)").unwrap();
    let mut db = Database::in_memory();
    db.create_conversation("c", "dm", "", &vec!["bob".into()], 1);
    for n in 0..5 {
        sqlite.execute("INSERT INTO t VALUES (?1)", [n]).unwrap();
        let mut message = with_body("x").messages[0].clone();
        message.id = format!("m{n}");
        message.sequence = n;
        db.insert_message(&message).unwrap();
    }
    for limit in [-7, -1, 0, 1, 3, 5, 9] {
        let mut statement = sqlite.prepare("SELECT n FROM t ORDER BY n LIMIT ?1").unwrap();
        let expected: Vec<i64> =
            statement.query_map([limit], |row| row.get(0)).unwrap().map(|r| r.unwrap()).collect();
        let found: Vec<i64> =
            db.list_messages("c", limit).into_iter().map(|m| m.sequence).collect();
        assert_eq!(found, expected, "{limit}");
    }
}
