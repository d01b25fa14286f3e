use litewire::session::error_map::{
    classify, duplicate_entry_message, ER_DUP_ENTRY, ER_LOCK_WAIT_TIMEOUT, ER_NO_REFERENCED_ROW_2,
    ER_NO_SUCH_TABLE, ER_OPTION_PREVENTS_STATEMENT, ER_UNKNOWN_ERROR,
};

#[test]
fn unique_constraint_maps_to_1062() {
    let e = classify("UNIQUE constraint failed: users.email");
    assert_eq!(e.code, ER_DUP_ENTRY);
    assert_eq!(&e.sqlstate, b"23000");
}

#[test]
fn primary_key_constraint_maps_to_1062() {
    let e = classify("PRIMARY KEY constraint failed: users.id");
    assert_eq!(e.code, ER_DUP_ENTRY);
    assert_eq!(&e.sqlstate, b"23000");
}

#[test]
fn foreign_key_maps_to_1452() {
    let e = classify("FOREIGN KEY constraint failed");
    assert_eq!(e.code, ER_NO_REFERENCED_ROW_2);
    assert_eq!(&e.sqlstate, b"23000");
}

#[test]
fn busy_maps_to_1205() {
    let e = classify("database is locked");
    assert_eq!(e.code, ER_LOCK_WAIT_TIMEOUT);
    assert_eq!(&e.sqlstate, b"HY000");
}

#[test]
fn readonly_maps_to_1290() {
    let e = classify("attempt to write a readonly database");
    assert_eq!(e.code, ER_OPTION_PREVENTS_STATEMENT);
    assert_eq!(&e.sqlstate, b"HY000");
}

#[test]
fn unknown_falls_back_to_1105() {
    for msg in ["disk I/O error", "something the classifier never heard of"] {
        let e = classify(msg);
        assert_eq!(e.code, ER_UNKNOWN_ERROR, "{msg}");
        assert_eq!(&e.sqlstate, b"HY000", "{msg}");
        assert_eq!(e.message, msg, "unclassified errors keep their text");
    }
}

#[test]
fn classify_preserves_message() {
    let msg = "UNIQUE constraint failed: users.email";
    let e = classify(msg);
    assert!(e.message.contains(msg), "lost SQLite's own text: {}", e.message);
    for msg in [
        "database is locked",
        "FOREIGN KEY constraint failed",
        "attempt to write a readonly database",
        "no such table: sprockets",
        "disk I/O error",
    ] {
        assert_eq!(classify(msg).message, msg, "{msg} must be forwarded as-is");
    }
}

#[test]
fn no_such_table_maps_to_1146() {
    let e = classify("no such table: sprockets");
    assert_eq!(e.code, ER_NO_SUCH_TABLE);
    assert_eq!(&e.sqlstate, b"42S02");
    assert_eq!(e.message, "no such table: sprockets");
}

#[test]
fn no_such_table_is_matched_inside_a_longer_message() {
    let e = classify("Parse error: no such table: wp_posts");
    assert_eq!(e.code, ER_NO_SUCH_TABLE);
    assert_eq!(&e.sqlstate, b"42S02");
}

#[test]
fn duplicate_entry_gets_a_mysql_shaped_message() {
    let e = classify("UNIQUE constraint failed: users.email");
    assert_eq!(e.code, ER_DUP_ENTRY);
    assert_eq!(
        e.message,
        "Duplicate entry '<unknown>' for key 'users.email' \
         (UNIQUE constraint failed: users.email)"
    );
}

#[test]
fn duplicate_entry_message_matches_the_shape_stock_drivers_look_for() {
    let message = classify("UNIQUE constraint failed: users.email").message;
    let key_start = message.find("Duplicate entry '").expect("no entry marker");
    let for_key = message.find("' for key '").expect("no key marker");
    assert!(for_key > key_start);
    assert!(message[for_key..].contains("users.email'"));
}

#[test]
fn primary_key_violation_gets_the_same_shape() {
    let e = classify("PRIMARY KEY constraint failed: users.id");
    assert_eq!(e.code, ER_DUP_ENTRY);
    assert!(e.message.starts_with("Duplicate entry '<unknown>' for key 'users.id'"));
    assert!(e.message.contains("PRIMARY KEY constraint failed: users.id"));
}

#[test]
fn composite_unique_constraint_uses_the_whole_column_list_as_the_key() {
    let e = classify("UNIQUE constraint failed: t.a, t.b");
    assert!(
        e.message.starts_with("Duplicate entry '<unknown>' for key 't.a, t.b'"),
        "got: {}",
        e.message
    );
}

#[test]
fn duplicate_entry_key_survives_a_backend_message_prefix() {
    let e = classify("SQLite error: UNIQUE constraint failed: users.email");
    assert!(
        e.message.starts_with("Duplicate entry '<unknown>' for key 'users.email'"),
        "got: {}",
        e.message
    );
}

#[test]
fn duplicate_entry_without_a_column_list_keeps_its_original_message() {
    let e = classify("UNIQUE constraint failed");
    assert_eq!(e.code, ER_DUP_ENTRY);
    assert_eq!(e.message, "UNIQUE constraint failed");
}

fn duplicate_entry_message_uses_the_last_marker() {
    assert_eq!(
        duplicate_entry_message("constraint failed: a constraint failed:  b "),
        "Duplicate entry '<unknown>' for key 'b' (constraint failed: a constraint failed:  b )"
    );
    assert_eq!(duplicate_entry_message("constraint failed:   "), "constraint failed:   ");
}

fn classifying_again_keeps_the_code() {
    for msg in [
        "UNIQUE constraint failed: users.email",
        "SQLite error: PRIMARY KEY constraint failed: t.id",
        "database is locked",
        "no such table: t",
        "attempt to write a readonly database",
        "FOREIGN KEY constraint failed",
        "else",
    ] {
        let once = classify(msg);
        assert_eq!(classify(&once.message).code, once.code, "{msg}");
    }
}

fn every_lock_and_readonly_spelling_is_known() {
    for msg in ["database table is locked: t", "[SQLITE_BUSY] x", "SQLITE_LOCKED"] {
        assert_eq!(classify(msg).code, ER_LOCK_WAIT_TIMEOUT, "{msg}");
    }
    for msg in ["readonly database", "SQLITE_READONLY (8)"] {
        assert_eq!(classify(msg).code, ER_OPTION_PREVENTS_STATEMENT, "{msg}");
    }
}

#[test]
fn classification_at_the_edges() {
    duplicate_entry_message_uses_the_last_marker();
    classifying_again_keeps_the_code();
    every_lock_and_readonly_spelling_is_known();
}
