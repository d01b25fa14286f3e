use litewire::backend::conn_limit::{ConnectionLimiter, SeatChange};
use litewire::backend::{BackendError, Column, Double, ExecuteResult, ResultSet, Value};

fn double(f: f64) -> Double {
    Double { bits: f.to_bits(), text: f.to_string(), whole: f as i64 }
}

#[test]
fn display_null() {
    assert_eq!(Value::Null.to_text(), "NULL");
}

#[test]
fn display_integer() {
    assert_eq!(Value::Integer(42).to_text(), "42");
    assert_eq!(Value::Integer(-1).to_text(), "-1");
    assert_eq!(Value::Integer(0).to_text(), "0");
}

fn display_integer_extremes() {
    assert_eq!(Value::Integer(i64::MIN).to_text(), "-9223372036854775808");
    assert_eq!(Value::Integer(i64::MAX).to_text(), "9223372036854775807");
}

#[test]
fn display_float() {
    let s = Value::Float(double(2.72)).to_text();
    assert!(s.starts_with("2.72"));
}

#[test]
fn display_text() {
    assert_eq!(Value::Text("hello".into()).to_text(), "hello");
    assert_eq!(Value::Text(String::new()).to_text(), "");
}

#[test]
fn display_blob() {
    assert_eq!(Value::Blob(vec![0xDE, 0xAD]).to_text(), "<blob 2 bytes>");
    assert_eq!(Value::Blob(vec![]).to_text(), "<blob 0 bytes>");
}

#[test]
fn value_equality() {
    assert_eq!(Value::Null, Value::Null);
    assert_eq!(Value::Integer(1), Value::Integer(1));
    assert_ne!(Value::Integer(1), Value::Integer(2));
    assert_ne!(Value::Integer(1), Value::Text("1".into()));
    assert_eq!(Value::Text("a".into()), Value::Text("a".into()));
    assert_ne!(Value::Text("a".into()), Value::Text("b".into()));
    assert_eq!(Value::Blob(vec![1, 2]), Value::Blob(vec![1, 2]));
    assert_ne!(Value::Blob(vec![1]), Value::Blob(vec![2]));
}

fn float_equality_is_that_of_numbers() {
    assert_eq!(Value::Float(double(2.5)), Value::Float(double(2.5)));
    assert_ne!(Value::Float(double(2.5)), Value::Float(double(2.25)));
    assert_eq!(Value::Float(double(0.0)), Value::Float(double(-0.0)));
    assert_ne!(Value::Float(double(f64::NAN)), Value::Float(double(f64::NAN)));
    assert_eq!(Value::Float(double(f64::INFINITY)), Value::Float(double(f64::INFINITY)));
}

fn clone_keeps_the_value() {
    for v in [
        Value::Null,
        Value::Integer(-7),
        Value::Float(double(1.5)),
        Value::Text("x".into()),
        Value::Blob(vec![0, 255]),
    ] {
        assert_eq!(v.clone(), v);
    }
}

#[test]
fn empty_result_set() {
    let rs = ResultSet {
        columns: vec![
            Column { name: "a".into(), decltype: None },
            Column { name: "b".into(), decltype: None },
        ],
        rows: vec![],
    };
    assert_eq!(rs.columns.len(), 2);
    assert!(rs.rows.is_empty());
}

#[test]
fn backend_error_display() {
    let e = BackendError::Sqlite("table not found".into());
    assert!(e.to_text().contains("table not found"));

    let e = BackendError::Other("connection failed".into());
    assert!(e.to_text().contains("connection failed"));
}

fn backend_error_says_where_it_is_from() {
    assert_eq!(BackendError::Sqlite("x".into()).to_text(), "SQLite error: x");
    assert_eq!(BackendError::Other("x".into()).to_text(), "backend error: x");
}

#[test]
fn column_with_decltype() {
    let c = Column { name: "id".into(), decltype: Some("INTEGER".into()) };
    assert_eq!(c.name, "id");
    assert_eq!(c.decltype.as_deref(), Some("INTEGER"));
}

#[test]
fn column_without_decltype() {
    let c = Column { name: "expr".into(), decltype: None };
    assert!(c.decltype.is_none());
}

#[test]
fn execute_result_no_insert() {
    let r = ExecuteResult { affected_rows: 3, last_insert_rowid: None };
    assert_eq!(r.affected_rows, 3);
    assert!(r.last_insert_rowid.is_none());
}

#[test]
fn unlimited_never_refuses() {
    let limiter = ConnectionLimiter::new(0);
    assert_eq!(limiter.limit(), None);
    let slots: Vec<_> = (0..1000).map(|_| limiter.try_acquire()).collect();
    assert!(slots.iter().all(Option::is_some));
    assert_eq!(limiter.live(), 1000);
}

#[test]
fn cap_is_enforced_and_slots_release_on_drop() {
    let limiter = ConnectionLimiter::new(3);
    let a = limiter.try_acquire().expect("1st");
    let b = limiter.try_acquire().expect("2nd");
    let c = limiter.try_acquire().expect("3rd");
    assert_eq!(limiter.live(), 3);
    assert!(limiter.try_acquire().is_none(), "4th should be refused");

    drop(b);
    assert_eq!(limiter.live(), 2);
    let d = limiter.try_acquire().expect("slot freed by the drop");
    assert!(limiter.try_acquire().is_none());

    drop((a, c, d));
    assert_eq!(limiter.live(), 0);
}

fn limit_reads_as_it_was_set() {
    assert_eq!(ConnectionLimiter::new(8).limit(), Some(8));
    assert_eq!(ConnectionLimiter::unlimited().limit(), None);
    assert_eq!(ConnectionLimiter::default().limit(), None);
}

fn clones_of_a_limiter_share_its_seats() {
    let limiter = ConnectionLimiter::new(1);
    let other = limiter.clone();
    let seat = limiter.try_acquire();
    assert!(seat.is_some());
    assert!(other.try_acquire().is_none());
    assert_eq!(other.live(), 1);
    drop(seat);
    assert!(other.try_acquire().is_some());
}

fn count_is_that_of_the_slots() {
    for max in [0usize, 2] {
        let limiter = ConnectionLimiter::new(max);
        assert_eq!(limiter.live(), 0);
        let mut slots = Vec::new();
        for ask in [true, true, true, false, true, false, false, true, true, true] {
            if ask {
                slots.extend(limiter.try_acquire());
            } else {
                slots.pop();
            }
            assert_eq!(limiter.live(), slots.len());
            assert!(max == 0 || slots.len() <= max);
        }
        drop(slots);
        assert_eq!(limiter.live(), 0);
    }
}

fn seat_is_taken_only_below_the_cap() {
    let limiter = ConnectionLimiter::new(2);
    let a = limiter.try_acquire();
    let b = limiter.try_acquire();
    assert!(a.is_some() && b.is_some());
    assert_eq!(limiter.wanted(), SeatChange::Take(Some(2)));
    assert_eq!(limiter.ask(), Err(2));
    assert!(limiter.seated(Err(2)).is_none());
    assert_eq!(limiter.live(), 2);
}

#[test]
fn values_and_errors_at_the_edges() {
    display_integer_extremes();
    float_equality_is_that_of_numbers();
    clone_keeps_the_value();
    backend_error_says_where_it_is_from();
}

#[test]
fn seats_of_a_limiter() {
    limit_reads_as_it_was_set();
    clones_of_a_limiter_share_its_seats();
    count_is_that_of_the_slots();
    seat_is_taken_only_below_the_cap();
}
