use sqltext::row::{CellKind, DbError, DecodeError, LocalTimestamp, UtcTimestamp};
use sqltext::sql::{dbfmt, dbfmt_comp, dbfmt_t, where_sql, CompOp, DbValue};
use sqltext::store::{query_single_row_to_tuple, query_to_i64, query_to_string, query_to_tuples};
use sqltext::timestamp::Timestamp;
use chrono::{Datelike, Local, TimeZone, Timelike, Utc};

fn text(s: &str) -> DbValue {
    DbValue::Text(s.to_string())
}

/// Opens a named shared in-memory store and fills table `t` with the rows
/// the queries expect. The returned connection must stay alive while the
/// library opens its own connection to the same name.
fn setup(name: &str) -> (rusqlite::Connection, String) {
    let uri = format!("file:{}?mode=memory&cache=shared", name);
    let conn = rusqlite::Connection::open(&uri).unwrap();
    conn.execute_batch("CREATE TABLE t(c INTEGER); INSERT INTO t VALUES (1),(2),(NULL);").unwrap();
    (conn, uri)
}

#[test]
fn test_optional_none_with_comparison_operator() {
    let input: Option<DbValue> = None;
    assert_eq!(dbfmt_comp(input, CompOp::NEq), " IS NOT NULL");
}

#[test]
fn test_optional_none() {
    let input: Option<DbValue> = None;
    assert_eq!(dbfmt(input), "NULL");
}

#[test]
fn test_optional_some_str_with_single_quote_with_comparison_operator() {
    let input = Some(text("O'Brien's test"));
    assert_eq!(dbfmt_comp(input, CompOp::LtEq), " <= 'O''Brien''s test'");
}

#[test]
fn test_optional_some_string_with_single_quote() {
    let input = Some(text("It's a test"));
    assert_eq!(dbfmt(input), "'It''s a test'");
}

#[test]
fn test_optional_some_custom_type_display() {
    let input = Some(DbValue::Other(format!("CustomID({})", 99)));
    assert_eq!(dbfmt_comp(input, CompOp::Eq), " = CustomID(99)");
}

#[test]
fn test_bare_str_with_single_quote() {
    let input = text("The customer's order");
    assert_eq!(dbfmt_t(&input), "'The customer''s order'");
}

#[test]
fn test_bare_string_with_single_quote_with_comparison_operator() {
    let input = text("Manager's report");
    assert_eq!(dbfmt_t(&input), "'Manager''s report'");
}

#[test]
fn test_bare_i32() {
    let input = DbValue::from_i64(-500);
    assert_eq!(dbfmt_t(&input), "-500");
}

#[test]
fn test_bare_custom_type_display() {
    let input = DbValue::Other(format!("CustomID({})", 123));
    assert_eq!(dbfmt_t(&input), "CustomID(123)");
}

#[test]
fn test_bare_datetime_utc() {
    let stamp = Timestamp::new(2023, 12, 25, 14, 30, 45).unwrap();
    let input = DbValue::TimestampUtc(stamp);
    assert_eq!(dbfmt_t(&input), "datetime('2023-12-25 14:30:45')");
}

#[test]
fn test_bare_datetime_local() {
    // Local wall-clock values are written with the engine's 'utc'
    // conversion modifier, so the store always holds UTC.
    let stamp = Timestamp::new(2023, 12, 25, 14, 30, 45).unwrap();
    let input = DbValue::TimestampLocal(stamp);
    assert_eq!(dbfmt_t(&input), "datetime('2023-12-25 14:30:45', 'utc')");
}

#[test]
fn test_new_tuple_based_syntax() {
    let result = where_sql(
        "select c from t WHERE {} AND {}",
        &vec![
            ("c1".to_string(), dbfmt_comp(Some(DbValue::from_i64(3)), CompOp::Eq)),
            ("c2".to_string(), dbfmt_comp(None, CompOp::NEq)),
        ],
    )
    .unwrap();

    let expected = "select c from t WHERE c1 = 3 AND c2 IS NOT NULL";
    assert_eq!(result, expected);
}

#[test]
fn test_mixed_types_and_multiple_placeholders() {
    let result = where_sql(
        "SELECT * FROM inventory WHERE {} AND location='warehouse' OR {}",
        &vec![
            ("product_id".to_string(), dbfmt_comp(Some(DbValue::from_i64(101)), CompOp::Eq)),
            ("price".to_string(), dbfmt_comp(Some(DbValue::Other(format!("{}", 49.99))), CompOp::Eq)),
        ],
    )
    .unwrap();

    let expected = "SELECT * FROM inventory WHERE product_id = 101 AND location='warehouse' OR price = 49.99";
    assert_eq!(result, expected);
}

#[test]
fn test_single_condition_and_placeholder() {
    let result = where_sql(
        "SELECT id FROM orders WHERE {}",
        &vec![("customer_id".to_string(), dbfmt_comp(Some(DbValue::from_i64(5)), CompOp::Gt))],
    )
    .unwrap();

    let expected = "SELECT id FROM orders WHERE customer_id > 5";
    assert_eq!(result, expected);
}

#[test]
fn test_field_and_value_as_variables() {
    let field_name = "user_name";
    let value_data = Some(text("Alice"));

    let result = where_sql(
        "SELECT roles FROM access_table WHERE {} AND {}",
        &vec![
            (field_name.to_string(), dbfmt_comp(value_data, CompOp::Eq)),
            ("status".to_string(), dbfmt_comp(Some(DbValue::from_i64(2)), CompOp::Lt)),
        ],
    )
    .unwrap();

    let expected = "SELECT roles FROM access_table WHERE user_name = 'Alice' AND status < 2";
    assert_eq!(result, expected);
}

#[test]
fn test_where_sql_count_mismatch() {
    let pairs = vec![
        ("a".to_string(), "=1".to_string()),
        ("b".to_string(), "=2".to_string()),
    ];
    assert_eq!(where_sql("WHERE {}", &pairs), None);
    assert_eq!(where_sql("WHERE {} AND {} AND {}", &pairs), None);
}

#[test]
fn test_comparison_null_degrades_to_is_null() {
    // Ordering intent against an absent value degrades to a plain IS NULL.
    for op in [CompOp::Eq, CompOp::Gt, CompOp::GtEq, CompOp::Lt, CompOp::LtEq] {
        let input: Option<DbValue> = None;
        assert_eq!(dbfmt_comp(input, op), " IS NULL");
    }
}

#[test]
fn test_comparison_present_values() {
    assert_eq!(dbfmt_comp(Some(DbValue::from_i64(3)), CompOp::Eq), " = 3");
    assert_eq!(
        dbfmt_comp(Some(DbValue::Other(format!("{}", 49.99))), CompOp::Eq),
        " = 49.99"
    );
}

#[test]
fn test_escape_round_trip_concrete() {
    let formatted = dbfmt_t(&text("O'Brien's test"));
    assert_eq!(formatted, "'O''Brien''s test'");
    let inner = &formatted[1..formatted.len() - 1];
    assert_eq!(sqltext::strings::unescape_text(inner), "O'Brien's test");
}

#[test]
fn test_same_instant_same_core_text() {
    let stamp = Timestamp::new(2024, 2, 29, 0, 0, 1).unwrap();
    let utc = dbfmt_t(&DbValue::TimestampUtc(stamp));
    let local = dbfmt_t(&DbValue::TimestampLocal(stamp));
    assert!(utc.starts_with("datetime('2024-02-29 00:00:01'"));
    assert!(local.starts_with("datetime('2024-02-29 00:00:01'"));
}

#[test]
fn test_query_to_i64() {
    let (_conn, uri) = setup("q_i64");
    let sql = "SELECT COUNT(*) FROM t;";
    let result = query_to_i64(&uri, sql).unwrap();
    let expected: Option<i64> = Some(3);
    assert_eq!(result, expected);
}

#[test]
fn test_query_to_i64_no_rows() {
    let (_conn, uri) = setup("q_i64_no_rows");
    let sql = "SELECT c FROM t WHERE 1=2;";
    let result = query_to_i64(&uri, sql).unwrap();
    let expected: Option<i64> = None;
    assert_eq!(result, expected);
}

#[test]
fn test_query_to_i64_str() {
    let (_conn, uri) = setup("q_i64_str");
    let sql = "SELECT CAST(10 AS TEXT) AS c FROM t LIMIT 1;";
    let result = query_to_i64(&uri, sql).unwrap();
    let expected: Option<i64> = Some(10);
    assert_eq!(result, expected);
}

#[test]
fn test_query_to_i64_null() {
    let (_conn, uri) = setup("q_i64_null");
    let sql = "SELECT NULL AS c FROM t LIMIT 1;";
    let result = query_to_i64(&uri, sql);
    assert!(result.is_err());
    assert_eq!(
        result,
        Err(DbError::Decode(DecodeError::Kind {
            column: 0,
            expected: CellKind::Integer,
            got: CellKind::Null,
        }))
    );
}

#[test]
fn test_query_to_i64_bad_text() {
    let (_conn, uri) = setup("q_i64_bad_text");
    let result = query_to_i64(&uri, "SELECT 'abc' AS c FROM t LIMIT 1;");
    assert_eq!(result, Err(DbError::Decode(DecodeError::BadText { column: 0 })));
}

#[test]
fn test_local_timestamp_rejects_year_zero() {
    // A year-zero reading cannot be shifted to local time without leaving
    // the calendar, so it is rejected rather than converted.
    let (_conn, uri) = setup("q_local_year_zero");
    let result = query_single_row_to_tuple::<(LocalTimestamp,)>(
        &uri,
        "SELECT '0000-01-01 00:00:00';",
    );
    assert_eq!(result, Err(DbError::Decode(DecodeError::OutOfRange { column: 0 })));
}

#[test]
fn test_utc_timestamp_kind_mismatch() {
    let (_conn, uri) = setup("q_utc_kind");
    let result = query_single_row_to_tuple::<(UtcTimestamp,)>(&uri, "SELECT 7;");
    assert_eq!(
        result,
        Err(DbError::Decode(DecodeError::Kind {
            column: 0,
            expected: CellKind::Text,
            got: CellKind::Integer,
        }))
    );
}

#[test]
fn test_query_to_i64_connection_error() {
    let result = query_to_i64("/no/such/directory/store.db", "SELECT 1;");
    assert!(matches!(result, Err(DbError::Connection(_))));
}

#[test]
fn test_query_to_i64_statement_error() {
    let (_conn, uri) = setup("q_i64_bad_sql");
    let result = query_to_i64(&uri, "SELECT FROM WHERE;");
    assert!(matches!(result, Err(DbError::Statement(_))));
}

#[test]
fn test_query_single_row_to_tuple() {
    let (_conn, uri) = setup("q_single");
    let sql = "SELECT 1 AS c1, 2 AS c2 FROM t LIMIT 1;";
    let result = query_single_row_to_tuple::<(i64, u8)>(&uri, sql).unwrap();
    let expected: Option<(i64, u8)> = Some((1, 2));
    assert_eq!(result, expected);
}

#[test]
fn test_query_single_row_to_tuple_datetime_utc() {
    let (_conn, uri) = setup("q_single_dt_utc");
    let sql = "SELECT datetime('now', 'utc');";
    let result = query_single_row_to_tuple::<(UtcTimestamp,)>(&uri, sql).unwrap();
    let now = Utc::now();
    let expected = Timestamp::new(
        now.year() as u16,
        now.month() as u8,
        now.day() as u8,
        now.hour() as u8,
        now.minute() as u8,
        now.second() as u8,
    )
    .unwrap();
    assert_eq!(result, Some((UtcTimestamp { stamp: expected },)));
}

#[test]
fn test_query_single_row_to_tuple_datetime_local() {
    // The stored text is assumed to be a UTC wall clock and is shifted to
    // this machine's local time when read back into a local-zoned shape.
    let (_conn, uri) = setup("q_single_dt_local");
    let sql = "SELECT datetime('now', 'utc');";
    let result = query_single_row_to_tuple::<(LocalTimestamp,)>(&uri, sql).unwrap();
    let now = Local::now();
    let expected = Timestamp::new(
        now.year() as u16,
        now.month() as u8,
        now.day() as u8,
        now.hour() as u8,
        now.minute() as u8,
        now.second() as u8,
    )
    .unwrap();
    assert_eq!(result, Some((LocalTimestamp { stamp: expected },)));
}

#[test]
fn test_query_single_row_to_tuple_no_rows() {
    let (_conn, uri) = setup("q_single_no_rows");
    let sql = "SELECT 1 AS c1, 2 AS c2 FROM t WHERE 1=2;";
    let result = query_single_row_to_tuple::<(i64, u8)>(&uri, sql).unwrap();
    let expected: Option<(i64, u8)> = None;
    assert_eq!(result, expected);
}

#[test]
fn test_query_single_row_failing_contract() {
    let (_conn, uri) = setup("q_single_bad");
    let sql = "SELECT NULL AS c1;";
    let result = query_single_row_to_tuple::<(i64,)>(&uri, sql);
    assert_eq!(
        result,
        Err(DbError::Decode(DecodeError::Kind {
            column: 0,
            expected: CellKind::Integer,
            got: CellKind::Null,
        }))
    );
}

#[test]
fn test_query_single_row_ignores_later_rows() {
    // Row 0 decodes; row 1 would fail its contract but is never inspected.
    let (_conn, uri) = setup("q_single_later");
    let sql = "SELECT 1 AS c1 UNION ALL SELECT NULL;";
    let result = query_single_row_to_tuple::<(i64,)>(&uri, sql).unwrap();
    assert_eq!(result, Some((1,)));
}

#[test]
fn test_query_to_tuples() {
    let (_conn, uri) = setup("q_tuples");
    let sql = "SELECT c, 0 AS c2 FROM t LIMIT 2;";
    let result = query_to_tuples::<(i64, u8)>(&uri, sql).unwrap();
    let mut expected: Vec<(i64, u8)> = Vec::new();
    expected.push((1, 0));
    expected.push((2, 0));
    assert_eq!(result, expected);
}

#[test]
fn test_query_to_tuples_nullable() {
    let (_conn, uri) = setup("q_tuples_nullable");
    let sql = "SELECT c, 0 AS c2 FROM t LIMIT 3;";
    let result = query_to_tuples::<(Option<i64>, u8)>(&uri, sql).unwrap();
    let mut expected: Vec<(Option<i64>, u8)> = Vec::new();
    expected.push((Some(1), 0));
    expected.push((Some(2), 0));
    expected.push((None, 0));
    assert_eq!(result, expected);
}

#[test]
fn test_query_to_tuples_failing_row_aborts() {
    // The NULL in the middle row fails the non-optional contract: the whole
    // call fails and no partial sequence of the earlier successes appears.
    let (_conn, uri) = setup("q_tuples_abort");
    let sql = "SELECT c FROM t ORDER BY (c IS NULL), c;";
    let result = query_to_tuples::<(i64,)>(&uri, sql);
    assert_eq!(
        result,
        Err(DbError::Decode(DecodeError::Kind {
            column: 0,
            expected: CellKind::Integer,
            got: CellKind::Null,
        }))
    );
}

#[test]
fn test_local_timestamp_shifts_by_local_offset() {
    // The stored UTC wall clock comes back shifted to this machine's
    // local reading of the same instant, whatever the zone is.
    let (_conn, uri) = setup("q_local_shift");
    let sql = "SELECT '2020-06-15 12:00:00';";
    let result = query_single_row_to_tuple::<(LocalTimestamp,)>(&uri, sql).unwrap();
    let instant = Utc.with_ymd_and_hms(2020, 6, 15, 12, 0, 0).unwrap().with_timezone(&Local);
    let expected = Timestamp::new(
        instant.year() as u16,
        instant.month() as u8,
        instant.day() as u8,
        instant.hour() as u8,
        instant.minute() as u8,
        instant.second() as u8,
    )
    .unwrap();
    assert_eq!(result, Some((LocalTimestamp { stamp: expected },)));
}

#[test]
fn test_query_to_tuples_out_of_range() {
    let (_conn, uri) = setup("q_tuples_range");
    let sql = "SELECT 300 AS c;";
    let result = query_to_tuples::<(u8,)>(&uri, sql);
    assert_eq!(result, Err(DbError::Decode(DecodeError::OutOfRange { column: 0 })));
}

#[test]
fn test_query_to_tuples_column_count() {
    let (_conn, uri) = setup("q_tuples_cols");
    let sql = "SELECT 1 AS a, 2 AS b;";
    let result = query_to_tuples::<(i64,)>(&uri, sql);
    assert_eq!(
        result,
        Err(DbError::Decode(DecodeError::ColumnCount { expected: 1, got: 2 }))
    );
}

#[test]
fn test_query_to_string() {
    let (_conn, uri) = setup("q_string");
    let sql = "SELECT 'string' FROM t LIMIT 1;";
    let result = query_to_string(&uri, sql).unwrap();
    let expected: Option<String> = Some(String::from("string"));
    assert_eq!(result, expected);
}

#[test]
fn test_query_to_string_null() {
    let (_conn, uri) = setup("q_string_null");
    let sql = "SELECT NULL FROM t LIMIT 1;";
    let result = query_to_string(&uri, sql).unwrap();
    let expected: Option<String> = None;
    assert_eq!(result, expected);
}

#[test]
fn test_query_to_string_int() {
    let (_conn, uri) = setup("q_string_int");
    let sql = "SELECT 67 FROM t LIMIT 1;";
    let result = query_to_string(&uri, sql).unwrap();
    let expected: Option<String> = Some(String::from("67"));
    assert_eq!(result, expected);
}

#[test]
fn test_query_to_string_real() {
    let (_conn, uri) = setup("q_string_real");
    let sql = "SELECT 3.14159 FROM t LIMIT 1;";
    let result = query_to_string(&uri, sql).unwrap();
    let expected: Option<String> = Some(String::from("3.14159"));
    assert_eq!(result, expected);
}

#[test]
fn test_query_to_string_blob() {
    let (_conn, uri) = setup("q_string_blob");
    let sql = "SELECT x'ff00e767' FROM t LIMIT 1;";
    let result = query_to_string(&uri, sql).unwrap();
    let expected: Option<String> = Some(String::from("ff00e767"));
    assert_eq!(result, expected);
}

#[test]
fn test_query_to_string_inmemory() {
    let sql = "SELECT 'string';";
    let result = query_to_string("", sql).unwrap();
    let expected: Option<String> = Some(String::from("string"));
    assert_eq!(result, expected);
}

#[test]
fn test_query_to_string_no_rows_is_error() {
    // Unlike the integer reading, the text reading treats zero rows as the
    // row-absent error.
    let (_conn, uri) = setup("q_string_no_rows");
    let result = query_to_string(&uri, "SELECT c FROM t WHERE 1=2;");
    assert_eq!(result, Err(DbError::NoRows));
}
