//! The decoder entry points. Each one opens its own connection to the
//! named store for the duration of the call, runs one parameterless
//! statement, reduces the result rows to plain data, and hands them to
//! the verified decoders.

use vstd::prelude::*;
use crate::row::{
    decode_all_rows, decode_scalar_i64, decode_single_row, rows_view, scalar_i64_spec,
    scalar_text_matches, single_row_ok, CellValue, DbError, FromRow,
};

verus! {

/// Declares rusqlite's connection type so wrappers can hold and pass it.
#[verifier::external_type_specification]
#[verifier::external_body]
pub struct ExConnection(rusqlite::Connection);

/// Declares rusqlite's borrowed column value so `cell_of` can take it.
#[verifier::external_type_specification]
#[verifier::external_body]
pub struct ExValueRef<'a>(rusqlite::types::ValueRef<'a>);

/// Relies on rusqlite's `Connection::open`: opens the store at the path,
/// creating the file when absent. The error is the failure's display text.
#[verifier::external_body]
fn open_store(path: &str) -> Result<rusqlite::Connection, String> {
    rusqlite::Connection::open(path).map_err(|e| e.to_string())
}

/// Relies on rusqlite's `ValueRef`: reduces one column value to plain
/// data, one arm per storage class. A stored real is carried as its
/// `as`-cast truncation toward zero (saturating at the `i64` bounds, 0
/// for a non-number) and its display text, since the decoders read only
/// those; text bytes are read lossily as UTF-8.
#[verifier::external_body]
fn cell_of(v: rusqlite::types::ValueRef<'_>) -> CellValue {
    match v {
        rusqlite::types::ValueRef::Null => CellValue::Null,
        rusqlite::types::ValueRef::Integer(i) => CellValue::Integer(i),
        rusqlite::types::ValueRef::Real(f) => CellValue::Real {
            trunc: f as i64,
            text: format!("{}", f),
        },
        rusqlite::types::ValueRef::Text(b) => CellValue::Text(
            String::from_utf8_lossy(b).to_string(),
        ),
        rusqlite::types::ValueRef::Blob(b) => CellValue::Blob(b.to_vec()),
    }
}

/// Relies on rusqlite's `Statement::query_map`: prepares and runs the
/// statement without parameters and collects every row in result order,
/// each cell reduced by `cell_of`. The error is the failure's display
/// text.
#[verifier::external_body]
fn fetch_rows(conn: &rusqlite::Connection, sql: &str) -> Result<Vec<Vec<CellValue>>, String> {
    let run = || -> rusqlite::Result<Vec<Vec<CellValue>>> {
        let mut stmt = conn.prepare(sql)?;
        let rows = stmt.query_map([], |row| {
            let n = row.as_ref().column_count();
            let mut cells = Vec::with_capacity(n);
            for i in 0..n {
                cells.push(cell_of(row.get_ref(i)?));
            }
            Ok(cells)
        })?;
        rows.collect()
    };
    run().map_err(|e| e.to_string())
}

/// As `fetch_rows`, but steps the statement for at most `cap` rows and
/// never touches what lies beyond: the readers of row 0 alone use this
/// with a cap of one, so a long result is not drained and a failure past
/// the first step never surfaces, as when the original stepped row by
/// row.
#[verifier::external_body]
fn fetch_rows_up_to(conn: &rusqlite::Connection, sql: &str, cap: usize) -> Result<
    Vec<Vec<CellValue>>,
    String,
> {
    let run = || -> rusqlite::Result<Vec<Vec<CellValue>>> {
        let mut stmt = conn.prepare(sql)?;
        let rows = stmt.query_map([], |row| {
            let n = row.as_ref().column_count();
            let mut cells = Vec::with_capacity(n);
            for i in 0..n {
                cells.push(cell_of(row.get_ref(i)?));
            }
            Ok(cells)
        })?;
        rows.take(cap).collect()
    };
    run().map_err(|e| e.to_string())
}

/// Reads column 0 of row 0 of the statement's result as an integer, per
/// `scalar_i64_spec`: zero rows is absent, not an error. Every outcome is
/// a connection failure, a statement failure, or the scalar-integer
/// reading of whatever rows came back.
pub fn query_to_i64(db_path: &str, sql: &str) -> (r: Result<Option<i64>, DbError>)
    ensures
        (r matches Err(DbError::Connection(_))) || (r matches Err(DbError::Statement(_))) || (
        exists|rows: Seq<Seq<CellValue>>| r == scalar_i64_spec(rows)),
{
    let conn = match open_store(db_path) {
        Ok(c) => c,
        Err(e) => {
            return Err(DbError::Connection(e));
        },
    };
    let rows = match fetch_rows_up_to(&conn, sql, 1) {
        Ok(rs) => rs,
        Err(e) => {
            return Err(DbError::Statement(e));
        },
    };
    let r = decode_scalar_i64(&rows);
    proof {
        assert(r == scalar_i64_spec(rows_view(&rows)));
    }
    r
}

/// Reads column 0 of row 0 of the statement's result as text, per
/// `scalar_text_spec`: zero rows is the row-absent error, NULL is absent.
/// Every outcome is a connection failure, a statement failure, or the
/// scalar-text reading of whatever rows came back.
pub fn query_to_string(db_path: &str, sql: &str) -> (r: Result<Option<String>, DbError>)
    ensures
        (r matches Err(DbError::Connection(_))) || (r matches Err(DbError::Statement(_))) || (
        exists|rows: Seq<Seq<CellValue>>| scalar_text_matches(rows, r)),
{
    let conn = match open_store(db_path) {
        Ok(c) => c,
        Err(e) => {
            return Err(DbError::Connection(e));
        },
    };
    let rows = match fetch_rows_up_to(&conn, sql, 1) {
        Ok(rs) => rs,
        Err(e) => {
            return Err(DbError::Statement(e));
        },
    };
    let r = crate::row::decode_scalar_text(&rows);
    proof {
        assert(scalar_text_matches(rows_view(&rows), r));
    }
    r
}

/// What the single-row entry point may yield for given result rows: the
/// single-row reading, with a failing first row's own decode error
/// wrapped.
pub open spec fn single_row_result_ok<T: FromRow>(
    rows: Seq<Seq<CellValue>>,
    r: Result<Option<T>, DbError>,
) -> bool {
    match r {
        Ok(v) => single_row_ok::<T>(rows, Ok(v)),
        Err(DbError::Decode(e)) => single_row_ok::<T>(rows, Err(e)),
        Err(_) => false,
    }
}

/// Decodes row 0 of the statement's result into the target shape: zero
/// rows is absent, not an error; a failing first row surfaces its decode
/// error; rows beyond the first are never inspected. Every outcome is a
/// connection failure, a statement failure, or the single-row reading of
/// whatever rows came back.
pub fn query_single_row_to_tuple<T: FromRow>(db_path: &str, sql: &str) -> (r: Result<
    Option<T>,
    DbError,
>)
    ensures
        (r matches Err(DbError::Connection(_))) || (r matches Err(DbError::Statement(_))) || (
        exists|rows: Seq<Seq<CellValue>>| single_row_result_ok::<T>(rows, r)),
{
    let conn = match open_store(db_path) {
        Ok(c) => c,
        Err(e) => {
            return Err(DbError::Connection(e));
        },
    };
    let rows = match fetch_rows_up_to(&conn, sql, 1) {
        Ok(rs) => rs,
        Err(e) => {
            return Err(DbError::Statement(e));
        },
    };
    let r: Result<Option<T>, DbError> = match decode_single_row::<T>(&rows) {
        Ok(v) => Ok(v),
        Err(e) => Err(DbError::Decode(e)),
    };
    proof {
        assert(single_row_result_ok::<T>(rows_view(&rows), r));
    }
    r
}

/// What the all-rows entry point may yield for given result rows: every
/// row converted in order, or the first failing row's own decode failure
/// with no partial sequence.
pub open spec fn all_rows_result_ok<T: FromRow>(
    rows: Seq<Seq<CellValue>>,
    r: Result<Vec<T>, DbError>,
) -> bool {
    match r {
        Ok(v) => v@.len() == rows.len() && (forall|k: int|
            0 <= k < rows.len() ==> T::accepts(#[trigger] rows[k]) && T::row_ok(rows[k], v@[k])),
        Err(DbError::Decode(e)) => exists|k: int|
            0 <= k < rows.len() && !T::accepts(#[trigger] rows[k]) && e == T::row_error(rows[k])
                && (forall|j: int| 0 <= j < k ==> T::accepts(#[trigger] rows[j])),
        Err(_) => false,
    }
}

/// Decodes every row of the statement's result, in order, into the target
/// shape. Any failing row aborts the whole call with its decode error;
/// a partial sequence is never returned. Every outcome is a connection
/// failure, a statement failure, or the all-rows reading of whatever rows
/// came back.
pub fn query_to_tuples<T: FromRow>(db_path: &str, sql: &str) -> (r: Result<Vec<T>, DbError>)
    ensures
        (r matches Err(DbError::Connection(_))) || (r matches Err(DbError::Statement(_))) || (
        exists|rows: Seq<Seq<CellValue>>| all_rows_result_ok::<T>(rows, r)),
{
    let conn = match open_store(db_path) {
        Ok(c) => c,
        Err(e) => {
            return Err(DbError::Connection(e));
        },
    };
    let rows = match fetch_rows(&conn, sql) {
        Ok(rs) => rs,
        Err(e) => {
            return Err(DbError::Statement(e));
        },
    };
    let r: Result<Vec<T>, DbError> = match decode_all_rows::<T>(&rows) {
        Ok(v) => Ok(v),
        Err(e) => Err(DbError::Decode(e)),
    };
    proof {
        assert(all_rows_result_ok::<T>(rows_view(&rows), r));
    }
    r
}

} // verus!
