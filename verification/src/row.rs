//! Row decoding: column values reduced to plain data, the decode-error
//! taxonomy, the per-type conversion contract, and the decoders that turn
//! result rows into typed values.

use vstd::prelude::*;
use crate::text::{i64_dec_text, i64_to_string, parse_i64, parse_i64_spec};
use crate::timestamp::{epoch_seconds, stamp_of_text, parse_stamp_text, utc_wall_to_local_wall, Timestamp};

verus! {

/// The storage class of one column value.
#[derive(Clone, Copy, PartialEq, Eq, Structural, Debug)]
pub enum CellKind {
    Null,
    Integer,
    Real,
    Text,
    Blob,
}

/// One column value of one result row, reduced to plain data. A stored
/// floating-point value is carried as the two readings the decoders use:
/// its truncation toward zero (saturating at the `i64` bounds) and its
/// natural display text.
pub enum CellValue {
    Null,
    Integer(i64),
    Real { trunc: i64, text: String },
    Text(String),
    Blob(Vec<u8>),
}

impl CellValue {
    pub open spec fn kind(self) -> CellKind {
        match self {
            CellValue::Null => CellKind::Null,
            CellValue::Integer(_) => CellKind::Integer,
            CellValue::Real { .. } => CellKind::Real,
            CellValue::Text(_) => CellKind::Text,
            CellValue::Blob(_) => CellKind::Blob,
        }
    }
}

/// A typed decode failure, naming the offending column and kinds.
#[allow(inconsistent_fields)]
#[derive(Clone, Copy, PartialEq, Eq, Structural, Debug)]
pub enum DecodeError {
    /// The row holds a different number of columns than the target shape.
    ColumnCount { expected: usize, got: usize },
    /// The column's stored kind cannot convert to the requested kind.
    Kind { column: usize, expected: CellKind, got: CellKind },
    /// The column's integer value does not fit the requested width.
    OutOfRange { column: usize },
    /// The column's text does not parse as the requested shape.
    BadText { column: usize },
}

/// Any failure of a decoder entry point.
#[derive(PartialEq, Eq, Debug)]
pub enum DbError {
    /// The store could not be opened.
    Connection(String),
    /// The statement failed to prepare or run.
    Statement(String),
    /// The statement yielded no rows where one was structurally required.
    NoRows,
    /// A row would not convert to the requested shape.
    Decode(DecodeError),
}

/// Lowercase hexadecimal digits, by value.
pub open spec fn hex_digit(d: int) -> char {
    if d == 0 {
        '0'
    } else if d == 1 {
        '1'
    } else if d == 2 {
        '2'
    } else if d == 3 {
        '3'
    } else if d == 4 {
        '4'
    } else if d == 5 {
        '5'
    } else if d == 6 {
        '6'
    } else if d == 7 {
        '7'
    } else if d == 8 {
        '8'
    } else if d == 9 {
        '9'
    } else if d == 10 {
        'a'
    } else if d == 11 {
        'b'
    } else if d == 12 {
        'c'
    } else if d == 13 {
        'd'
    } else if d == 14 {
        'e'
    } else {
        'f'
    }
}

/// Lowercase hexadecimal text of a byte string: two digits per byte, high
/// nibble first.
pub open spec fn hex_text(b: Seq<u8>) -> Seq<char>
    decreases b.len(),
{
    if b.len() == 0 {
        Seq::empty()
    } else {
        seq![hex_digit(b[0] as int / 16), hex_digit(b[0] as int % 16)] + hex_text(b.drop_first())
    }
}

/// Relies on `hex::encode`: lowercase hexadecimal text of the bytes, two
/// digits per byte, high nibble first.
#[verifier::external_body]
fn to_hex(bytes: &Vec<u8>) -> (r: String)
    ensures
        r@ == hex_text(bytes@),
{
    hex::encode(bytes)
}

/// The rows of one result, each row a sequence of column values.
pub open spec fn rows_view(rows: &Vec<Vec<CellValue>>) -> Seq<Seq<CellValue>> {
    rows@.map_values(|r: Vec<CellValue>| r@)
}

/// The scalar-to-integer reading of result rows: column 0 of row 0 as an
/// `i64`. Zero rows is absent, not an error; an integer is used as is, a
/// real is read through its saturating truncation toward zero, text is
/// parsed as optionally signed decimal, and NULL or a blob is a kind
/// error.
pub open spec fn scalar_i64_spec(rows: Seq<Seq<CellValue>>) -> Result<Option<i64>, DbError> {
    if rows.len() == 0 {
        Ok(None)
    } else if rows[0].len() == 0 {
        Err(DbError::Decode(DecodeError::ColumnCount { expected: 1, got: 0 }))
    } else {
        match rows[0][0] {
            CellValue::Integer(i) => Ok(Some(i)),
            CellValue::Real { trunc, text } => Ok(Some(trunc)),
            CellValue::Text(s) => match parse_i64_spec(s@) {
                Some(v) => Ok(Some(v as i64)),
                None => Err(DbError::Decode(DecodeError::BadText { column: 0 })),
            },
            CellValue::Null => Err(
                DbError::Decode(
                    DecodeError::Kind {
                        column: 0,
                        expected: CellKind::Integer,
                        got: CellKind::Null,
                    },
                ),
            ),
            CellValue::Blob(_) => Err(
                DbError::Decode(
                    DecodeError::Kind {
                        column: 0,
                        expected: CellKind::Integer,
                        got: CellKind::Blob,
                    },
                ),
            ),
        }
    }
}

/// Reads column 0 of row 0 as an integer, per `scalar_i64_spec`.
pub fn decode_scalar_i64(rows: &Vec<Vec<CellValue>>) -> (r: Result<Option<i64>, DbError>)
    ensures
        r == scalar_i64_spec(rows_view(rows)),
{
    if rows.len() == 0 {
        return Ok(None);
    }
    let row = &rows[0];
    proof {
        assert(rows_view(rows)[0] == row@);
    }
    if row.len() == 0 {
        return Err(DbError::Decode(DecodeError::ColumnCount { expected: 1, got: 0 }));
    }
    match &row[0] {
        CellValue::Integer(i) => Ok(Some(*i)),
        CellValue::Real { trunc, text } => Ok(Some(*trunc)),
        CellValue::Text(s) => match parse_i64(s.as_str()) {
            Some(v) => Ok(Some(v)),
            None => Err(DbError::Decode(DecodeError::BadText { column: 0 })),
        },
        CellValue::Null => Err(
            DbError::Decode(
                DecodeError::Kind { column: 0, expected: CellKind::Integer, got: CellKind::Null },
            ),
        ),
        CellValue::Blob(_) => Err(
            DbError::Decode(
                DecodeError::Kind { column: 0, expected: CellKind::Integer, got: CellKind::Blob },
            ),
        ),
    }
}

/// The scalar-to-text reading of result rows: column 0 of row 0 as text.
/// Zero rows is the row-absent error, unlike the integer reading; NULL is
/// absent, not an error; numbers show their decimal text, a blob its
/// lowercase hexadecimal text.
pub open spec fn scalar_text_spec(rows: Seq<Seq<CellValue>>) -> Result<
    Option<Seq<char>>,
    DbError,
> {
    if rows.len() == 0 {
        Err(DbError::NoRows)
    } else if rows[0].len() == 0 {
        Err(DbError::Decode(DecodeError::ColumnCount { expected: 1, got: 0 }))
    } else {
        match rows[0][0] {
            CellValue::Null => Ok(None),
            CellValue::Integer(i) => Ok(Some(i64_dec_text(i as int))),
            CellValue::Real { trunc, text } => Ok(Some(text@)),
            CellValue::Text(s) => Ok(Some(s@)),
            CellValue::Blob(b) => Ok(Some(hex_text(b@))),
        }
    }
}

/// Whether `r` is the scalar-text reading of `rows`, viewing the returned
/// string as its characters.
pub open spec fn scalar_text_matches(
    rows: Seq<Seq<CellValue>>,
    r: Result<Option<String>, DbError>,
) -> bool {
    match r {
        Ok(Some(s)) => scalar_text_spec(rows) == Ok::<Option<Seq<char>>, DbError>(Some(s@)),
        Ok(None) => scalar_text_spec(rows) == Ok::<Option<Seq<char>>, DbError>(None::<Seq<char>>),
        Err(e) => scalar_text_spec(rows) == Err::<Option<Seq<char>>, DbError>(e),
    }
}

/// Reads column 0 of row 0 as text, per `scalar_text_spec`.
pub fn decode_scalar_text(rows: &Vec<Vec<CellValue>>) -> (r: Result<Option<String>, DbError>)
    ensures
        scalar_text_matches(rows_view(rows), r),
{
    if rows.len() == 0 {
        return Err(DbError::NoRows);
    }
    let row = &rows[0];
    proof {
        assert(rows_view(rows)[0] == row@);
    }
    if row.len() == 0 {
        return Err(DbError::Decode(DecodeError::ColumnCount { expected: 1, got: 0 }));
    }
    match &row[0] {
        CellValue::Null => Ok(None),
        CellValue::Integer(i) => Ok(Some(i64_to_string(*i))),
        CellValue::Real { trunc, text } => Ok(Some(text.clone())),
        CellValue::Text(s) => Ok(Some(s.clone())),
        CellValue::Blob(b) => Ok(Some(to_hex(b))),
    }
}

/// The per-column conversion contract: how one target type reads one
/// column value. Implementing it is the sole extension point for new
/// decodable shapes.
pub trait FromCell: Sized {
    /// Whether this column value converts to the target type.
    spec fn accepts(c: CellValue) -> bool;

    /// Which converted values the column value may yield.
    spec fn value_ok(c: CellValue, v: Self) -> bool;

    /// The decode failure this type reports for column `column` holding a
    /// value it rejects.
    spec fn error_of(c: CellValue, column: int) -> DecodeError;

    /// Converts the value of column `column`, succeeding exactly on the
    /// values `accepts` admits and failing with this type's own error.
    fn from_cell(c: &CellValue, column: usize) -> (r: Result<Self, DecodeError>)
        ensures
            r is Ok <==> Self::accepts(*c),
            (r matches Ok(v) ==> Self::value_ok(*c, v)),
            (r matches Err(e) ==> e == Self::error_of(*c, column as int)),
    ;
}

impl FromCell for i64 {
    open spec fn accepts(c: CellValue) -> bool {
        c is Integer
    }

    open spec fn value_ok(c: CellValue, v: i64) -> bool {
        c == CellValue::Integer(v)
    }

    open spec fn error_of(c: CellValue, column: int) -> DecodeError {
        DecodeError::Kind {
            column: column as usize,
            expected: CellKind::Integer,
            got: c.kind(),
        }
    }

    fn from_cell(c: &CellValue, column: usize) -> (r: Result<i64, DecodeError>)
        ensures
            r is Ok <==> Self::accepts(*c),
            (r matches Ok(v) ==> Self::value_ok(*c, v)),
            (r matches Err(e) ==> e == Self::error_of(*c, column as int)),
    {
        match c {
            CellValue::Integer(i) => Ok(*i),
            _ => Err(
                DecodeError::Kind { column, expected: CellKind::Integer, got: cell_kind(c) },
            ),
        }
    }
}

impl FromCell for u8 {
    open spec fn accepts(c: CellValue) -> bool {
        c matches CellValue::Integer(i) && 0 <= i <= u8::MAX
    }

    open spec fn value_ok(c: CellValue, v: u8) -> bool {
        c == CellValue::Integer(v as i64)
    }

    open spec fn error_of(c: CellValue, column: int) -> DecodeError {
        if c is Integer {
            DecodeError::OutOfRange { column: column as usize }
        } else {
            DecodeError::Kind {
                column: column as usize,
                expected: CellKind::Integer,
                got: c.kind(),
            }
        }
    }

    fn from_cell(c: &CellValue, column: usize) -> (r: Result<u8, DecodeError>)
        ensures
            r is Ok <==> Self::accepts(*c),
            (r matches Ok(v) ==> Self::value_ok(*c, v)),
            (r matches Err(e) ==> e == Self::error_of(*c, column as int)),
    {
        match c {
            CellValue::Integer(i) => if 0 <= *i && *i <= 255 {
                Ok(*i as u8)
            } else {
                Err(DecodeError::OutOfRange { column })
            },
            _ => Err(
                DecodeError::Kind { column, expected: CellKind::Integer, got: cell_kind(c) },
            ),
        }
    }
}

impl FromCell for String {
    open spec fn accepts(c: CellValue) -> bool {
        c is Text
    }

    open spec fn value_ok(c: CellValue, v: String) -> bool {
        c matches CellValue::Text(s) && v@ == s@
    }

    open spec fn error_of(c: CellValue, column: int) -> DecodeError {
        DecodeError::Kind { column: column as usize, expected: CellKind::Text, got: c.kind() }
    }

    fn from_cell(c: &CellValue, column: usize) -> (r: Result<String, DecodeError>)
        ensures
            r is Ok <==> Self::accepts(*c),
            (r matches Ok(v) ==> Self::value_ok(*c, v)),
            (r matches Err(e) ==> e == Self::error_of(*c, column as int)),
    {
        match c {
            CellValue::Text(s) => Ok(s.clone()),
            _ => Err(DecodeError::Kind { column, expected: CellKind::Text, got: cell_kind(c) }),
        }
    }
}

/// A timestamp column read as a UTC wall clock: `Y-m-d H:M:S` text taken
/// as it stands.
#[derive(Clone, Copy, PartialEq, Eq, Structural, Debug)]
pub struct UtcTimestamp {
    pub stamp: Timestamp,
}

impl FromCell for UtcTimestamp {
    open spec fn accepts(c: CellValue) -> bool {
        c matches CellValue::Text(s) && stamp_of_text(s@) is Some
    }

    open spec fn value_ok(c: CellValue, v: UtcTimestamp) -> bool {
        c matches CellValue::Text(s) && stamp_of_text(s@) == Some(v.stamp)
    }

    open spec fn error_of(c: CellValue, column: int) -> DecodeError {
        if c is Text {
            DecodeError::BadText { column: column as usize }
        } else {
            DecodeError::Kind { column: column as usize, expected: CellKind::Text, got: c.kind() }
        }
    }

    fn from_cell(c: &CellValue, column: usize) -> (r: Result<UtcTimestamp, DecodeError>)
        ensures
            r is Ok <==> Self::accepts(*c),
            (r matches Ok(v) ==> Self::value_ok(*c, v)),
            (r matches Err(e) ==> e == Self::error_of(*c, column as int)),
    {
        match c {
            CellValue::Text(s) => match parse_stamp_text(s.as_str()) {
                Some(stamp) => Ok(UtcTimestamp { stamp }),
                None => Err(DecodeError::BadText { column }),
            },
            _ => Err(DecodeError::Kind { column, expected: CellKind::Text, got: cell_kind(c) }),
        }
    }
}

/// A timestamp column read as a local wall clock: the stored text is
/// assumed to be a UTC wall clock and is shifted by this machine's local
/// offset. Stored years before year 1 are rejected, so the shift cannot
/// leave the calendar.
#[derive(Clone, Copy, PartialEq, Eq, Structural, Debug)]
pub struct LocalTimestamp {
    pub stamp: Timestamp,
}

impl FromCell for LocalTimestamp {
    open spec fn accepts(c: CellValue) -> bool {
        c matches CellValue::Text(s) && (stamp_of_text(s@) matches Some(t) && t.year >= 1)
    }

    /// The yielded stamp is the parsed UTC reading shifted by this
    /// machine's zone offset: a real calendar reading strictly within one
    /// day of the stored one on the shared timeline.
    open spec fn value_ok(c: CellValue, v: LocalTimestamp) -> bool {
        c matches CellValue::Text(s) && (stamp_of_text(s@) matches Some(u)
            && v.stamp.fields_in_range() && -86400 < epoch_seconds(v.stamp) - epoch_seconds(u)
            < 86400)
    }

    open spec fn error_of(c: CellValue, column: int) -> DecodeError {
        if c is Text {
            match c {
                CellValue::Text(s) => if stamp_of_text(s@) is Some {
                    DecodeError::OutOfRange { column: column as usize }
                } else {
                    DecodeError::BadText { column: column as usize }
                },
                _ => DecodeError::BadText { column: column as usize },
            }
        } else {
            DecodeError::Kind { column: column as usize, expected: CellKind::Text, got: c.kind() }
        }
    }

    fn from_cell(c: &CellValue, column: usize) -> (r: Result<LocalTimestamp, DecodeError>)
        ensures
            r is Ok <==> Self::accepts(*c),
            (r matches Ok(v) ==> Self::value_ok(*c, v)),
            (r matches Err(e) ==> e == Self::error_of(*c, column as int)),
    {
        match c {
            CellValue::Text(s) => match parse_stamp_text(s.as_str()) {
                Some(utc) => if utc.year >= 1 {
                    match utc_wall_to_local_wall(&utc) {
                        Some(stamp) => Ok(LocalTimestamp { stamp }),
                        None => Err(DecodeError::BadText { column }),
                    }
                } else {
                    Err(DecodeError::OutOfRange { column })
                },
                None => Err(DecodeError::BadText { column }),
            },
            _ => Err(DecodeError::Kind { column, expected: CellKind::Text, got: cell_kind(c) }),
        }
    }
}

impl<T: FromCell> FromCell for Option<T> {
    open spec fn accepts(c: CellValue) -> bool {
        c is Null || T::accepts(c)
    }

    open spec fn value_ok(c: CellValue, v: Option<T>) -> bool {
        if c is Null {
            v is None
        } else {
            v matches Some(x) && T::value_ok(c, x)
        }
    }

    open spec fn error_of(c: CellValue, column: int) -> DecodeError {
        T::error_of(c, column)
    }

    fn from_cell(c: &CellValue, column: usize) -> (r: Result<Option<T>, DecodeError>)
        ensures
            r is Ok <==> Self::accepts(*c),
            (r matches Ok(v) ==> Self::value_ok(*c, v)),
            (r matches Err(e) ==> e == Self::error_of(*c, column as int)),
    {
        match c {
            CellValue::Null => Ok(None),
            _ => match T::from_cell(c, column) {
                Ok(v) => Ok(Some(v)),
                Err(e) => Err(e),
            },
        }
    }
}

/// The per-row conversion contract: how one target record type reads one
/// result row. Tuple shapes get it from their components' `FromCell`.
pub trait FromRow: Sized {
    /// Whether this row converts to the target shape.
    spec fn accepts(row: Seq<CellValue>) -> bool;

    /// Which converted records the row may yield.
    spec fn row_ok(row: Seq<CellValue>, v: Self) -> bool;

    /// The decode failure this shape reports for a row it rejects: for the
    /// tuple shapes, a column-count mismatch or the first failing column's
    /// own error.
    spec fn row_error(row: Seq<CellValue>) -> DecodeError;

    /// Converts one row, succeeding exactly on the rows `accepts` admits
    /// and failing with this shape's own error.
    fn from_row(row: &Vec<CellValue>) -> (r: Result<Self, DecodeError>)
        ensures
            r is Ok <==> Self::accepts(row@),
            (r matches Ok(v) ==> Self::row_ok(row@, v)),
            (r matches Err(e) ==> e == Self::row_error(row@)),
    ;
}

impl<A: FromCell> FromRow for (A,) {
    open spec fn accepts(row: Seq<CellValue>) -> bool {
        row.len() == 1 && A::accepts(row[0])
    }

    open spec fn row_ok(row: Seq<CellValue>, v: (A,)) -> bool {
        A::value_ok(row[0], v.0)
    }

    open spec fn row_error(row: Seq<CellValue>) -> DecodeError {
        if row.len() != 1 {
            DecodeError::ColumnCount { expected: 1, got: row.len() as usize }
        } else {
            A::error_of(row[0], 0)
        }
    }

    fn from_row(row: &Vec<CellValue>) -> (r: Result<(A,), DecodeError>)
        ensures
            r is Ok <==> Self::accepts(row@),
            (r matches Ok(v) ==> Self::row_ok(row@, v)),
            (r matches Err(e) ==> e == Self::row_error(row@)),
    {
        if row.len() != 1 {
            return Err(DecodeError::ColumnCount { expected: 1, got: row.len() });
        }
        match A::from_cell(&row[0], 0) {
            Ok(a) => Ok((a,)),
            Err(e) => Err(e),
        }
    }
}

impl<A: FromCell, B: FromCell> FromRow for (A, B) {
    open spec fn accepts(row: Seq<CellValue>) -> bool {
        row.len() == 2 && A::accepts(row[0]) && B::accepts(row[1])
    }

    open spec fn row_ok(row: Seq<CellValue>, v: (A, B)) -> bool {
        A::value_ok(row[0], v.0) && B::value_ok(row[1], v.1)
    }

    open spec fn row_error(row: Seq<CellValue>) -> DecodeError {
        if row.len() != 2 {
            DecodeError::ColumnCount { expected: 2, got: row.len() as usize }
        } else if !A::accepts(row[0]) {
            A::error_of(row[0], 0)
        } else {
            B::error_of(row[1], 1)
        }
    }

    fn from_row(row: &Vec<CellValue>) -> (r: Result<(A, B), DecodeError>)
        ensures
            r is Ok <==> Self::accepts(row@),
            (r matches Ok(v) ==> Self::row_ok(row@, v)),
            (r matches Err(e) ==> e == Self::row_error(row@)),
    {
        if row.len() != 2 {
            return Err(DecodeError::ColumnCount { expected: 2, got: row.len() });
        }
        let a = match A::from_cell(&row[0], 0) {
            Ok(a) => a,
            Err(e) => {
                return Err(e);
            },
        };
        match B::from_cell(&row[1], 1) {
            Ok(b) => Ok((a, b)),
            Err(e) => Err(e),
        }
    }
}

impl<A: FromCell, B: FromCell, C: FromCell> FromRow for (A, B, C) {
    open spec fn accepts(row: Seq<CellValue>) -> bool {
        row.len() == 3 && A::accepts(row[0]) && B::accepts(row[1]) && C::accepts(row[2])
    }

    open spec fn row_ok(row: Seq<CellValue>, v: (A, B, C)) -> bool {
        A::value_ok(row[0], v.0) && B::value_ok(row[1], v.1) && C::value_ok(row[2], v.2)
    }

    open spec fn row_error(row: Seq<CellValue>) -> DecodeError {
        if row.len() != 3 {
            DecodeError::ColumnCount { expected: 3, got: row.len() as usize }
        } else if !A::accepts(row[0]) {
            A::error_of(row[0], 0)
        } else if !B::accepts(row[1]) {
            B::error_of(row[1], 1)
        } else {
            C::error_of(row[2], 2)
        }
    }

    fn from_row(row: &Vec<CellValue>) -> (r: Result<(A, B, C), DecodeError>)
        ensures
            r is Ok <==> Self::accepts(row@),
            (r matches Ok(v) ==> Self::row_ok(row@, v)),
            (r matches Err(e) ==> e == Self::row_error(row@)),
    {
        if row.len() != 3 {
            return Err(DecodeError::ColumnCount { expected: 3, got: row.len() });
        }
        let a = match A::from_cell(&row[0], 0) {
            Ok(a) => a,
            Err(e) => {
                return Err(e);
            },
        };
        let b = match B::from_cell(&row[1], 1) {
            Ok(b) => b,
            Err(e) => {
                return Err(e);
            },
        };
        match C::from_cell(&row[2], 2) {
            Ok(c) => Ok((a, b, c)),
            Err(e) => Err(e),
        }
    }
}

/// What the single-row reading of result rows yields: absent on zero rows;
/// otherwise row 0 decides alone, and rows beyond it are never inspected.
pub open spec fn single_row_ok<T: FromRow>(
    rows: Seq<Seq<CellValue>>,
    r: Result<Option<T>, DecodeError>,
) -> bool {
    if rows.len() == 0 {
        r matches Ok(None)
    } else {
        match r {
            Ok(Some(v)) => T::accepts(rows[0]) && T::row_ok(rows[0], v),
            Ok(None) => false,
            Err(e) => !T::accepts(rows[0]) && e == T::row_error(rows[0]),
        }
    }
}

/// Decodes row 0 of the result, per `single_row_ok`: zero rows is absent,
/// not an error; a failing first row surfaces its decode error; rows
/// beyond the first are ignored.
pub fn decode_single_row<T: FromRow>(rows: &Vec<Vec<CellValue>>) -> (r: Result<
    Option<T>,
    DecodeError,
>)
    ensures
        single_row_ok::<T>(rows_view(rows), r),
{
    if rows.len() == 0 {
        return Ok(None);
    }
    proof {
        assert(rows_view(rows)[0] == rows@[0]@);
    }
    match T::from_row(&rows[0]) {
        Ok(v) => Ok(Some(v)),
        Err(e) => Err(e),
    }
}

/// Decodes every row of the result, in order, per the target shape's
/// conversion contract. Succeeds exactly when every row converts; the
/// first failing row aborts the whole operation with its own error, and
/// no partial sequence is ever returned.
pub fn decode_all_rows<T: FromRow>(rows: &Vec<Vec<CellValue>>) -> (r: Result<Vec<T>, DecodeError>)
    ensures
        r is Ok <==> (forall|k: int|
            0 <= k < rows@.len() ==> T::accepts(#[trigger] rows_view(rows)[k])),
        (r matches Ok(v) ==> v@.len() == rows@.len() && (forall|k: int|
            0 <= k < rows@.len() ==> T::accepts(#[trigger] rows_view(rows)[k]) && T::row_ok(
                rows_view(rows)[k],
                v@[k],
            ))),
        (r matches Err(e) ==> exists|k: int|
            0 <= k < rows@.len() && !T::accepts(#[trigger] rows_view(rows)[k]) && e == T::row_error(
                rows_view(rows)[k],
            ) && (forall|j: int| 0 <= j < k ==> T::accepts(#[trigger] rows_view(rows)[j]))),
{
    let mut out: Vec<T> = Vec::new();
    let mut i: usize = 0;
    while i < rows.len()
        invariant
            i <= rows@.len(),
            out@.len() == i,
            forall|k: int|
                0 <= k < i ==> T::accepts(#[trigger] rows_view(rows)[k]) && T::row_ok(
                    rows_view(rows)[k],
                    out@[k],
                ),
        decreases rows@.len() - i,
    {
        proof {
            assert(rows_view(rows)[i as int] == rows@[i as int]@);
        }
        match T::from_row(&rows[i]) {
            Ok(v) => {
                out.push(v);
            },
            Err(e) => {
                proof {
                    assert(!T::accepts(rows_view(rows)[i as int]) && e == T::row_error(
                        rows_view(rows)[i as int],
                    ) && (forall|j: int|
                        0 <= j < i ==> T::accepts(#[trigger] rows_view(rows)[j])));
                }
                return Err(e);
            },
        }
        i = i + 1;
    }
    Ok(out)
}

/// The storage class of a column value, as runtime data.
fn cell_kind(c: &CellValue) -> (k: CellKind)
    ensures
        k == c.kind(),
{
    match c {
        CellValue::Null => CellKind::Null,
        CellValue::Integer(_) => CellKind::Integer,
        CellValue::Real { .. } => CellKind::Real,
        CellValue::Text(_) => CellKind::Text,
        CellValue::Blob(_) => CellKind::Blob,
    }
}

} // verus!
