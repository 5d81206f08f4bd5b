//! The tables that runs yield are polars data frames. This module declares
//! the outside types and the few polars calls the library makes on them.
use polars::prelude::{
    ChunkCompareEq, Column, CsvParseOptions, CsvReadOptions, DataFrame, DataType, Field, IntoColumn, IntoSeries,
    PolarsError, Schema, SerReader, StringChunked, StringMethods, TimeUnit, TimeZone,
};
use std::sync::Arc;
use vstd::prelude::*;

verus! {

/// The table type of polars, carried through unopened.
#[verifier::external_type_specification]
#[verifier::external_body]
pub struct ExDataFrame(polars::prelude::DataFrame);

/// The column types that the library asks of CSV input.
#[derive(Clone, Copy, Debug, PartialEq, Eq, Structural)]
pub enum ColumnType {
    UInt8,
    UInt16,
    UInt32,
    UInt64,
    Int8,
    Int16,
    Int32,
    Int64,
    Float64,
    Text,
}

/// The values of one column of a table built by the library.
pub enum ColumnValues {
    U32(Vec<u32>),
    U64(Vec<u64>),
    Text(Vec<String>),
}

/// The column type of polars.
#[verifier::external_type_specification]
#[verifier::external_body]
pub struct ExDataType(polars::prelude::DataType);

/// Relies on `polars::prelude::DataType`: the polars type of a column type.
#[verifier::external_body]
pub(crate) fn dtype_of(t: ColumnType) -> (r: DataType) {
    match t {
        ColumnType::UInt8 => DataType::UInt8,
        ColumnType::UInt16 => DataType::UInt16,
        ColumnType::UInt32 => DataType::UInt32,
        ColumnType::UInt64 => DataType::UInt64,
        ColumnType::Int8 => DataType::Int8,
        ColumnType::Int16 => DataType::Int16,
        ColumnType::Int32 => DataType::Int32,
        ColumnType::Int64 => DataType::Int64,
        ColumnType::Float64 => DataType::Float64,
        ColumnType::Text => DataType::String,
    }
}

/// Declared because the indexing impls of `DataFrame` name it.
#[verifier::external_type_specification]
#[verifier::external_body]
pub struct ExColumn(polars::prelude::Column);

/// The error type of polars.
#[verifier::external_type_specification]
#[verifier::external_body]
pub struct ExPolarsError(polars::prelude::PolarsError);

/// Relies on `polars::prelude::DataFrame::new` with one `Column::new`: a
/// one-row table with the text column `column` holding `value`; one column
/// of the given height always makes a table.
#[verifier::external_body]
pub(crate) fn text_frame(column: &str, value: &str) -> (r: Result<DataFrame, PolarsError>)
    ensures
        r is Ok,
{
    DataFrame::new(1, vec![Column::new(column.into(), [value])])
}

/// Relies on `polars::prelude::DataFrame::with_column`: adds (or replaces)
/// the text column `column` with `value` on every row; a unit-length column
/// is broadcast to the table's height, so this always succeeds.
#[verifier::external_body]
pub(crate) fn with_text_value(df: &mut DataFrame, column: &str, value: Option<String>) -> (r: Result<(), PolarsError>)
    ensures
        r is Ok,
{
    df.with_column(Column::new(column.into(), [value])).map(|_| ())
}

/// Relies on `polars::prelude::DataFrame::with_column`: adds (or replaces)
/// the column `name` holding `value` on every row; a column of the table's
/// height always fits.
#[verifier::external_body]
pub(crate) fn with_u64_value(df: &mut DataFrame, name: &str, value: u64) -> (r: Result<(), PolarsError>)
    ensures
        r is Ok,
{
    let height = df.height();
    df.with_column(Column::new(name.into(), vec![value; height])).map(|_| ())
}

/// Relies on the `Display` impl of `polars::prelude::PolarsError`: the text
/// of the error.
#[verifier::external_body]
pub(crate) fn polars_error_text(e: &PolarsError) -> (r: String) {
    format!("{}", e)
}

/// Relies on `CsvReadOptions` and `CsvReader::finish`: the table that CSV
/// text reads as, with the given header flag and separator, and with the
/// given column names and types where a schema is given (else inferred).
#[verifier::external_body]
pub(crate) fn read_csv(bytes: &[u8], has_header: bool, separator: u8, schema: Option<&Vec<(String, ColumnType)>>) -> (r: Result<DataFrame, PolarsError>) {
    let schema = schema.map(|s| Arc::new(Schema::from_iter(s.iter().map(|(name, t)| Field::new(name.as_str().into(), dtype_of(*t))))));
    CsvReadOptions::default().with_has_header(has_header).with_schema(schema)
        .with_parse_options(CsvParseOptions::default().with_separator(separator))
        .into_reader_with_file_handle(std::io::Cursor::new(bytes)).finish()
}

/// Relies on `ChunkCompareEq::not_equal` and `DataFrame::filter`: the rows
/// whose integer `column` is not `value` (a null compares as unknown and
/// its row is dropped).
#[verifier::external_body]
pub(crate) fn drop_rows_equal(df: DataFrame, column: &str, value: i64) -> (r: Result<DataFrame, PolarsError>) {
    let mask = df.column(column)?.as_materialized_series().i64()?.not_equal(value);
    df.filter(&mask)
}

/// Relies on `Column::cast` and `DataFrame::with_column`: the table with
/// `column` cast to the given type (a value that does not fit becomes null).
#[verifier::external_body]
pub(crate) fn cast_column(df: DataFrame, column: &str, to: ColumnType) -> (r: Result<DataFrame, PolarsError>) {
    let mut df = df;
    let cast = df.column(column)?.cast(&dtype_of(to))?;
    df.with_column(cast)?;
    Ok(df)
}

/// Relies on `DataFrame::new_infer_height` with one `Column::new` per
/// column: the table of the given named columns, in order.
#[verifier::external_body]
pub(crate) fn frame_of(columns: Vec<(String, ColumnValues)>) -> (r: Result<DataFrame, PolarsError>) {
    DataFrame::new_infer_height(columns.into_iter().map(|(name, values)| match values {
        ColumnValues::U32(v) => Column::new(name.into(), v),
        ColumnValues::U64(v) => Column::new(name.into(), v),
        ColumnValues::Text(v) => Column::new(name.into(), v),
    }).collect())
}

/// Relies on `Column`'s `-` and `DataFrame::with_column`: adds the column
/// `name` holding `minuend - subtrahend` row by row.
#[verifier::external_body]
pub(crate) fn with_difference(df: &mut DataFrame, minuend: &str, subtrahend: &str, name: &str) -> (r: Result<(), PolarsError>) {
    let d = (df.column(minuend)? - df.column(subtrahend)?)?.with_name(name.into());
    df.with_column(d).map(|_| ())
}

/// Relies on `DataFrame::drop_in_place`: removes the column `name`.
#[verifier::external_body]
pub(crate) fn drop_column(df: &mut DataFrame, name: &str) -> (r: Result<(), PolarsError>) {
    df.drop_in_place(name).map(|_| ())
}

/// Relies on `DataFrame::with_column`: adds (or replaces) the column `name`
/// holding `value` on every row.
#[verifier::external_body]
pub(crate) fn with_u32_value(df: &mut DataFrame, name: &str, value: u32) -> (r: Result<(), PolarsError>) {
    let height = df.height();
    df.with_column(Column::new(name.into(), vec![value; height])).map(|_| ())
}

/// Relies on `DataFrame::vstack_mut`: appends the rows of `other`, whose
/// columns must match.
#[verifier::external_body]
pub(crate) fn append_rows(df: &mut DataFrame, other: &DataFrame) -> (r: Result<(), PolarsError>) {
    df.vstack_mut(other).map(|_| ())
}

/// Relies on `DataFrame::get_column_names`: the names of the columns, in
/// order.
#[verifier::external_body]
pub(crate) fn column_names(df: &DataFrame) -> (r: Vec<String>) {
    df.get_column_names().into_iter().map(|n| n.to_string()).collect()
}

/// Relies on `Column::dtype`: the type of column `name` where it is `Int64`
/// or `UInt64`; `None` for another type or a missing column.
#[verifier::external_body]
pub(crate) fn wide_int_type(df: &DataFrame, name: &str) -> (r: Option<ColumnType>) {
    match df.column(name).map(|c| c.dtype()) {
        Ok(DataType::Int64) => Some(ColumnType::Int64),
        Ok(DataType::UInt64) => Some(ColumnType::UInt64),
        _ => None,
    }
}

/// Relies on `Series::min`: the least value of the `Int64` column `name`,
/// `None` where it holds no value.
#[verifier::external_body]
pub(crate) fn min_i64(df: &DataFrame, name: &str) -> (r: Result<Option<i64>, PolarsError>) {
    df.column(name)?.as_materialized_series().min::<i64>()
}

/// Relies on `Series::max`: the greatest value of the `Int64` column `name`,
/// `None` where it holds no value.
#[verifier::external_body]
pub(crate) fn max_i64(df: &DataFrame, name: &str) -> (r: Result<Option<i64>, PolarsError>) {
    df.column(name)?.as_materialized_series().max::<i64>()
}

/// Relies on `Series::max`: the greatest value of the `UInt64` column
/// `name`, `None` where it holds no value.
#[verifier::external_body]
pub(crate) fn max_u64(df: &DataFrame, name: &str) -> (r: Result<Option<u64>, PolarsError>) {
    df.column(name)?.as_materialized_series().max::<u64>()
}

/// Relies on `DataFrame::rename`: the column `from` is called `to`.
#[verifier::external_body]
pub(crate) fn rename_column(df: &mut DataFrame, from: &str, to: &str) -> (r: Result<(), PolarsError>) {
    df.rename(from, to.into()).map(|_| ())
}

/// Relies on `DataFrame::drop_many`: the table without the columns `names`
/// (a name it lacks is passed over).
#[verifier::external_body]
pub(crate) fn drop_columns(df: &DataFrame, names: &Vec<String>) -> (r: DataFrame) {
    df.drop_many(names.iter().map(|n| n.as_str()))
}

/// Relies on `StringMethods::as_datetime_not_exact`: the text column
/// `column`, read with the strftime `format` (not necessarily matching the
/// whole text), as UTC datetimes in milliseconds.
#[verifier::external_body]
pub(crate) fn parse_timestamps(df: DataFrame, column: &str, format: &str) -> (r: Result<DataFrame, PolarsError>) {
    let raise = StringChunked::from_iter([Some("raise")]);
    let parsed = df.column(column)?.str()?.as_datetime_not_exact(
        Some(format), TimeUnit::Milliseconds, false, Some(&TimeZone::UTC), &raise, true)?;
    let mut df = df;
    df.with_column(parsed.into_series().into_column())?;
    Ok(df)
}

/// Relies on `DataFrame`'s `Clone`: a copy of the table, which shares its
/// column buffers; the copy is the same table.
#[verifier::external_body]
pub(crate) fn copy_frame(df: &DataFrame) -> (r: DataFrame)
    ensures
        r == *df,
{
    df.clone()
}

} // verus!
