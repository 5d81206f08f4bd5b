//! Narrowing wide integer columns to the smallest type that holds their
//! values.
use crate::frame::{cast_column, column_names, max_i64, max_u64, min_i64, wide_int_type, ColumnType};
use polars::prelude::{DataFrame, PolarsError};
use vstd::prelude::*;

verus! {

/// The narrowest type for an `Int64` column whose values lie in
/// `[min, max]` (an empty column counts as `[0, 0]`): unsigned where no
/// value is negative, else signed; `Int64` where nothing narrower fits.
pub open spec fn narrowest_signed(min: int, max: int) -> ColumnType {
    if min >= 0 {
        if max <= u8::MAX {
            ColumnType::UInt8
        } else if max <= u16::MAX {
            ColumnType::UInt16
        } else if max <= u32::MAX {
            ColumnType::UInt32
        } else {
            ColumnType::UInt64
        }
    } else if i8::MIN <= min && max <= i8::MAX {
        ColumnType::Int8
    } else if i16::MIN <= min && max <= i16::MAX {
        ColumnType::Int16
    } else if i32::MIN <= min && max <= i32::MAX {
        ColumnType::Int32
    } else {
        ColumnType::Int64
    }
}

/// The narrowest unsigned type for a `UInt64` column whose greatest value
/// is `max`.
pub open spec fn narrowest_unsigned(max: int) -> ColumnType {
    if max <= u8::MAX {
        ColumnType::UInt8
    } else if max <= u16::MAX {
        ColumnType::UInt16
    } else if max <= u32::MAX {
        ColumnType::UInt32
    } else {
        ColumnType::UInt64
    }
}

/// The narrowest type for an `Int64` column with the given least and
/// greatest values (`None` where it holds none).
pub fn narrow_signed(min: Option<i64>, max: Option<i64>) -> (r: ColumnType)
    ensures
        r == narrowest_signed(
            match min {
                Some(v) => v as int,
                None => 0,
            },
            match max {
                Some(v) => v as int,
                None => 0,
            },
        ),
{
    let lo: i64 = match min {
        Some(v) => v,
        None => 0,
    };
    let hi: i64 = match max {
        Some(v) => v,
        None => 0,
    };
    if lo >= 0 {
        if hi <= 255 {
            ColumnType::UInt8
        } else if hi <= 65535 {
            ColumnType::UInt16
        } else if hi <= 4294967295 {
            ColumnType::UInt32
        } else {
            ColumnType::UInt64
        }
    } else if -128 <= lo && hi <= 127 {
        ColumnType::Int8
    } else if -32768 <= lo && hi <= 32767 {
        ColumnType::Int16
    } else if -2147483648 <= lo && hi <= 2147483647 {
        ColumnType::Int32
    } else {
        ColumnType::Int64
    }
}

/// The narrowest type for a `UInt64` column with the given greatest value
/// (`None` where it holds none).
pub fn narrow_unsigned(max: Option<u64>) -> (r: ColumnType)
    ensures
        r == narrowest_unsigned(
            match max {
                Some(v) => v as int,
                None => 0,
            },
        ),
{
    let hi: u64 = match max {
        Some(v) => v,
        None => 0,
    };
    if hi <= 255 {
        ColumnType::UInt8
    } else if hi <= 65535 {
        ColumnType::UInt16
    } else if hi <= 4294967295 {
        ColumnType::UInt32
    } else {
        ColumnType::UInt64
    }
}

/// What a wide integer column holds, as far as narrowing needs it.
pub enum WideColumn {
    /// An `Int64` column with its least and greatest values (`None` where
    /// it holds none).
    Signed(Option<i64>, Option<i64>),
    /// A `UInt64` column with its greatest value.
    Unsigned(Option<u64>),
}

/// The type that a wide integer column narrows to.
pub open spec fn narrowed(c: WideColumn) -> ColumnType {
    match c {
        WideColumn::Signed(min, max) => narrowest_signed(
            match min {
                Some(v) => v as int,
                None => 0,
            },
            match max {
                Some(v) => v as int,
                None => 0,
            },
        ),
        WideColumn::Unsigned(max) => narrowest_unsigned(
            match max {
                Some(v) => v as int,
                None => 0,
            },
        ),
    }
}

/// The cast of each wide integer column: its name, with the type it
/// narrows to, in order.
pub fn shrink_plan(columns: Vec<(String, WideColumn)>) -> (r: Vec<(String, ColumnType)>)
    ensures
        r@.len() == columns@.len(),
        forall|i: int| #![trigger r@[i]] 0 <= i < r@.len() ==> r@[i].0 == columns@[i].0 && r@[i].1 == narrowed(
            columns@[i].1,
        ),
{
    let ghost orig = columns@;
    let mut rest = columns;
    let n = rest.len();
    let mut out: Vec<(String, ColumnType)> = Vec::new();
    let mut k: usize = 0;
    while k < n
        invariant
            n == orig.len(),
            k <= n,
            rest@ == orig.subrange(k as int, n as int),
            out@.len() == k,
            forall|i: int| #![trigger out@[i]] 0 <= i < k ==> out@[i].0 == orig[i].0 && out@[i].1 == narrowed(
                orig[i].1,
            ),
        decreases n - k,
    {
        let (name, c) = rest.remove(0);
        assert(orig[k as int] == (name, c));
        let t = match c {
            WideColumn::Signed(min, max) => narrow_signed(min, max),
            WideColumn::Unsigned(max) => narrow_unsigned(max),
        };
        out.push((name, t));
        k = k + 1;
    }
    out
}

/// The table with each `Int64` and `UInt64` column cast to the narrowest
/// type that holds its values (see `shrink_plan`); other columns stay as
/// they are.
pub fn shrink_int_columns(df: DataFrame) -> (r: Result<DataFrame, PolarsError>) {
    let names = column_names(&df);
    let mut wide: Vec<(String, WideColumn)> = Vec::new();
    let mut i: usize = 0;
    while i < names.len()
        decreases names.len() - i,
    {
        let name = names[i].as_str();
        match wide_int_type(&df, name) {
            Some(ColumnType::Int64) => {
                wide.push((names[i].clone(), WideColumn::Signed(min_i64(&df, name)?, max_i64(&df, name)?)));
            },
            Some(ColumnType::UInt64) => {
                wide.push((names[i].clone(), WideColumn::Unsigned(max_u64(&df, name)?)));
            },
            _ => {},
        }
        i = i + 1;
    }
    let plan = shrink_plan(wide);
    let mut df = df;
    let mut j: usize = 0;
    while j < plan.len()
        decreases plan.len() - j,
    {
        df = cast_column(df, plan[j].0.as_str(), plan[j].1)?;
        j = j + 1;
    }
    Ok(df)
}

} // verus!
