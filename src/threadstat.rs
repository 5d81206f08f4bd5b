//! The threadstat collector: per-thread event counts from `threadstat.csv`.
//! A count of -1 marks a descriptor that could not be read; such rows are
//! dropped and the counts kept as unsigned.
use crate::file_info::FileInfo;
use crate::frame::{cast_column, drop_rows_equal, read_csv, ColumnType};
use crate::lazy_read::ContentSource;
use crate::run::{failure_of, names_of, BenchSuiteCollect};
use crate::run_config::BenchSuiteRun;
use crate::text::str_eq;
use crate::time::COMMA;
use polars::prelude::DataFrame;
use vstd::prelude::*;

verus! {

/// The count that marks an unreadable descriptor.
pub const UNREADABLE_COUNT: i64 = -1;

/// The columns of `threadstat.csv`: `pid` (`u32`), `event` (text) and
/// `count` (`i64`).
pub fn threadstat_schema() -> (r: Vec<(String, ColumnType)>)
    ensures
        r@.len() == 3,
        r@[0].0@ == "pid"@ && r@[0].1 == ColumnType::UInt32,
        r@[1].0@ == "event"@ && r@[1].1 == ColumnType::Text,
        r@[2].0@ == "count"@ && r@[2].1 == ColumnType::Int64,
{
    vec![
        ("pid".to_owned(), ColumnType::UInt32),
        ("event".to_owned(), ColumnType::Text),
        ("count".to_owned(), ColumnType::Int64),
    ]
}

/// The threadstat collector's state: the table, once read.
pub struct BenchSuiteCollectThreadstat {
    threadstat_df: Option<DataFrame>,
    /// The entries seen so far, each with the failure it gave, if any.
    seen: Ghost<Seq<(Seq<char>, Option<Seq<char>>)>>,
}

impl BenchSuiteCollectThreadstat {
    /// Whether the table has been read.
    pub closed spec fn has_table(&self) -> bool {
        self.threadstat_df is Some
    }

    /// The table, once read.
    pub closed spec fn table_view(&self) -> Option<DataFrame> {
        self.threadstat_df
    }

    pub fn new() -> (r: Self)
        ensures
            r.seen().len() == 0,
            !r.has_table(),
    {
        BenchSuiteCollectThreadstat { threadstat_df: None, seen: Ghost(Seq::empty()) }
    }

    /// Looks at one entry: `threadstat.csv` is read (a second one is an
    /// error); any other entry is skipped.
    pub fn record_file<T: ContentSource>(&mut self, file: &mut FileInfo<'_, T>) -> (r: Result<(), String>)
        ensures
            final(file).name_view() == old(file).name_view(),
            old(file).name_view() != "threadstat.csv"@ ==> r is Ok && final(self).table_view() == old(self).table_view()
                && final(file).content_state() == old(file).content_state(),
            old(file).name_view() == "threadstat.csv"@ && old(self).has_table() ==> (r matches Err(m)
                && m@ == "Duplicate threadstat.csv files"@) && final(self).table_view() == old(self).table_view()
                && final(file).content_state() == old(file).content_state(),
            r is Ok ==> (final(self).has_table() <==> old(self).has_table() || old(file).name_view()
                == "threadstat.csv"@),
            r is Err ==> final(self).table_view() == old(self).table_view(),
    {
        if !str_eq(file.name(), "threadstat.csv") {
            return Ok(());
        }
        if self.threadstat_df.is_some() {
            return Err("Duplicate threadstat.csv files".to_owned());
        }
        let schema = threadstat_schema();
        let df = match file.content_bytes() {
            Ok(bytes) => read_csv(bytes, true, COMMA, Some(&schema)),
            Err(_) => {
                return Err("Failed to read the files contents".to_owned());
            },
        };
        let df = match df {
            Ok(df) => df,
            Err(_) => {
                return Err("Failed to parse threadstat.csv".to_owned());
            },
        };
        let df = match drop_rows_equal(df, "count", UNREADABLE_COUNT) {
            Ok(df) => df,
            Err(_) => {
                return Err("Failed to drop unreadable counts".to_owned());
            },
        };
        match cast_column(df, "count", ColumnType::UInt32) {
            Ok(df) => {
                self.threadstat_df = Some(df);
                Ok(())
            },
            Err(_) => Err("Failed to cast the counts".to_owned()),
        }
    }

    /// The table `threadstat`, if the run had the file.
    pub fn into_tables(self) -> (r: Vec<(String, DataFrame)>)
        ensures
            self.has_table() ==> r@.len() == 1 && r@[0].0@ == "threadstat"@,
            !self.has_table() ==> r@.len() == 0,
    {
        let mut r: Vec<(String, DataFrame)> = Vec::new();
        if let Some(df) = self.threadstat_df {
            r.push(("threadstat".to_owned(), df));
        }
        r
    }
}

impl BenchSuiteCollect for BenchSuiteCollectThreadstat {
    closed spec fn seen(&self) -> Seq<(Seq<char>, Option<Seq<char>>)> {
        self.seen@
    }

    open spec fn yields(&self) -> bool {
        true
    }

    open spec fn result_names(&self) -> Seq<Seq<char>> {
        if self.has_table() {
            seq!["threadstat"@]
        } else {
            Seq::empty()
        }
    }

    fn process_file<T: ContentSource>(&mut self, config: &BenchSuiteRun, file: &mut FileInfo<'_, T>) -> (r: Result<(), String>)
        ensures
            final(file).name_view() == old(file).name_view(),
            old(file).name_view() != "threadstat.csv"@ ==> r is Ok && final(self).table_view() == old(self).table_view()
                && final(file).content_state() == old(file).content_state(),
            old(file).name_view() == "threadstat.csv"@ && old(self).has_table() ==> (r matches Err(m)
                && m@ == "Duplicate threadstat.csv files"@) && final(self).table_view() == old(self).table_view()
                && final(file).content_state() == old(file).content_state(),
            r is Ok ==> (final(self).has_table() <==> old(self).has_table() || old(file).name_view()
                == "threadstat.csv"@),
            r is Err ==> final(self).table_view() == old(self).table_view(),
    {
        let ghost name = file.name_view();
        let ghost before = self.seen@;
        let r = self.record_file(file);
        self.seen = Ghost(before.push((name, failure_of(r))));
        r
    }

    fn get_result(self, config: &BenchSuiteRun) -> (r: Result<Vec<(String, DataFrame)>, String>) {
        let ghost names = self.result_names();
        let v = self.into_tables();
        proof {
            if v@.len() == 1 {
                assert(names_of(v@) =~= names);
            } else {
                assert(names_of(v@) =~= names);
            }
        }
        Ok(v)
    }
}

} // verus!
