//! The time collector: the resource usage that `time` wrote for the JVM, as
//! the CSV file `jvm0.time`.
use crate::file_info::FileInfo;
use crate::frame::read_csv;
use crate::lazy_read::ContentSource;
use crate::run::{failure_of, names_of, BenchSuiteCollect};
use crate::run_config::BenchSuiteRun;
use crate::text::str_eq;
use polars::prelude::DataFrame;
use vstd::prelude::*;

verus! {

/// The separator of CSV files: `,`.
pub const COMMA: u8 = 44;

/// The time collector's state: the table, once read.
pub struct BenchSuiteCollectTime {
    time_df: Option<DataFrame>,
    /// The entries seen so far, each with the failure it gave, if any.
    seen: Ghost<Seq<(Seq<char>, Option<Seq<char>>)>>,
}

impl BenchSuiteCollectTime {
    /// Whether the table has been read.
    pub closed spec fn has_table(&self) -> bool {
        self.time_df is Some
    }

    /// The table, once read.
    pub closed spec fn table_view(&self) -> Option<DataFrame> {
        self.time_df
    }

    pub fn new() -> (r: Self)
        ensures
            r.seen().len() == 0,
            !r.has_table(),
    {
        BenchSuiteCollectTime { time_df: None, seen: Ghost(Seq::empty()) }
    }

    /// Looks at one entry: `jvm0.time` is read as CSV with a header and
    /// inferred column types (a second one is an error); any other entry is
    /// skipped.
    pub fn record_file<T: ContentSource>(&mut self, file: &mut FileInfo<'_, T>) -> (r: Result<(), String>)
        ensures
            final(file).name_view() == old(file).name_view(),
            old(file).name_view() != "jvm0.time"@ ==> r is Ok && final(self).table_view() == old(self).table_view()
                && final(file).content_state() == old(file).content_state(),
            old(file).name_view() == "jvm0.time"@ && old(self).has_table() ==> (r matches Err(m)
                && m@ == "Duplicate time files"@) && final(self).table_view() == old(self).table_view()
                && final(file).content_state() == old(file).content_state(),
            r is Ok ==> (final(self).has_table() <==> old(self).has_table() || old(file).name_view() == "jvm0.time"@),
            r is Err ==> final(self).table_view() == old(self).table_view(),
    {
        if !str_eq(file.name(), "jvm0.time") {
            return Ok(());
        }
        if self.time_df.is_some() {
            return Err("Duplicate time files".to_owned());
        }
        let df = match file.content_bytes() {
            Ok(bytes) => read_csv(bytes, true, COMMA, None),
            Err(_) => {
                return Err("Failed to read the files contents".to_owned());
            },
        };
        match df {
            Ok(df) => {
                self.time_df = Some(df);
                Ok(())
            },
            Err(_) => Err("Failed to parse jvm0.time".to_owned()),
        }
    }

    /// The table `time`, if the run had the file.
    pub fn into_tables(self) -> (r: Vec<(String, DataFrame)>)
        ensures
            self.has_table() ==> r@.len() == 1 && r@[0].0@ == "time"@,
            !self.has_table() ==> r@.len() == 0,
    {
        let mut r: Vec<(String, DataFrame)> = Vec::new();
        if let Some(df) = self.time_df {
            r.push(("time".to_owned(), df));
        }
        r
    }
}

impl BenchSuiteCollect for BenchSuiteCollectTime {
    closed spec fn seen(&self) -> Seq<(Seq<char>, Option<Seq<char>>)> {
        self.seen@
    }

    open spec fn yields(&self) -> bool {
        true
    }

    open spec fn result_names(&self) -> Seq<Seq<char>> {
        if self.has_table() {
            seq!["time"@]
        } else {
            Seq::empty()
        }
    }

    fn process_file<T: ContentSource>(&mut self, config: &BenchSuiteRun, file: &mut FileInfo<'_, T>) -> (r: Result<(), String>)
        ensures
            final(file).name_view() == old(file).name_view(),
            old(file).name_view() != "jvm0.time"@ ==> r is Ok && final(self).table_view() == old(self).table_view()
                && final(file).content_state() == old(file).content_state(),
            old(file).name_view() == "jvm0.time"@ && old(self).has_table() ==> (r matches Err(m)
                && m@ == "Duplicate time files"@) && final(self).table_view() == old(self).table_view()
                && final(file).content_state() == old(file).content_state(),
            r is Ok ==> (final(self).has_table() <==> old(self).has_table() || old(file).name_view() == "jvm0.time"@),
            r is Err ==> final(self).table_view() == old(self).table_view(),
    {
        let ghost name = file.name_view();
        let ghost before = self.seen@;
        let r = self.record_file(file);
        self.seen = Ghost(before.push((name, failure_of(r))));
        r
    }

    fn get_result(self, config: &BenchSuiteRun) -> (r: Result<Vec<(String, DataFrame)>, String>) {
        let ghost names = self.result_names();
        let v = self.into_tables();
        proof {
            if v@.len() == 1 {
                assert(names_of(v@) =~= names);
            } else {
                assert(names_of(v@) =~= names);
            }
        }
        Ok(v)
    }
}

} // verus!
