//! The DaCapo latency collector: per-request latencies from the files
//! `dacapo-latency-usec-<kind>-<iteration>.csv`, one table per kind.
use crate::file_info::FileInfo;
use crate::frame::{append_rows, drop_column, read_csv, with_difference, with_u32_value, ColumnType};
use crate::lazy_read::ContentSource;
use crate::pattern::{captures, captures_view, compile, group, group_of, regex_captures};
use crate::run::{failure_of, names_of, BenchSuiteCollect};
use crate::run_config::BenchSuiteRun;
use crate::text::{parse_u32, push_char, push_str, str_eq};
use crate::time::COMMA;
use polars::prelude::DataFrame;
use vstd::prelude::*;
use vstd::string::*;

verus! {

/// The name of a latency file: its kind and its iteration.
pub const LATENCY_FILE_PATTERN: &'static str = "^dacapo-latency-usec-([a-zA-Z0-9-]+)-([0-9]+)\\.csv$";

/// `s` with each `-` turned into `_`.
pub open spec fn dashes_to_underscores(s: Seq<char>) -> Seq<char> {
    s.map_values(|c: char| if c == '-' { '_' } else { c })
}

/// The table of the latencies of one kind.
pub open spec fn latency_table_name(kind: Seq<char>) -> Seq<char> {
    "dacapo_latency_"@ + dashes_to_underscores(kind)
}

/// The name of the table for latency kind `kind`.
pub fn latency_table(kind: &str) -> (r: String)
    ensures
        r@ == latency_table_name(kind@),
{
    let mut r = String::new();
    push_str(&mut r, "dacapo_latency_");
    let n = kind.unicode_len();
    let mut i: usize = 0;
    while i < n
        invariant
            n == kind@.len(),
            i <= n,
            r@ == "dacapo_latency_"@ + dashes_to_underscores(kind@.subrange(0, i as int)),
        decreases n - i,
    {
        let c = kind.get_char(i);
        push_char(&mut r, if c == '-' { '_' } else { c });
        assert(dashes_to_underscores(kind@.subrange(0, i + 1)) =~= dashes_to_underscores(kind@.subrange(0, i as int)).push(
            if c == '-' { '_' } else { c },
        ));
        i = i + 1;
    }
    assert(kind@.subrange(0, n as int) =~= kind@);
    r
}

/// The columns of a latency file, which has no header: `start_ns`, `end_ns`
/// and `owner`, each a `u64`.
pub fn latency_schema() -> (r: Vec<(String, ColumnType)>)
    ensures
        r@.len() == 3,
        r@[0].0@ == "start_ns"@ && r@[0].1 == ColumnType::UInt64,
        r@[1].0@ == "end_ns"@ && r@[1].1 == ColumnType::UInt64,
        r@[2].0@ == "owner"@ && r@[2].1 == ColumnType::UInt64,
{
    vec![
        ("start_ns".to_owned(), ColumnType::UInt64),
        ("end_ns".to_owned(), ColumnType::UInt64),
        ("owner".to_owned(), ColumnType::UInt64),
    ]
}

/// The latency collector's state: a table per kind seen so far.
pub struct BenchSuiteCollectDacapoLatency {
    latency_tables: Vec<(String, DataFrame)>,
    /// The entries seen so far, each with the failure it gave, if any.
    seen: Ghost<Seq<(Seq<char>, Option<Seq<char>>)>>,
}

impl BenchSuiteCollectDacapoLatency {
    /// The names of the tables so far.
    pub closed spec fn table_names(&self) -> Seq<Seq<char>> {
        names_of(self.latency_tables@)
    }

    pub fn new() -> (r: Self)
        ensures
            r.seen().len() == 0,
            r.table_names().len() == 0,
    {
        BenchSuiteCollectDacapoLatency { latency_tables: Vec::new(), seen: Ghost(Seq::empty()) }
    }

    fn position(&self, name: &str) -> (r: Option<usize>)
        ensures
            r matches Some(i) ==> i < self.table_names().len() && self.table_names()[i as int] == name@,
            r is None ==> !self.table_names().contains(name@),
    {
        let mut i: usize = 0;
        while i < self.latency_tables.len()
            invariant
                i <= self.latency_tables@.len(),
                forall|j: int| 0 <= j < i ==> self.latency_tables@[j].0@ != name@,
            decreases self.latency_tables.len() - i,
        {
            if str_eq(self.latency_tables[i].0.as_str(), name) {
                return Some(i);
            }
            i = i + 1;
        }
        assert(!self.table_names().contains(name@)) by {
            if self.table_names().contains(name@) {
                let j = choose|j: int| 0 <= j < self.table_names().len() && self.table_names()[j] == name@;
                assert(self.latency_tables@[j].0@ == name@);
            }
        }
        None
    }

    /// Looks at one entry: a latency file is read, given a `duration` column
    /// (`end_ns - start_ns`, in place of `end_ns`) and an `iteration` column,
    /// and appended to the table of its kind; any other entry is skipped.
    pub fn record_file<T: ContentSource>(&mut self, file: &mut FileInfo<'_, T>) -> (r: Result<(), String>)
        ensures
            final(file).name_view() == old(file).name_view(),
            ({
                let caps = regex_captures(LATENCY_FILE_PATTERN@, old(file).name_view());
                &&& caps.len() == 0 ==> final(self).table_names() == old(self).table_names()
                &&& r is Err ==> final(self).table_names() == old(self).table_names()
                &&& (caps.len() > 0 && r is Ok) ==> ({
                    let name = latency_table_name(group(caps[0], 1)->0);
                    &&& group(caps[0], 1) is Some
                    &&& old(self).table_names().contains(name) ==> final(self).table_names() == old(self).table_names()
                    &&& !old(self).table_names().contains(name) ==> final(self).table_names()
                        == old(self).table_names().push(name)
                })
            }),
    {
        let pattern = match compile(LATENCY_FILE_PATTERN) {
            Some(p) => p,
            None => {
                return Err("Failed to compile the latency file pattern".to_owned());
            },
        };
        let caps = captures(&pattern, file.name());
        if caps.len() == 0 {
            return Ok(());
        }
        proof {
            assert(captures_view(caps@)[0] == captures_view(seq![caps@[0]])[0]);
        }
        let table_name = match group_of(&caps[0], 1) {
            Some(kind) => latency_table(kind.as_str()),
            None => {
                return Err("Missing file type in regex capture".to_owned());
            },
        };
        let iteration = match group_of(&caps[0], 2) {
            Some(t) => match parse_u32(t.as_str()) {
                Some(v) => v,
                None => {
                    return Err("Failed to parse iteration number".to_owned());
                },
            },
            None => {
                return Err("Missing iteration in regex capture".to_owned());
            },
        };
        let schema = latency_schema();
        let read = match file.content_bytes() {
            Ok(bytes) => read_csv(bytes, false, COMMA, Some(&schema)),
            Err(_) => {
                return Err("Failed to read the files contents".to_owned());
            },
        };
        let mut df = match read {
            Ok(df) => df,
            Err(_) => {
                return Err("Failed to parse latency CSV".to_owned());
            },
        };
        if with_difference(&mut df, "end_ns", "start_ns", "duration").is_err() || drop_column(&mut df, "end_ns").is_err()
            || with_u32_value(&mut df, "iteration", iteration).is_err() {
            return Err("Failed to derive the latency columns".to_owned());
        }
        match self.position(table_name.as_str()) {
            Some(i) => {
                let ghost names = self.table_names();
                let (name, mut existing) = self.latency_tables.remove(i);
                let appended = append_rows(&mut existing, &df);
                self.latency_tables.insert(i, (name, existing));
                assert(self.table_names() =~= names);
                match appended {
                    Ok(()) => Ok(()),
                    Err(_) => Err("Failed to append latency rows".to_owned()),
                }
            },
            None => {
                let ghost names = self.table_names();
                let ghost nm = table_name@;
                self.latency_tables.push((table_name, df));
                assert(self.table_names() =~= names.push(nm));
                Ok(())
            },
        }
    }

    /// The tables, one per kind.
    pub fn into_tables(self) -> (r: Vec<(String, DataFrame)>)
        ensures
            names_of(r@) == self.table_names(),
    {
        self.latency_tables
    }
}

impl BenchSuiteCollect for BenchSuiteCollectDacapoLatency {
    closed spec fn seen(&self) -> Seq<(Seq<char>, Option<Seq<char>>)> {
        self.seen@
    }

    open spec fn yields(&self) -> bool {
        true
    }

    open spec fn result_names(&self) -> Seq<Seq<char>> {
        self.table_names()
    }

    fn process_file<T: ContentSource>(&mut self, config: &BenchSuiteRun, file: &mut FileInfo<'_, T>) -> (r: Result<(), String>)
        ensures
            final(file).name_view() == old(file).name_view(),
            ({
                let caps = regex_captures(LATENCY_FILE_PATTERN@, old(file).name_view());
                &&& caps.len() == 0 ==> final(self).table_names() == old(self).table_names()
                &&& r is Err ==> final(self).table_names() == old(self).table_names()
                &&& (caps.len() > 0 && r is Ok) ==> ({
                    let name = latency_table_name(group(caps[0], 1)->0);
                    &&& group(caps[0], 1) is Some
                    &&& old(self).table_names().contains(name) ==> final(self).table_names() == old(self).table_names()
                    &&& !old(self).table_names().contains(name) ==> final(self).table_names()
                        == old(self).table_names().push(name)
                })
            }),
    {
        let ghost name = file.name_view();
        let ghost before = self.seen@;
        let r = self.record_file(file);
        self.seen = Ghost(before.push((name, failure_of(r))));
        r
    }

    fn get_result(self, config: &BenchSuiteRun) -> (r: Result<Vec<(String, DataFrame)>, String>) {
        Ok(self.into_tables())
    }
}

} // verus!
