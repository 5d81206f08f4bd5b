//! The DaCapo iteration collector: the time of each benchmark iteration, as
//! the harness reports it in `jvm0.txt`.
use crate::file_info::FileInfo;
use crate::frame::{frame_of, ColumnValues};
use crate::lazy_read::ContentSource;
use crate::pattern::{captures, captures_view, compile, group, group_of};
use crate::run::{failure_of, names_of, BenchSuiteCollect};
use crate::run_config::BenchSuiteRun;
use crate::text::{parse_u64, str_eq, unsigned_in_range, unsigned_value};
use polars::prelude::DataFrame;
use vstd::prelude::*;

verus! {

/// A harness line that reports an iteration's time in milliseconds.
pub const ITERATION_PATTERN: &'static str = "DaCapo.*in (\\d+) msec";

/// The iteration times of a list of matches: group 1 of each, where it reads
/// as a `u64`; other matches are skipped.
pub open spec fn iteration_times(caps: Seq<Seq<Option<Seq<char>>>>) -> Seq<u64>
    decreases caps.len(),
{
    if caps.len() == 0 {
        Seq::empty()
    } else {
        let t = iteration_times(caps.drop_last());
        match group(caps.last(), 1) {
            Some(s) => if unsigned_in_range(s, u64::MAX as nat) {
                t.push(unsigned_value(s)->0 as u64)
            } else {
                t
            },
            None => t,
        }
    }
}

/// The iteration times of a list of matches of `ITERATION_PATTERN`.
pub fn iteration_times_of(caps: &Vec<Vec<Option<String>>>) -> (r: Vec<u64>)
    ensures
        r@ == iteration_times(captures_view(caps@)),
{
    let mut r: Vec<u64> = Vec::new();
    let mut i: usize = 0;
    while i < caps.len()
        invariant
            i <= caps@.len(),
            r@ == iteration_times(captures_view(caps@.subrange(0, i as int))),
        decreases caps.len() - i,
    {
        proof {
            let cv = captures_view(caps@.subrange(0, i + 1));
            assert(cv.drop_last() =~= captures_view(caps@.subrange(0, i as int)));
            assert(cv.last() == captures_view(seq![caps@[i as int]])[0]);
        }
        match group_of(&caps[i], 1) {
            Some(t) => match parse_u64(t.as_str()) {
                Some(v) => {
                    r.push(v);
                },
                None => {},
            },
            None => {},
        }
        i = i + 1;
    }
    assert(caps@.subrange(0, caps@.len() as int) =~= caps@);
    r
}

/// The positions `0, 1, ..` of `n` items.
fn positions(n: usize) -> (r: Vec<u32>)
    requires
        n <= u32::MAX,
    ensures
        r@.len() == n,
        forall|i: int| 0 <= i < n ==> r@[i] == i,
{
    let mut r: Vec<u32> = Vec::new();
    let mut i: usize = 0;
    while i < n
        invariant
            i <= n <= u32::MAX,
            r@.len() == i,
            forall|j: int| 0 <= j < i ==> r@[j] == j,
        decreases n - i,
    {
        r.push(i as u32);
        i = i + 1;
    }
    r
}

/// The iteration collector's state: the table, once read.
pub struct BenchSuiteCollectDacapoIteration {
    iteration_df: Option<DataFrame>,
    /// The entries seen so far, each with the failure it gave, if any.
    seen: Ghost<Seq<(Seq<char>, Option<Seq<char>>)>>,
}

impl BenchSuiteCollectDacapoIteration {
    /// Whether the table has been read.
    pub closed spec fn has_table(&self) -> bool {
        self.iteration_df is Some
    }

    /// The table, once read.
    pub closed spec fn table_view(&self) -> Option<DataFrame> {
        self.iteration_df
    }

    pub fn new() -> (r: Self)
        ensures
            r.seen().len() == 0,
            !r.has_table(),
    {
        BenchSuiteCollectDacapoIteration { iteration_df: None, seen: Ghost(Seq::empty()) }
    }

    /// Looks at one entry: `jvm0.txt` gives the table of iteration times (a
    /// second one is an error); any other entry is skipped.
    pub fn record_file<T: ContentSource>(&mut self, file: &mut FileInfo<'_, T>) -> (r: Result<(), String>)
        ensures
            final(file).name_view() == old(file).name_view(),
            old(file).name_view() != "jvm0.txt"@ ==> r is Ok && final(self).table_view() == old(self).table_view()
                && final(file).content_state() == old(file).content_state(),
            old(file).name_view() == "jvm0.txt"@ && old(self).has_table() ==> (r matches Err(m)
                && m@ == "Duplicate jvm0.txt files"@) && final(self).table_view() == old(self).table_view()
                && final(file).content_state() == old(file).content_state(),
            r is Ok ==> (final(self).has_table() <==> old(self).has_table() || old(file).name_view() == "jvm0.txt"@),
            r is Err ==> final(self).table_view() == old(self).table_view(),
    {
        if !str_eq(file.name(), "jvm0.txt") {
            return Ok(());
        }
        if self.iteration_df.is_some() {
            return Err("Duplicate jvm0.txt files".to_owned());
        }
        let pattern = match compile(ITERATION_PATTERN) {
            Some(p) => p,
            None => {
                return Err("Failed to compile the iteration pattern".to_owned());
            },
        };
        let caps = match file.content_string() {
            Ok(text) => captures(&pattern, text),
            Err(_) => {
                return Err("Failed to read the files contents".to_owned());
            },
        };
        let times = iteration_times_of(&caps);
        if times.len() > u32::MAX as usize {
            return Err("Too many iterations".to_owned());
        }
        let indices = positions(times.len());
        let columns = vec![
            ("dacapo_iteration".to_owned(), ColumnValues::U32(indices)),
            ("dacapo_iteration_time_ms".to_owned(), ColumnValues::U64(times)),
        ];
        match frame_of(columns) {
            Ok(df) => {
                self.iteration_df = Some(df);
                Ok(())
            },
            Err(_) => Err("Failed to create iteration DataFrame".to_owned()),
        }
    }

    /// The table `iteration`, if the run had the log.
    pub fn into_tables(self) -> (r: Vec<(String, DataFrame)>)
        ensures
            self.has_table() ==> r@.len() == 1 && r@[0].0@ == "iteration"@,
            !self.has_table() ==> r@.len() == 0,
    {
        let mut r: Vec<(String, DataFrame)> = Vec::new();
        if let Some(df) = self.iteration_df {
            r.push(("iteration".to_owned(), df));
        }
        r
    }
}

impl BenchSuiteCollect for BenchSuiteCollectDacapoIteration {
    closed spec fn seen(&self) -> Seq<(Seq<char>, Option<Seq<char>>)> {
        self.seen@
    }

    open spec fn yields(&self) -> bool {
        true
    }

    open spec fn result_names(&self) -> Seq<Seq<char>> {
        if self.has_table() {
            seq!["iteration"@]
        } else {
            Seq::empty()
        }
    }

    fn process_file<T: ContentSource>(&mut self, config: &BenchSuiteRun, file: &mut FileInfo<'_, T>) -> (r: Result<(), String>)
        ensures
            final(file).name_view() == old(file).name_view(),
            old(file).name_view() != "jvm0.txt"@ ==> r is Ok && final(self).table_view() == old(self).table_view()
                && final(file).content_state() == old(file).content_state(),
            old(file).name_view() == "jvm0.txt"@ && old(self).has_table() ==> (r matches Err(m)
                && m@ == "Duplicate jvm0.txt files"@) && final(self).table_view() == old(self).table_view()
                && final(file).content_state() == old(file).content_state(),
            r is Ok ==> (final(self).has_table() <==> old(self).has_table() || old(file).name_view() == "jvm0.txt"@),
            r is Err ==> final(self).table_view() == old(self).table_view(),
    {
        let ghost name = file.name_view();
        let ghost before = self.seen@;
        let r = self.record_file(file);
        self.seen = Ghost(before.push((name, failure_of(r))));
        r
    }

    fn get_result(self, config: &BenchSuiteRun) -> (r: Result<Vec<(String, DataFrame)>, String>) {
        let ghost names = self.result_names();
        let v = self.into_tables();
        proof {
            if v@.len() == 1 {
                assert(names_of(v@) =~= names);
            } else {
                assert(names_of(v@) =~= names);
            }
        }
        Ok(v)
    }
}

} // verus!
