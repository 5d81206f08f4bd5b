//! The ZGC phases collector: the duration of each garbage-collection phase,
//! from the `gc,phases` lines of `jvm0.txt`, for runs whose collector is ZGC.
use crate::file_info::FileInfo;
use crate::frame::{cast_column, frame_of, ColumnType, ColumnValues};
use crate::lazy_read::ContentSource;
use crate::pattern::{captures, captures_view, compile, group, group_of};
use crate::run::{failure_of, names_of, BenchSuiteCollect};
use crate::run_config::BenchSuiteRun;
use crate::text::{
    contains_text, has_infix, is_plain_float, lower_of, lowercase, parse_u32, plain_float, str_eq, trim, trimmed,
    unsigned_in_range, unsigned_value,
};
use polars::prelude::DataFrame;
use vstd::prelude::*;

verus! {

/// A log line that reports a phase: clock time, GC number, generation
/// (`Y` or `O`), phase name and duration in milliseconds.
pub const GC_PHASE_PATTERN: &'static str =
    "\\[([^\\]]*)\\]\\[info\\s*\\]\\[gc,phases\\s*\\] GC\\((\\d+)\\) ([YO]): ([A-Za-z \\-]+) ([0-9.]+)ms";

/// A phase: clock time, GC number, generation, name, and duration as text.
pub type PhaseRow = (Seq<char>, u32, Seq<char>, Seq<char>, Seq<char>);

/// The run's garbage collector is ZGC: its name holds `zgc` in any case.
pub open spec fn is_zgc(gc: Option<String>) -> bool {
    match gc {
        Some(g) => has_infix(lower_of(g@), "zgc"@),
        None => false,
    }
}

/// The phase a match reports, with its name trimmed; `None` where the GC
/// number is no `u32` or the duration no decimal number.
pub open spec fn phase_row(c: Seq<Option<Seq<char>>>) -> Option<PhaseRow> {
    match (group(c, 1), group(c, 2), group(c, 3), group(c, 4), group(c, 5)) {
        (Some(clock), Some(number), Some(kind), Some(name), Some(time)) => if unsigned_in_range(
            number,
            u32::MAX as nat,
        ) && is_plain_float(time) {
            Some((clock, unsigned_value(number)->0 as u32, kind, trimmed(name), time))
        } else {
            None
        },
        _ => None,
    }
}

/// The phases of a list of matches, in order; `None` where one is malformed.
pub open spec fn phase_rows(caps: Seq<Seq<Option<Seq<char>>>>) -> Option<Seq<PhaseRow>>
    decreases caps.len(),
{
    if caps.len() == 0 {
        Some(Seq::empty())
    } else {
        match (phase_rows(caps.drop_last()), phase_row(caps.last())) {
            (Some(rows), Some(row)) => Some(rows.push(row)),
            _ => None,
        }
    }
}

/// What a list of phases says.
pub open spec fn phases_view(r: Seq<(String, u32, String, String, String)>) -> Seq<PhaseRow> {
    r.map_values(|e: (String, u32, String, String, String)| (e.0@, e.1, e.2@, e.3@, e.4@))
}

/// A malformed match leaves the whole log without phases.
proof fn lemma_phases_stay_none(caps: Seq<Seq<Option<Seq<char>>>>, k: int)
    requires
        0 < k <= caps.len(),
        phase_rows(caps.subrange(0, k)) is None,
    ensures
        phase_rows(caps) is None,
    decreases caps.len() - k,
{
    if k < caps.len() {
        assert(caps.subrange(0, k + 1).drop_last() =~= caps.subrange(0, k));
        lemma_phases_stay_none(caps, k + 1);
    } else {
        assert(caps.subrange(0, k) =~= caps);
    }
}

/// The phases of a list of matches of `GC_PHASE_PATTERN`; an error where one
/// is malformed.
pub fn phase_rows_of(caps: &Vec<Vec<Option<String>>>) -> (r: Result<Vec<(String, u32, String, String, String)>, String>)
    ensures
        match phase_rows(captures_view(caps@)) {
            Some(rows) => r matches Ok(v) && phases_view(v@) == rows,
            None => r is Err,
        },
{
    let mut r: Vec<(String, u32, String, String, String)> = Vec::new();
    let mut i: usize = 0;
    assert(phases_view(r@) =~= Seq::<PhaseRow>::empty());
    while i < caps.len()
        invariant
            i <= caps@.len(),
            phase_rows(captures_view(caps@.subrange(0, i as int))) == Some(phases_view(r@)),
        decreases caps.len() - i,
    {
        let ghost cv = captures_view(caps@.subrange(0, i + 1));
        proof {
            assert(cv.drop_last() =~= captures_view(caps@.subrange(0, i as int)));
            assert(cv.last() == captures_view(seq![caps@[i as int]])[0]);
        }
        let c = &caps[i];
        let row = match (group_of(c, 1), group_of(c, 2), group_of(c, 3), group_of(c, 4), group_of(c, 5)) {
            (Some(clock), Some(number), Some(kind), Some(name), Some(time)) => {
                match parse_u32(number.as_str()) {
                    Some(n) => {
                        if plain_float(time.as_str()) {
                            Some((clock.clone(), n, kind.clone(), trim(name.as_str()).to_owned(), time.clone()))
                        } else {
                            None
                        }
                    },
                    None => None,
                }
            },
            _ => None,
        };
        match row {
            Some(row) => {
                let ghost before = phases_view(r@);
                r.push(row);
                assert(phases_view(r@) =~= before.push(phases_view(r@).last()));
            },
            None => {
                proof {
                    lemma_phases_stay_none(captures_view(caps@), i as int + 1);
                    assert(caps@.subrange(0, caps@.len() as int) =~= caps@);
                }
                return Err("Failed to parse a GC phase".to_owned());
            },
        }
        i = i + 1;
    }
    assert(caps@.subrange(0, caps@.len() as int) =~= caps@);
    Ok(r)
}

/// The five columns of a list of phases.
fn phase_columns(rows: Vec<(String, u32, String, String, String)>) -> (r: (
    Vec<String>,
    Vec<u32>,
    Vec<String>,
    Vec<String>,
    Vec<String>,
))
    ensures
        r.0@.len() == rows@.len() && r.1@.len() == rows@.len() && r.2@.len() == rows@.len() && r.3@.len()
            == rows@.len() && r.4@.len() == rows@.len(),
        forall|i: int|
            0 <= i < rows@.len() ==> r.0@[i] == rows@[i].0 && r.1@[i] == rows@[i].1 && r.2@[i] == rows@[i].2
                && r.3@[i] == rows@[i].3 && r.4@[i] == rows@[i].4,
{
    let ghost orig = rows@;
    let mut rest = rows;
    let n = rest.len();
    let mut a: Vec<String> = Vec::new();
    let mut b: Vec<u32> = Vec::new();
    let mut c: Vec<String> = Vec::new();
    let mut d: Vec<String> = Vec::new();
    let mut e: Vec<String> = Vec::new();
    let mut k: usize = 0;
    while k < n
        invariant
            n == orig.len(),
            k <= n,
            rest@ == orig.subrange(k as int, n as int),
            a@.len() == k && b@.len() == k && c@.len() == k && d@.len() == k && e@.len() == k,
            forall|i: int|
                0 <= i < k ==> a@[i] == orig[i].0 && b@[i] == orig[i].1 && c@[i] == orig[i].2 && d@[i] == orig[i].3
                    && e@[i] == orig[i].4,
        decreases n - k,
    {
        let (x0, x1, x2, x3, x4) = rest.remove(0);
        assert(orig[k as int] == (x0, x1, x2, x3, x4));
        a.push(x0);
        b.push(x1);
        c.push(x2);
        d.push(x3);
        e.push(x4);
        k = k + 1;
    }
    (a, b, c, d, e)
}

/// Whether the run's garbage collector is ZGC.
pub fn runs_zgc(run: &BenchSuiteRun) -> (r: bool)
    ensures
        r == is_zgc(run.gc),
{
    match &run.gc {
        Some(g) => {
            let lower = lowercase(g.as_str());
            contains_text(lower.as_str(), "zgc")
        },
        None => false,
    }
}

/// The ZGC phases collector's state: the table, once read.
pub struct BenchSuiteCollectZgcPhases {
    phases_df: Option<DataFrame>,
    /// The entries seen so far, each with the failure it gave, if any.
    seen: Ghost<Seq<(Seq<char>, Option<Seq<char>>)>>,
}

impl BenchSuiteCollectZgcPhases {
    /// Whether the table has been read.
    pub closed spec fn has_table(&self) -> bool {
        self.phases_df is Some
    }

    /// The table, once read.
    pub closed spec fn table_view(&self) -> Option<DataFrame> {
        self.phases_df
    }

    pub fn new() -> (r: Self)
        ensures
            r.seen().len() == 0,
            !r.has_table(),
    {
        BenchSuiteCollectZgcPhases { phases_df: None, seen: Ghost(Seq::empty()) }
    }

    /// Looks at one entry of a ZGC run: `jvm0.txt` gives the table of phases
    /// (a second one is an error); other entries, and every entry of another
    /// run, are skipped.
    pub fn record_file<T: ContentSource>(&mut self, run: &BenchSuiteRun, file: &mut FileInfo<'_, T>) -> (r: Result<(), String>)
        ensures
            final(file).name_view() == old(file).name_view(),
            (!is_zgc(run.gc) || old(file).name_view() != "jvm0.txt"@) ==> r is Ok && final(self).table_view()
                == old(self).table_view() && final(file).content_state() == old(file).content_state(),
            is_zgc(run.gc) && old(file).name_view() == "jvm0.txt"@ && old(self).has_table() ==> (r matches Err(m)
                && m@ == "Duplicate jvm0.txt files"@) && final(self).table_view() == old(self).table_view()
                && final(file).content_state() == old(file).content_state(),
            r is Ok ==> (final(self).has_table() <==> old(self).has_table() || (is_zgc(run.gc) && old(
                file,
            ).name_view() == "jvm0.txt"@)),
            r is Err ==> final(self).table_view() == old(self).table_view(),
    {
        if !runs_zgc(run) {
            return Ok(());
        }
        if !str_eq(file.name(), "jvm0.txt") {
            return Ok(());
        }
        if self.phases_df.is_some() {
            return Err("Duplicate jvm0.txt files".to_owned());
        }
        let pattern = match compile(GC_PHASE_PATTERN) {
            Some(p) => p,
            None => {
                return Err("Failed to compile the phase pattern".to_owned());
            },
        };
        let caps = match file.content_string() {
            Ok(text) => captures(&pattern, text),
            Err(_) => {
                return Err("Failed to read the files contents".to_owned());
            },
        };
        let rows = phase_rows_of(&caps)?;
        let (clock, number, kind, name, time) = phase_columns(rows);
        let columns = vec![
            ("gc_phase_clock_time".to_owned(), ColumnValues::Text(clock)),
            ("gc_phase_gc_number".to_owned(), ColumnValues::U32(number)),
            ("gc_phase_type".to_owned(), ColumnValues::Text(kind)),
            ("gc_phase_name".to_owned(), ColumnValues::Text(name)),
            ("gc_phase_time_ms".to_owned(), ColumnValues::Text(time)),
        ];
        let df = match frame_of(columns) {
            Ok(df) => df,
            Err(_) => {
                return Err("Failed to create phases DataFrame".to_owned());
            },
        };
        match cast_column(df, "gc_phase_time_ms", ColumnType::Float64) {
            Ok(df) => {
                self.phases_df = Some(df);
                Ok(())
            },
            Err(_) => Err("Failed to parse phase time".to_owned()),
        }
    }

    /// The table `zgc_phases`, if the run had the log.
    pub fn into_tables(self) -> (r: Vec<(String, DataFrame)>)
        ensures
            self.has_table() ==> r@.len() == 1 && r@[0].0@ == "zgc_phases"@,
            !self.has_table() ==> r@.len() == 0,
    {
        let mut r: Vec<(String, DataFrame)> = Vec::new();
        if let Some(df) = self.phases_df {
            r.push(("zgc_phases".to_owned(), df));
        }
        r
    }
}

impl BenchSuiteCollect for BenchSuiteCollectZgcPhases {
    closed spec fn seen(&self) -> Seq<(Seq<char>, Option<Seq<char>>)> {
        self.seen@
    }

    open spec fn yields(&self) -> bool {
        true
    }

    open spec fn result_names(&self) -> Seq<Seq<char>> {
        if self.has_table() {
            seq!["zgc_phases"@]
        } else {
            Seq::empty()
        }
    }

    fn process_file<T: ContentSource>(&mut self, config: &BenchSuiteRun, file: &mut FileInfo<'_, T>) -> (r: Result<(), String>)
        ensures
            final(file).name_view() == old(file).name_view(),
            (!is_zgc(config.gc) || old(file).name_view() != "jvm0.txt"@) ==> r is Ok && final(self).table_view()
                == old(self).table_view() && final(file).content_state() == old(file).content_state(),
            is_zgc(config.gc) && old(file).name_view() == "jvm0.txt"@ && old(self).has_table() ==> (r matches Err(m)
                && m@ == "Duplicate jvm0.txt files"@) && final(self).table_view() == old(self).table_view()
                && final(file).content_state() == old(file).content_state(),
            r is Ok ==> (final(self).has_table() <==> old(self).has_table() || (is_zgc(config.gc) && old(
                file,
            ).name_view() == "jvm0.txt"@)),
            r is Err ==> final(self).table_view() == old(self).table_view(),
    {
        let ghost name = file.name_view();
        let ghost before = self.seen@;
        let r = self.record_file(config, file);
        self.seen = Ghost(before.push((name, failure_of(r))));
        r
    }

    fn get_result(self, config: &BenchSuiteRun) -> (r: Result<Vec<(String, DataFrame)>, String>) {
        let ghost names = self.result_names();
        let v = self.into_tables();
        proof {
            if v@.len() == 1 {
                assert(names_of(v@) =~= names);
            } else {
                assert(names_of(v@) =~= names);
            }
        }
        Ok(v)
    }
}

} // verus!
