//! The system load collector: the `sadf` exports of `sar` (`<name>.sadf`,
//! `;`-separated) and `cpu_data.csv`, one table each, with parsed
//! timestamps.
use crate::file_info::FileInfo;
use crate::frame::{column_names, drop_columns, drop_rows_equal, parse_timestamps, read_csv, rename_column};
use crate::lazy_read::ContentSource;
use crate::run::{failure_of, names_of, BenchSuiteCollect};
use crate::run_config::BenchSuiteRun;
use crate::text::{push_str, str_eq};
use crate::time::COMMA;
use polars::prelude::DataFrame;
use vstd::prelude::*;
use vstd::slice::slice_subrange;
use vstd::string::*;

verus! {

/// The separator of `sadf` exports: `;`.
pub const SEMICOLON: u8 = 59;

/// The table a file feeds and the separator of its fields: `cpu_data.csv`
/// feeds `cpu_sadf`; `<stem>.sadf` feeds `<stem>_sadf`.
pub open spec fn sadf_source(name: Seq<char>) -> Option<(Seq<char>, u8)> {
    if name == "cpu_data.csv"@ {
        Some(("cpu_sadf"@, COMMA))
    } else if name.len() >= 5 && name.subrange(name.len() - 5, name.len() as int) == ".sadf"@ {
        Some((name.subrange(0, name.len() - 5) + "_sadf"@, SEMICOLON))
    } else {
        None
    }
}

/// The table a file feeds and its separator, if it is a system load file.
pub fn sadf_source_of(name: &str) -> (r: Option<(String, u8)>)
    ensures
        match sadf_source(name@) {
            Some((t, sep)) => r matches Some(v) && v.0@ == t && v.1 == sep,
            None => r is None,
        },
{
    if str_eq(name, "cpu_data.csv") {
        return Some(("cpu_sadf".to_owned(), COMMA));
    }
    let n = name.unicode_len();
    if n >= 5 && str_eq(name.substring_char(n - 5, n), ".sadf") {
        let mut t = name.substring_char(0, n - 5).to_owned();
        push_str(&mut t, "_sadf");
        Some((t, SEMICOLON))
    } else {
        None
    }
}

/// The bytes of a file without the `# ` that `sadf` puts before its header.
pub open spec fn without_header_mark(b: Seq<u8>) -> Seq<u8> {
    if b.len() >= 2 && b[0] == 35 && b[1] == 32 {
        b.subrange(2, b.len() as int)
    } else {
        b
    }
}

/// The bytes of a file without a leading `# `.
pub fn strip_header_mark(b: &[u8]) -> (r: &[u8])
    ensures
        r@ == without_header_mark(b@),
{
    if b.len() >= 2 && b[0] == 35 && b[1] == 32 {
        slice_subrange(b, 2, b.len())
    } else {
        b
    }
}

/// A column named `%idle[...]`: the idle share under a per-CPU label.
pub open spec fn is_idle_column(name: Seq<char>) -> bool {
    name.len() >= 6 && name.subrange(0, 6) == "%idle["@
}

/// The first column whose name starts with `%idle[`, if any.
pub fn idle_column(names: &Vec<String>) -> (r: Option<usize>)
    ensures
        r matches Some(i) ==> i < names@.len() && is_idle_column(names@[i as int]@) && forall|j: int|
            0 <= j < i ==> !is_idle_column(#[trigger] names@[j]@),
        r is None ==> forall|j: int| 0 <= j < names@.len() ==> !is_idle_column(#[trigger] names@[j]@),
{
    let mut i: usize = 0;
    while i < names.len()
        invariant
            i <= names@.len(),
            forall|j: int| 0 <= j < i ==> !is_idle_column(#[trigger] names@[j]@),
        decreases names.len() - i,
    {
        let s = names[i].as_str();
        if s.unicode_len() >= 6 && str_eq(s.substring_char(0, 6), "%idle[") {
            return Some(i);
        }
        i = i + 1;
    }
    None
}

/// The columns each table leaves out: the idle share of the CPU tables and
/// the usage shares of the memory table.
pub fn dropped_columns(table: &str) -> (r: Vec<String>)
    ensures
        (table@ == "cpu_all_cores_sadf"@ || table@ == "cpu_sadf"@) ==> r@.len() == 1 && r@[0]@ == "%idle"@,
        table@ == "memory_sadf"@ ==> r@.len() == 2 && r@[0]@ == "%memused"@ && r@[1]@ == "%commit"@,
        !(table@ == "cpu_all_cores_sadf"@ || table@ == "cpu_sadf"@ || table@ == "memory_sadf"@) ==> r@.len() == 0,
{
    proof {
        reveal_strlit("memory_sadf");
        reveal_strlit("cpu_sadf");
        reveal_strlit("cpu_all_cores_sadf");
        assert("memory_sadf"@.len() == 11);
        assert("cpu_sadf"@.len() == 8);
        assert("cpu_all_cores_sadf"@.len() == 18);
    }
    if str_eq(table, "cpu_all_cores_sadf") || str_eq(table, "cpu_sadf") {
        vec!["%idle".to_owned()]
    } else if str_eq(table, "memory_sadf") {
        let mut r: Vec<String> = Vec::new();
        r.push("%memused".to_owned());
        r.push("%commit".to_owned());
        r
    } else {
        Vec::new()
    }
}

/// The system load collector's state: a table per file seen so far.
pub struct BenchSuiteCollectSystemLoad {
    tables: Vec<(String, DataFrame)>,
    /// The entries seen so far, each with the failure it gave, if any.
    seen: Ghost<Seq<(Seq<char>, Option<Seq<char>>)>>,
}

impl BenchSuiteCollectSystemLoad {
    /// The names of the tables so far.
    pub closed spec fn table_names(&self) -> Seq<Seq<char>> {
        names_of(self.tables@)
    }

    pub fn new() -> (r: Self)
        ensures
            r.seen().len() == 0,
            r.table_names().len() == 0,
    {
        BenchSuiteCollectSystemLoad { tables: Vec::new(), seen: Ghost(Seq::empty()) }
    }

    fn has(&self, name: &str) -> (r: bool)
        ensures
            r == self.table_names().contains(name@),
    {
        let mut i: usize = 0;
        while i < self.tables.len()
            invariant
                i <= self.tables@.len(),
                forall|j: int| 0 <= j < i ==> self.tables@[j].0@ != name@,
            decreases self.tables.len() - i,
        {
            if str_eq(self.tables[i].0.as_str(), name) {
                assert(self.table_names()[i as int] == name@);
                return true;
            }
            i = i + 1;
        }
        assert(!self.table_names().contains(name@)) by {
            if self.table_names().contains(name@) {
                let j = choose|j: int| 0 <= j < self.table_names().len() && self.table_names()[j] == name@;
                assert(self.tables@[j].0@ == name@);
            }
        }
        false
    }

    /// Looks at one entry: a system load file is read as CSV with a header
    /// (after a leading `# `), its `%idle[...]` column renamed `%idle`, its
    /// `timestamp` parsed and its `hostname` and `interval` dropped; a second
    /// file for the same table is an error; any other entry is skipped.
    pub fn record_file<T: ContentSource>(&mut self, file: &mut FileInfo<'_, T>) -> (r: Result<(), String>)
        ensures
            final(file).name_view() == old(file).name_view(),
            sadf_source(old(file).name_view()) is None ==> r is Ok && final(self).table_names() == old(self).table_names(),
            r is Err ==> final(self).table_names() == old(self).table_names(),
            sadf_source(old(file).name_view()) matches Some((t, sep)) ==> {
                &&& old(self).table_names().contains(t) ==> r is Err
                &&& r is Ok ==> final(self).table_names() == old(self).table_names().push(t)
            },
    {
        let name = file.name().to_owned();
        let (table, separator) = match sadf_source_of(name.as_str()) {
            Some(v) => v,
            None => {
                return Ok(());
            },
        };
        if self.has(table.as_str()) {
            let mut m = "Duplicate ".to_owned();
            push_str(&mut m, name.as_str());
            push_str(&mut m, " files");
            return Err(m);
        }
        let read = match file.content_bytes() {
            Ok(bytes) => read_csv(strip_header_mark(bytes), true, separator, None),
            Err(_) => {
                return Err("Failed to read the files contents".to_owned());
            },
        };
        let mut df = match read {
            Ok(df) => df,
            Err(_) => {
                let mut m = "Failed to parse ".to_owned();
                push_str(&mut m, name.as_str());
                return Err(m);
            },
        };
        let names = column_names(&df);
        if let Some(i) = idle_column(&names) {
            if rename_column(&mut df, names[i].as_str(), "%idle").is_err() {
                return Err("Failed to rename the idle column".to_owned());
            }
        }
        let df = match parse_timestamps(df, "timestamp", "%Y-%m-%d %H:%M:%S") {
            Ok(df) => df,
            Err(_) => {
                return Err("Failed to parse the timestamps".to_owned());
            },
        };
        let df = drop_columns(&df, &vec!["hostname".to_owned(), "interval".to_owned()]);
        let ghost before = self.table_names();
        let ghost t = table@;
        self.tables.push((table, df));
        assert(self.table_names() =~= before.push(t));
        Ok(())
    }

    /// The tables, each without the columns it leaves out; rows of the
    /// all-cores table for CPU `-1` (the total) are dropped.
    pub fn into_tables(self) -> (r: Result<Vec<(String, DataFrame)>, String>)
        ensures
            r matches Ok(v) ==> names_of(v@) == self.table_names(),
            !self.table_names().contains("cpu_all_cores_sadf"@) ==> r is Ok,
    {
        let ghost orig = self.tables@;
        let mut rest = self.tables;
        let n = rest.len();
        let mut out: Vec<(String, DataFrame)> = Vec::new();
        let mut k: usize = 0;
        while k < n
            invariant
                n == orig.len(),
                orig == self.tables@,
                k <= n,
                rest@ == orig.subrange(k as int, n as int),
                names_of(out@) == names_of(orig.subrange(0, k as int)),
            decreases n - k,
        {
            let (name, df) = rest.remove(0);
            assert(orig[k as int].0 == name);
            let df = drop_columns(&df, &dropped_columns(name.as_str()));
            let df = if str_eq(name.as_str(), "cpu_all_cores_sadf") {
                assert(names_of(orig)[k as int] == name@);
                assert(names_of(orig).contains("cpu_all_cores_sadf"@));
                match drop_rows_equal(df, "CPU", -1) {
                    Ok(df) => df,
                    Err(_) => {
                        return Err("Failed to drop the total CPU rows".to_owned());
                    },
                }
            } else {
                df
            };
            let ghost before = out@;
            let ghost nm = name@;
            out.push((name, df));
            assert(orig.subrange(0, k + 1) =~= orig.subrange(0, k as int).push(orig[k as int]));
            assert(names_of(out@) =~= names_of(before).push(nm));
            assert(names_of(orig.subrange(0, k + 1)) =~= names_of(orig.subrange(0, k as int)).push(orig[k as int].0@));
            k = k + 1;
        }
        assert(orig.subrange(0, n as int) =~= orig);
        Ok(out)
    }
}

impl BenchSuiteCollect for BenchSuiteCollectSystemLoad {
    closed spec fn seen(&self) -> Seq<(Seq<char>, Option<Seq<char>>)> {
        self.seen@
    }

    open spec fn yields(&self) -> bool {
        !self.table_names().contains("cpu_all_cores_sadf"@)
    }

    open spec fn result_names(&self) -> Seq<Seq<char>> {
        self.table_names()
    }

    fn process_file<T: ContentSource>(&mut self, config: &BenchSuiteRun, file: &mut FileInfo<'_, T>) -> (r: Result<(), String>)
        ensures
            final(file).name_view() == old(file).name_view(),
            sadf_source(old(file).name_view()) is None ==> r is Ok && final(self).table_names() == old(self).table_names(),
            r is Err ==> final(self).table_names() == old(self).table_names(),
            sadf_source(old(file).name_view()) matches Some((t, sep)) ==> {
                &&& old(self).table_names().contains(t) ==> r is Err
                &&& r is Ok ==> final(self).table_names() == old(self).table_names().push(t)
            },
    {
        let ghost name = file.name_view();
        let ghost before = self.seen@;
        let r = self.record_file(file);
        self.seen = Ghost(before.push((name, failure_of(r))));
        r
    }

    fn get_result(self, config: &BenchSuiteRun) -> (r: Result<Vec<(String, DataFrame)>, String>) {
        self.into_tables()
    }
}

} // verus!
