//! The Java threads collector: each thread id in `jvm0.txt` with its name and
//! type. A thread that is only seen attaching is recorded as `unknown`.
use crate::file_info::FileInfo;
use crate::frame::{frame_of, ColumnValues};
use crate::lazy_read::ContentSource;
use crate::pattern::{captures, captures_view, compile, group, group_of};
use crate::run::{failure_of, names_of, BenchSuiteCollect};
use crate::run_config::BenchSuiteRun;
use crate::text::{parse_u64, str_eq, unsigned_in_range, unsigned_value};
use polars::prelude::DataFrame;
use vstd::prelude::*;

verus! {

/// A log line that reports a created thread: its id, name and type.
pub const THREAD_CREATED_PATTERN: &'static str =
    "\\[[^\\]]*\\]\\[[^\\]]*\\]\\[[^\\]]*\\] Thread created tid: ([0-9]*), name:\"([^\"]*)\", thread_type:\"([^\"]*)\"";

/// A log line that reports an attached thread: its id.
pub const THREAD_ATTACHED_PATTERN: &'static str =
    "\\[[^\\]]*\\]\\[[^\\]]*\\]\\[[^\\]]*\\] Thread attached \\(tid: ([0-9]+)\\s*,";

/// A thread: its id, name and type.
pub type ThreadRow = (u64, Seq<char>, Seq<char>);

/// No thread id occurs twice.
pub open spec fn tids_unique(m: Seq<ThreadRow>) -> bool {
    forall|i: int, j: int| 0 <= i < j < m.len() ==> m[i].0 != m[j].0
}

/// The thread `row` recorded in `m`, in place of one with the same id.
pub open spec fn upsert(m: Seq<ThreadRow>, row: ThreadRow) -> Seq<ThreadRow> {
    if exists|i: int| 0 <= i < m.len() && m[i].0 == row.0 {
        let i = choose|i: int| 0 <= i < m.len() && m[i].0 == row.0;
        m.update(i, row)
    } else {
        m.push(row)
    }
}

/// Thread `tid` recorded as `unknown` in `m`, unless `m` has it.
pub open spec fn add_unknown(m: Seq<ThreadRow>, tid: u64) -> Seq<ThreadRow> {
    if exists|i: int| 0 <= i < m.len() && m[i].0 == tid {
        m
    } else {
        m.push((tid, "unknown"@, "unknown"@))
    }
}

/// The thread a "created" match reports, if its id reads as a `u64`.
pub open spec fn created_row(c: Seq<Option<Seq<char>>>) -> Option<ThreadRow> {
    match (group(c, 1), group(c, 2), group(c, 3)) {
        (Some(t), Some(n), Some(k)) => if unsigned_in_range(t, u64::MAX as nat) {
            Some((unsigned_value(t)->0 as u64, n, k))
        } else {
            None
        },
        _ => None,
    }
}

/// The thread id an "attached" match reports, if it reads as a `u64`.
pub open spec fn attached_tid(c: Seq<Option<Seq<char>>>) -> Option<u64> {
    match group(c, 1) {
        Some(t) => if unsigned_in_range(t, u64::MAX as nat) {
            Some(unsigned_value(t)->0 as u64)
        } else {
            None
        },
        None => None,
    }
}

/// The threads after the "created" matches `caps`, in order; `None` where one
/// of them is malformed.
pub open spec fn apply_created(m: Seq<ThreadRow>, caps: Seq<Seq<Option<Seq<char>>>>) -> Option<Seq<ThreadRow>>
    decreases caps.len(),
{
    if caps.len() == 0 {
        Some(m)
    } else {
        match apply_created(m, caps.drop_last()) {
            Some(m1) => match created_row(caps.last()) {
                Some(row) => Some(upsert(m1, row)),
                None => None,
            },
            None => None,
        }
    }
}

/// The threads after the "attached" matches `caps`, in order; `None` where
/// one of them is malformed.
pub open spec fn apply_attached(m: Seq<ThreadRow>, caps: Seq<Seq<Option<Seq<char>>>>) -> Option<Seq<ThreadRow>>
    decreases caps.len(),
{
    if caps.len() == 0 {
        Some(m)
    } else {
        match apply_attached(m, caps.drop_last()) {
            Some(m1) => match attached_tid(caps.last()) {
                Some(tid) => Some(add_unknown(m1, tid)),
                None => None,
            },
            None => None,
        }
    }
}

/// The threads of a log: every created thread (a later report of an id
/// replaces an earlier one), then every attached thread not yet known.
pub open spec fn thread_rows(created: Seq<Seq<Option<Seq<char>>>>, attached: Seq<Seq<Option<Seq<char>>>>) -> Option<Seq<ThreadRow>> {
    match apply_created(Seq::empty(), created) {
        Some(m) => apply_attached(m, attached),
        None => None,
    }
}

/// What a list of threads says.
pub open spec fn rows_view(r: Seq<(u64, String, String)>) -> Seq<ThreadRow> {
    r.map_values(|e: (u64, String, String)| (e.0, e.1@, e.2@))
}

fn position_of(r: &Vec<(u64, String, String)>, tid: u64) -> (p: Option<usize>)
    ensures
        p matches Some(i) ==> i < r@.len() && r@[i as int].0 == tid,
        p is None ==> forall|i: int| 0 <= i < r@.len() ==> r@[i].0 != tid,
{
    let mut i: usize = 0;
    while i < r.len()
        invariant
            i <= r@.len(),
            forall|j: int| 0 <= j < i ==> r@[j].0 != tid,
        decreases r.len() - i,
    {
        if r[i].0 == tid {
            return Some(i);
        }
        i = i + 1;
    }
    None
}

fn upsert_row(r: &mut Vec<(u64, String, String)>, row: (u64, String, String))
    requires
        tids_unique(rows_view(old(r)@)),
    ensures
        tids_unique(rows_view(final(r)@)),
        rows_view(final(r)@) == upsert(rows_view(old(r)@), (row.0, row.1@, row.2@)),
{
    let ghost m = rows_view(r@);
    let ghost v = (row.0, row.1@, row.2@);
    match position_of(r, row.0) {
        Some(i) => {
            proof {
                assert(m[i as int].0 == row.0);
                let c = choose|c: int| 0 <= c < m.len() && m[c].0 == row.0;
                assert(c == i as int);
            }
            r.set(i, row);
            assert(rows_view(r@) =~= m.update(i as int, v));
        },
        None => {
            assert forall|i: int| 0 <= i < m.len() implies m[i].0 != row.0 by {
                assert(m[i].0 == r@[i].0);
            }
            r.push(row);
            assert(rows_view(r@) =~= m.push(v));
        },
    }
}

fn add_unknown_row(r: &mut Vec<(u64, String, String)>, tid: u64)
    requires
        tids_unique(rows_view(old(r)@)),
    ensures
        tids_unique(rows_view(final(r)@)),
        rows_view(final(r)@) == add_unknown(rows_view(old(r)@), tid),
{
    let ghost m = rows_view(r@);
    match position_of(r, tid) {
        Some(i) => {
            assert(m[i as int].0 == tid);
        },
        None => {
            assert forall|i: int| 0 <= i < m.len() implies m[i].0 != tid by {
                assert(m[i].0 == r@[i].0);
            }
            r.push((tid, "unknown".to_owned(), "unknown".to_owned()));
            assert(rows_view(r@) =~= m.push((tid, "unknown"@, "unknown"@)));
        },
    }
}

/// The threads of a log from its "created" and "attached" matches; an error
/// where a match is malformed.
pub fn thread_rows_of(created: &Vec<Vec<Option<String>>>, attached: &Vec<Vec<Option<String>>>) -> (r: Result<Vec<(u64, String, String)>, String>)
    ensures
        match thread_rows(captures_view(created@), captures_view(attached@)) {
            Some(rows) => r matches Ok(v) && rows_view(v@) == rows,
            None => r is Err,
        },
{
    let mut r: Vec<(u64, String, String)> = Vec::new();
    let mut i: usize = 0;
    assert(rows_view(r@) =~= Seq::<ThreadRow>::empty());
    while i < created.len()
        invariant
            i <= created@.len(),
            tids_unique(rows_view(r@)),
            apply_created(Seq::empty(), captures_view(created@.subrange(0, i as int))) == Some(rows_view(r@)),
        decreases created.len() - i,
    {
        let ghost cv = captures_view(created@.subrange(0, i + 1));
        proof {
            assert(cv.drop_last() =~= captures_view(created@.subrange(0, i as int)));
            assert(cv.last() == captures_view(seq![created@[i as int]])[0]);
        }
        let c = &created[i];
        let tid = match group_of(c, 1) {
            Some(t) => match parse_u64(t.as_str()) {
                Some(v) => v,
                None => {
                    proof { lemma_created_stays_none(captures_view(created@), i as int + 1); }
                    assert(created@.subrange(0, created@.len() as int) =~= created@);
                    return Err("Failed to parse tid".to_owned());
                },
            },
            None => {
                proof { lemma_created_stays_none(captures_view(created@), i as int + 1); }
                assert(created@.subrange(0, created@.len() as int) =~= created@);
                return Err("Missing tid".to_owned());
            },
        };
        let name = match group_of(c, 2) {
            Some(n) => n.clone(),
            None => {
                proof { lemma_created_stays_none(captures_view(created@), i as int + 1); }
                assert(created@.subrange(0, created@.len() as int) =~= created@);
                return Err("Missing thread name".to_owned());
            },
        };
        let kind = match group_of(c, 3) {
            Some(k) => k.clone(),
            None => {
                proof { lemma_created_stays_none(captures_view(created@), i as int + 1); }
                assert(created@.subrange(0, created@.len() as int) =~= created@);
                return Err("Missing thread type".to_owned());
            },
        };
        upsert_row(&mut r, (tid, name, kind));
        i = i + 1;
    }
    assert(created@.subrange(0, created@.len() as int) =~= created@);
    let ghost base = rows_view(r@);
    let mut j: usize = 0;
    while j < attached.len()
        invariant
            j <= attached@.len(),
            tids_unique(rows_view(r@)),
            apply_created(Seq::empty(), captures_view(created@)) == Some(base),
            apply_attached(base, captures_view(attached@.subrange(0, j as int))) == Some(rows_view(r@)),
        decreases attached.len() - j,
    {
        let ghost av = captures_view(attached@.subrange(0, j + 1));
        proof {
            assert(av.drop_last() =~= captures_view(attached@.subrange(0, j as int)));
            assert(av.last() == captures_view(seq![attached@[j as int]])[0]);
        }
        let tid = match group_of(&attached[j], 1) {
            Some(t) => match parse_u64(t.as_str()) {
                Some(v) => v,
                None => {
                    proof { lemma_attached_stays_none(base, captures_view(attached@), j as int + 1); }
                    assert(attached@.subrange(0, attached@.len() as int) =~= attached@);
                    return Err("Failed to parse tid".to_owned());
                },
            },
            None => {
                proof { lemma_attached_stays_none(base, captures_view(attached@), j as int + 1); }
                assert(attached@.subrange(0, attached@.len() as int) =~= attached@);
                return Err("Missing tid".to_owned());
            },
        };
        add_unknown_row(&mut r, tid);
        j = j + 1;
    }
    assert(attached@.subrange(0, attached@.len() as int) =~= attached@);
    Ok(r)
}

/// A malformed "created" match leaves the whole log without threads.
proof fn lemma_created_stays_none(caps: Seq<Seq<Option<Seq<char>>>>, k: int)
    requires
        0 < k <= caps.len(),
        apply_created(Seq::empty(), caps.subrange(0, k)) is None,
    ensures
        apply_created(Seq::empty(), caps) is None,
    decreases caps.len() - k,
{
    if k < caps.len() {
        assert(caps.subrange(0, k + 1).drop_last() =~= caps.subrange(0, k));
        lemma_created_stays_none(caps, k + 1);
    } else {
        assert(caps.subrange(0, k) =~= caps);
    }
}

/// A malformed "attached" match leaves the whole log without threads.
proof fn lemma_attached_stays_none(m: Seq<ThreadRow>, caps: Seq<Seq<Option<Seq<char>>>>, k: int)
    requires
        0 < k <= caps.len(),
        apply_attached(m, caps.subrange(0, k)) is None,
    ensures
        apply_attached(m, caps) is None,
    decreases caps.len() - k,
{
    if k < caps.len() {
        assert(caps.subrange(0, k + 1).drop_last() =~= caps.subrange(0, k));
        lemma_attached_stays_none(m, caps, k + 1);
    } else {
        assert(caps.subrange(0, k) =~= caps);
    }
}

/// The three columns of a list of threads.
fn thread_columns(rows: Vec<(u64, String, String)>) -> (r: (Vec<u64>, Vec<String>, Vec<String>))
    ensures
        r.0@.len() == rows@.len() && r.1@.len() == rows@.len() && r.2@.len() == rows@.len(),
        forall|i: int| 0 <= i < rows@.len() ==> r.0@[i] == rows@[i].0 && r.1@[i] == rows@[i].1 && r.2@[i] == rows@[i].2,
{
    let ghost orig = rows@;
    let mut rest = rows;
    let n = rest.len();
    let mut pids: Vec<u64> = Vec::new();
    let mut names: Vec<String> = Vec::new();
    let mut kinds: Vec<String> = Vec::new();
    let mut k: usize = 0;
    while k < n
        invariant
            n == orig.len(),
            k <= n,
            rest@ == orig.subrange(k as int, n as int),
            pids@.len() == k && names@.len() == k && kinds@.len() == k,
            forall|i: int| 0 <= i < k ==> pids@[i] == orig[i].0 && names@[i] == orig[i].1 && kinds@[i] == orig[i].2,
        decreases n - k,
    {
        let (p, nm, kd) = rest.remove(0);
        assert(orig[k as int] == (p, nm, kd));
        pids.push(p);
        names.push(nm);
        kinds.push(kd);
        k = k + 1;
    }
    (pids, names, kinds)
}

/// The Java threads collector's state: the table, once read.
pub struct BenchSuiteCollectJavaThreads {
    threads_df: Option<DataFrame>,
    /// The entries seen so far, each with the failure it gave, if any.
    seen: Ghost<Seq<(Seq<char>, Option<Seq<char>>)>>,
}

impl BenchSuiteCollectJavaThreads {
    /// Whether the table has been read.
    pub closed spec fn has_table(&self) -> bool {
        self.threads_df is Some
    }

    /// The table, once read.
    pub closed spec fn table_view(&self) -> Option<DataFrame> {
        self.threads_df
    }

    pub fn new() -> (r: Self)
        ensures
            r.seen().len() == 0,
            !r.has_table(),
    {
        BenchSuiteCollectJavaThreads { threads_df: None, seen: Ghost(Seq::empty()) }
    }

    /// Looks at one entry: `jvm0.txt` gives the table of threads (a second one
    /// is an error); any other entry is skipped.
    pub fn record_file<T: ContentSource>(&mut self, file: &mut FileInfo<'_, T>) -> (r: Result<(), String>)
        ensures
            final(file).name_view() == old(file).name_view(),
            old(file).name_view() != "jvm0.txt"@ ==> r is Ok && final(self).table_view() == old(self).table_view()
                && final(file).content_state() == old(file).content_state(),
            old(file).name_view() == "jvm0.txt"@ && old(self).has_table() ==> (r matches Err(m)
                && m@ == "Duplicate jvm0.txt files"@) && final(self).table_view() == old(self).table_view()
                && final(file).content_state() == old(file).content_state(),
            r is Ok ==> (final(self).has_table() <==> old(self).has_table() || old(file).name_view() == "jvm0.txt"@),
            r is Err ==> final(self).table_view() == old(self).table_view(),
    {
        if !str_eq(file.name(), "jvm0.txt") {
            return Ok(());
        }
        if self.threads_df.is_some() {
            return Err("Duplicate jvm0.txt files".to_owned());
        }
        let (created_re, attached_re) = match (compile(THREAD_CREATED_PATTERN), compile(THREAD_ATTACHED_PATTERN)) {
            (Some(c), Some(a)) => (c, a),
            _ => {
                return Err("Failed to compile the thread patterns".to_owned());
            },
        };
        let (created, attached) = match file.content_string() {
            Ok(text) => (captures(&created_re, text), captures(&attached_re, text)),
            Err(_) => {
                return Err("Failed to read the files contents".to_owned());
            },
        };
        let rows = thread_rows_of(&created, &attached)?;
        let (pids, names, kinds) = thread_columns(rows);
        let columns = vec![
            ("pid".to_owned(), ColumnValues::U64(pids)),
            ("thread_name".to_owned(), ColumnValues::Text(names)),
            ("thread_type".to_owned(), ColumnValues::Text(kinds)),
        ];
        match frame_of(columns) {
            Ok(df) => {
                self.threads_df = Some(df);
                Ok(())
            },
            Err(_) => Err("Failed to create threads DataFrame".to_owned()),
        }
    }

    /// The table `java_threads`, if the run had the log.
    pub fn into_tables(self) -> (r: Vec<(String, DataFrame)>)
        ensures
            self.has_table() ==> r@.len() == 1 && r@[0].0@ == "java_threads"@,
            !self.has_table() ==> r@.len() == 0,
    {
        let mut r: Vec<(String, DataFrame)> = Vec::new();
        if let Some(df) = self.threads_df {
            r.push(("java_threads".to_owned(), df));
        }
        r
    }
}

impl BenchSuiteCollect for BenchSuiteCollectJavaThreads {
    closed spec fn seen(&self) -> Seq<(Seq<char>, Option<Seq<char>>)> {
        self.seen@
    }

    open spec fn yields(&self) -> bool {
        true
    }

    open spec fn result_names(&self) -> Seq<Seq<char>> {
        if self.has_table() {
            seq!["java_threads"@]
        } else {
            Seq::empty()
        }
    }

    fn process_file<T: ContentSource>(&mut self, config: &BenchSuiteRun, file: &mut FileInfo<'_, T>) -> (r: Result<(), String>)
        ensures
            final(file).name_view() == old(file).name_view(),
            old(file).name_view() != "jvm0.txt"@ ==> r is Ok && final(self).table_view() == old(self).table_view()
                && final(file).content_state() == old(file).content_state(),
            old(file).name_view() == "jvm0.txt"@ && old(self).has_table() ==> (r matches Err(m)
                && m@ == "Duplicate jvm0.txt files"@) && final(self).table_view() == old(self).table_view()
                && final(file).content_state() == old(file).content_state(),
            r is Ok ==> (final(self).has_table() <==> old(self).has_table() || old(file).name_view() == "jvm0.txt"@),
            r is Err ==> final(self).table_view() == old(self).table_view(),
    {
        let ghost name = file.name_view();
        let ghost before = self.seen@;
        let r = self.record_file(file);
        self.seen = Ghost(before.push((name, failure_of(r))));
        r
    }

    fn get_result(self, config: &BenchSuiteRun) -> (r: Result<Vec<(String, DataFrame)>, String>) {
        let ghost names = self.result_names();
        let v = self.into_tables();
        proof {
            if v@.len() == 1 {
                assert(names_of(v@) =~= names);
            } else {
                assert(names_of(v@) =~= names);
            }
        }
        Ok(v)
    }
}

} // verus!
