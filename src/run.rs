//! Assembling the tables of one run: every archive entry goes through every
//! collector; a collector's failure on one entry becomes a diagnostic, not
//! the end of the run; the collectors' tables are merged by name; and a
//! status table records the outcome and every diagnostic.
use crate::file_info::FileInfo;
use crate::frame::{copy_frame, polars_error_text, text_frame, with_text_value, with_u64_value};
use crate::lazy_read::ContentSource;
use crate::router::{fan_out, plan, string_views, TableKey};
use crate::run_config::BenchSuiteRun;
use crate::text::{push_str, str_eq};
use polars::prelude::{DataFrame, PolarsError};
use vstd::prelude::*;

verus! {

/// A per-run extraction unit. It sees every entry of a run's archive once,
/// in archive order, then yields its tables once; it is never reused for
/// another run.
pub trait BenchSuiteCollect: Sized {
    /// The entries seen so far, in order, each with the failure it gave, if
    /// any. A collector keeps this record for its callers' proofs; one that
    /// keeps none cannot meet the contract of `process_file`.
    open spec fn seen(&self) -> Seq<(Seq<char>, Option<Seq<char>>)> {
        Seq::empty()
    }

    /// The names of the tables that the collector yields in its present
    /// state, in order.
    open spec fn result_names(&self) -> Seq<Seq<char>> {
        Seq::empty()
    }

    /// `get_result` is owed success in the present state: nothing outside
    /// the collector can make it fail. A collector that states nothing here
    /// promises nothing.
    open spec fn yields(&self) -> bool {
        false
    }

    /// Looks at one entry; an entry it does not use is no error.
    fn process_file<T: ContentSource>(&mut self, config: &BenchSuiteRun, file: &mut FileInfo<'_, T>) -> (r: Result<(), String>)
        ensures
            final(file).name_view() == old(file).name_view(),
            final(self).seen() == old(self).seen().push((old(file).name_view(), failure_of(r))),
    ;

    /// The named tables gathered over the run.
    fn get_result(self, config: &BenchSuiteRun) -> (r: Result<Vec<(String, DataFrame)>, String>)
        ensures
            self.yields() ==> r is Ok,
            r matches Ok(v) ==> names_of(v@) == self.result_names(),
    ;
}

/// The failure that an outcome carries, if any.
pub open spec fn failure_of(r: Result<(), String>) -> Option<Seq<char>> {
    match r {
        Ok(()) => None,
        Err(m) => Some(m@),
    }
}

/// The diagnostics that the collectors `cs` left, in order, when each last
/// saw the entry at `path`: one for each that failed on it.
pub open spec fn file_issues<C: BenchSuiteCollect>(cs: Seq<C>, path: Seq<char>) -> Seq<Seq<char>>
    decreases cs.len(),
{
    if cs.len() == 0 {
        Seq::empty()
    } else {
        let rest = file_issues(cs.drop_last(), path);
        match cs.last().seen().last().1 {
            Some(m) => rest.push(file_issue(path, m)),
            None => rest,
        }
    }
}

/// `after` is `before` having seen one more entry, named `name`.
pub open spec fn saw<C: BenchSuiteCollect>(before: C, after: C, name: Seq<char>) -> bool {
    &&& after.seen().len() == before.seen().len() + 1
    &&& after.seen().drop_last() == before.seen()
    &&& after.seen().last().0 == name
}

/// No two names of `s` are equal.
pub open spec fn distinct_names(s: Seq<Seq<char>>) -> bool {
    forall|a: int, b: int| 0 <= a < b < s.len() ==> s[a] != s[b]
}

/// What a collector's `get_result` may have returned, by its contract.
pub open spec fn fits<C: BenchSuiteCollect>(c: C, o: Result<Vec<(String, DataFrame)>, String>) -> bool {
    &&& c.yields() ==> o is Ok
    &&& o matches Ok(v) ==> names_of(v@) == c.result_names()
}

/// `outs` are outcomes that the collectors `cs` may have returned, one each,
/// in order.
pub open spec fn gathered<C: BenchSuiteCollect>(cs: Seq<C>, outs: Seq<Result<Vec<(String, DataFrame)>, String>>) -> bool {
    &&& outs.len() == cs.len()
    &&& forall|i: int| 0 <= i < cs.len() ==> fits(#[trigger] cs[i], outs[i])
}

/// Every collector of `cs` is owed success.
pub open spec fn all_yield<C: BenchSuiteCollect>(cs: Seq<C>) -> bool {
    forall|i: int| 0 <= i < cs.len() ==> (#[trigger] cs[i]).yields()
}

/// The names of the tables that the collectors `cs` yield, in order.
pub open spec fn all_result_names<C: BenchSuiteCollect>(cs: Seq<C>) -> Seq<Seq<char>>
    decreases cs.len(),
{
    if cs.len() == 0 {
        Seq::empty()
    } else {
        all_result_names(cs.drop_last()) + cs.last().result_names()
    }
}

/// The names of the tables of the outcomes that succeeded, in order.
pub open spec fn yielded_names(outs: Seq<Result<Vec<(String, DataFrame)>, String>>) -> Seq<Seq<char>>
    decreases outs.len(),
{
    if outs.len() == 0 {
        Seq::empty()
    } else {
        yielded_names(outs.drop_last()) + match outs.last() {
            Ok(v) => names_of(v@),
            Err(_) => Seq::empty(),
        }
    }
}

/// The diagnostics of the outcomes that failed, in order.
pub open spec fn result_issues(outs: Seq<Result<Vec<(String, DataFrame)>, String>>) -> Seq<Seq<char>>
    decreases outs.len(),
{
    if outs.len() == 0 {
        Seq::empty()
    } else {
        match outs.last() {
            Ok(_) => result_issues(outs.drop_last()),
            Err(m) => result_issues(outs.drop_last()).push(result_issue(m@)),
        }
    }
}

/// The names of a run's tables once its status table is settled.
pub open spec fn with_status(names: Seq<Seq<char>>) -> Seq<Seq<char>> {
    if names.contains(status_name()) {
        names
    } else {
        names.push(status_name())
    }
}

/// The diagnostic of a run that had no status file but yielded a status
/// table all the same.
pub open spec fn status_note(status_file_seen: bool, names: Seq<Seq<char>>) -> Seq<Seq<char>> {
    if !status_file_seen && names.contains(status_name()) {
        seq!["no status file"@]
    } else {
        Seq::empty()
    }
}

/// What a run's collection comes to, from its diagnostics so far, whether
/// it saw a status file, and the collectors' outcomes `outs`.
pub open spec fn collected(
    issues: Seq<Seq<char>>,
    status_file_seen: bool,
    outs: Seq<Result<Vec<(String, DataFrame)>, String>>,
    r: Result<RunResults, RunError>,
) -> bool {
    &&& r is Ok <==> distinct_names(yielded_names(outs))
    &&& r matches Err(e) ==> e is RepeatedTableName
    &&& r matches Ok(res) ==> {
        &&& res.wf()
        &&& names_of(res.tables_view()) == yielded_names(outs)
        &&& res.issues_view() == issues + result_issues(outs) + status_note(status_file_seen, yielded_names(outs))
    }
}

/// The outcomes of two runs of collectors, one after the other, yield the
/// names of each in turn.
proof fn lemma_yielded_concat(a: Seq<Result<Vec<(String, DataFrame)>, String>>, b: Seq<Result<Vec<(String, DataFrame)>, String>>)
    ensures
        yielded_names(a + b) == yielded_names(a) + yielded_names(b),
    decreases b.len(),
{
    if b.len() == 0 {
        assert(a + b =~= a);
        assert(yielded_names(a) + yielded_names(b) =~= yielded_names(a));
    } else {
        lemma_yielded_concat(a, b.drop_last());
        assert((a + b).drop_last() =~= a + b.drop_last());
        assert((a + b).last() == b.last());
        let t = match b.last() {
            Ok(v) => names_of(v@),
            Err(_) => Seq::<Seq<char>>::empty(),
        };
        assert(yielded_names(a + b) == yielded_names(a + b.drop_last()) + t);
        assert(yielded_names(a) + yielded_names(b) =~= yielded_names(a) + yielded_names(b.drop_last()) + t);
    }
}

/// Where every collector is owed success, the outcomes yield every
/// collector's names and no diagnostic.
proof fn lemma_all_yield<C: BenchSuiteCollect>(cs: Seq<C>, outs: Seq<Result<Vec<(String, DataFrame)>, String>>)
    requires
        gathered(cs, outs),
        all_yield(cs),
    ensures
        yielded_names(outs) == all_result_names(cs),
        result_issues(outs) == Seq::<Seq<char>>::empty(),
    decreases cs.len(),
{
    if cs.len() > 0 {
        let n = cs.len() - 1;
        assert forall|i: int| 0 <= i < cs.drop_last().len() implies fits(#[trigger] cs.drop_last()[i], outs.drop_last()[i]) by {
            assert(fits(cs[i], outs[i]));
        }
        assert forall|i: int| 0 <= i < cs.drop_last().len() implies (#[trigger] cs.drop_last()[i]).yields() by {
            assert(cs[i].yields());
        }
        lemma_all_yield(cs.drop_last(), outs.drop_last());
        assert(fits(cs[n], outs[n]));
        assert(cs[n].yields());
        assert(cs.last() == cs[n] && outs.last() == outs[n]);
    }
}


/// The name of the status table.
pub open spec fn status_name() -> Seq<char> {
    "status"@
}

/// The names of a sequence of named tables.
pub open spec fn names_of(tables: Seq<(String, DataFrame)>) -> Seq<Seq<char>> {
    tables.map_values(|t: (String, DataFrame)| t.0@)
}

/// The diagnostic of a collector that failed on an entry.
pub open spec fn file_issue(path: Seq<char>, message: Seq<char>) -> Seq<char> {
    "process_file("@ + path + "): "@ + message
}

/// The diagnostic of a collector that failed to yield its tables.
pub open spec fn result_issue(message: Seq<char>) -> Seq<char> {
    "get_result: "@ + message
}

/// The diagnostics joined by `"; "`.
pub open spec fn joined_issues(issues: Seq<Seq<char>>) -> Seq<char>
    decreases issues.len(),
{
    if issues.len() == 0 {
        Seq::empty()
    } else if issues.len() == 1 {
        issues[0]
    } else {
        joined_issues(issues.drop_last()) + "; "@ + issues.last()
    }
}

/// The parse status of a run: nothing when there is no diagnostic, else the
/// diagnostics joined.
pub open spec fn parse_status_of(issues: Seq<Seq<char>>) -> Option<Seq<char>> {
    if issues.len() == 0 {
        None
    } else {
        Some(joined_issues(issues))
    }
}

/// No two of the tables share a name.
pub open spec fn names_distinct(v: Seq<(String, DataFrame)>) -> bool {
    forall|i: int, j: int| 0 <= i < j < v.len() ==> v[i].0@ != v[j].0@
}

/// None of the tables `v` has the name of one of `held`.
pub open spec fn all_fresh(held: Seq<(String, DataFrame)>, v: Seq<(String, DataFrame)>) -> bool {
    forall|i: int| 0 <= i < v.len() ==> !names_of(held).contains(#[trigger] v[i].0@)
}

/// Each diagnostic past those of `before` is about the entry at `path`.
pub open spec fn only_file_issues(before: Seq<Seq<char>>, after: Seq<Seq<char>>, path: Seq<char>) -> bool {
    forall|i: int| before.len() <= i < after.len() ==> exists|m: Seq<char>| #[trigger] after[i] == file_issue(path, m)
}

/// The texts of a sequence of strings.
pub open spec fn views(v: Seq<String>) -> Seq<Seq<char>> {
    v.map_values(|s: String| s@)
}

/// Why a run yields no table set of its own.
#[derive(Debug)]
pub enum RunError {
    /// Two collectors yielded a table of the same name.
    RepeatedTableName,
    /// The table engine failed.
    Polars(PolarsError),
}

impl RunError {
    /// The text recorded for the failure.
    pub fn message(&self) -> (r: String)
        ensures
            self is RepeatedTableName ==> r@ == "Repeated the table name "@,
    {
        match self {
            RunError::RepeatedTableName => "Repeated the table name ".to_owned(),
            RunError::Polars(e) => polars_error_text(e),
        }
    }
}

/// The parse status of a run: `None` without diagnostics, else the
/// diagnostics joined by `"; "`.
pub fn parse_status_text(issues: &Vec<String>) -> (r: Option<String>)
    ensures
        match parse_status_of(views(issues@)) {
            Some(t) => r matches Some(s) && s@ == t,
            None => r is None,
        },
{
    if issues.len() == 0 {
        return None;
    }
    let mut s = issues[0].clone();
    let mut i: usize = 1;
    while i < issues.len()
        invariant
            1 <= i <= issues@.len(),
            s@ == joined_issues(views(issues@.subrange(0, i as int))),
        decreases issues.len() - i,
    {
        proof {
            let a = views(issues@.subrange(0, i + 1));
            assert(a.drop_last() =~= views(issues@.subrange(0, i as int)));
            assert(a.last() == issues@[i as int]@);
        }
        push_str(&mut s, "; ");
        push_str(&mut s, issues[i].as_str());
        i = i + 1;
    }
    proof {
        assert(issues@.subrange(0, issues@.len() as int) =~= issues@);
        let one = views(issues@.subrange(0, 1));
        assert(one.len() == 1);
    }
    Some(s)
}

/// The tables and diagnostics of a run while its collectors work.
pub struct RunResults {
    tables: Vec<(String, DataFrame)>,
    issues: Vec<String>,
}

impl RunResults {
    pub closed spec fn tables_view(&self) -> Seq<(String, DataFrame)> {
        self.tables@
    }

    /// The diagnostics so far, in order.
    pub closed spec fn issues_view(&self) -> Seq<Seq<char>> {
        views(self.issues@)
    }

    /// No two tables share a name.
    pub open spec fn wf(&self) -> bool {
        forall|i: int, j: int| 0 <= i < j < self.tables_view().len() ==> self.tables_view()[i].0@
            != self.tables_view()[j].0@
    }

    pub fn new() -> (r: Self)
        ensures
            r.tables_view().len() == 0,
            r.issues_view().len() == 0,
            r.wf(),
    {
        RunResults { tables: Vec::new(), issues: Vec::new() }
    }

    /// Records that a collector failed on the entry at `path`.
    pub fn record_file_issue(&mut self, path: &str, message: &str)
        ensures
            final(self).tables_view() == old(self).tables_view(),
            final(self).issues_view() == old(self).issues_view().push(file_issue(path@, message@)),
    {
        let mut s = String::new();
        push_str(&mut s, "process_file(");
        push_str(&mut s, path);
        push_str(&mut s, "): ");
        push_str(&mut s, message);
        self.issues.push(s);
        proof {
            assert(s@ =~= file_issue(path@, message@));
            assert(views(self.issues@) =~= views(old(self).issues@).push(s@));
        }
    }

    fn push_issue(&mut self, text: String)
        ensures
            final(self).tables_view() == old(self).tables_view(),
            final(self).issues_view() == old(self).issues_view().push(text@),
    {
        self.issues.push(text);
        assert(views(self.issues@) =~= views(old(self).issues@).push(text@));
    }

    /// Whether a table of this name is held.
    pub fn has_table(&self, name: &str) -> (r: bool)
        ensures
            r == names_of(self.tables_view()).contains(name@),
    {
        let mut i: usize = 0;
        while i < self.tables.len()
            invariant
                i <= self.tables@.len(),
                forall|j: int| 0 <= j < i ==> self.tables@[j].0@ != name@,
            decreases self.tables.len() - i,
        {
            if str_eq(self.tables[i].0.as_str(), name) {
                assert(names_of(self.tables@)[i as int] == name@);
                return true;
            }
            i = i + 1;
        }
        assert(!names_of(self.tables@).contains(name@)) by {
            if names_of(self.tables@).contains(name@) {
                let j = choose|j: int| 0 <= j < self.tables@.len() && names_of(self.tables@)[j] == name@;
                assert(self.tables@[j].0@ == name@);
            }
        }
        false
    }

    /// Takes in what a collector yielded. Its tables join the run's, and a
    /// name the run already holds is an error for the whole run; its failure
    /// becomes a diagnostic.
    pub fn record_result(&mut self, result: Result<Vec<(String, DataFrame)>, String>) -> (r: Result<(), RunError>)
        requires
            old(self).wf(),
        ensures
            final(self).wf(),
            result is Ok ==> final(self).issues_view() == old(self).issues_view(),
            result matches Ok(v) ==> (r is Ok <==> names_distinct(v@) && all_fresh(old(self).tables_view(), v@)),
            result matches Ok(v) ==> (r is Ok ==> final(self).tables_view() == old(self).tables_view() + v@),
            r matches Err(e) ==> e is RepeatedTableName,
            result matches Err(m) ==> {
                &&& r is Ok
                &&& final(self).tables_view() == old(self).tables_view()
                &&& final(self).issues_view() == old(self).issues_view().push(result_issue(m@))
            },
    {
        match result {
            Ok(v) => {
                let ghost vv = v@;
                let mut rest = v;
                let n = rest.len();
                let mut k: usize = 0;
                while k < n
                    invariant
                        result matches Ok(v0) && v0@ == vv,
                        n == vv.len(),
                        k <= n,
                        rest@ == vv.subrange(k as int, n as int),
                        self.wf(),
                        self.tables_view() == old(self).tables_view() + vv.subrange(0, k as int),
                        self.issues_view() == old(self).issues_view(),
                        forall|i: int, j: int| 0 <= i < j < k ==> vv[i].0@ != vv[j].0@,
                        forall|i: int| 0 <= i < k ==> !names_of(old(self).tables_view()).contains(#[trigger] vv[i].0@),
                    decreases n - k,
                {
                    let (name, df) = rest.remove(0);
                    assert(vv[k as int] == (name, df));
                    if self.has_table(name.as_str()) {
                        proof {
                            let j = choose|j: int| 0 <= j < self.tables@.len() && names_of(self.tables@)[j] == name@;
                            if j >= old(self).tables@.len() {
                                let i = j - old(self).tables@.len();
                                assert(self.tables@[j] == vv[i]);
                                assert(vv[i].0@ == vv[k as int].0@);
                                assert(!names_distinct(vv));
                            } else {
                                assert(self.tables@[j] == old(self).tables@[j]);
                                assert(names_of(old(self).tables@)[j] == name@);
                                assert(names_of(old(self).tables_view()).contains(vv[k as int].0@));
                                assert(!all_fresh(old(self).tables_view(), vv));
                            }
                        }
                        return Err(RunError::RepeatedTableName);
                    }
                    let ghost before = self.tables@;
                    self.tables.push((name, df));
                    proof {
                        assert(self.tables@ =~= old(self).tables_view() + vv.subrange(0, k + 1));
                        assert forall|i: int, j: int| 0 <= i < j < self.tables@.len() implies self.tables@[i].0@
                            != self.tables@[j].0@ by {
                            if j == before.len() {
                                assert(names_of(before)[i] == before[i].0@);
                            }
                        }
                        assert forall|i: int| 0 <= i < k + 1 implies !names_of(old(self).tables_view()).contains(
                            #[trigger] vv[i].0@,
                        ) by {
                            if i == k {
                                if names_of(old(self).tables_view()).contains(vv[i].0@) {
                                    let j = choose|j: int| 0 <= j < old(self).tables@.len() && names_of(old(self).tables@)[j] == vv[i].0@;
                                    assert(before[j] == old(self).tables@[j]);
                                    assert(names_of(before)[j] == vv[i].0@);
                                }
                            }
                        }
                        assert forall|i: int, j: int| 0 <= i < j < k + 1 implies vv[i].0@ != vv[j].0@ by {
                            if j == k {
                                let m = old(self).tables@.len() + i;
                                assert(before[m] == vv[i]);
                                assert(names_of(before)[m] == vv[i].0@);
                            }
                        }
                    }
                    k = k + 1;
                }
                assert(vv.subrange(0, n as int) =~= vv);
                Ok(())
            },
            Err(m) => {
                let mut s = String::new();
                push_str(&mut s, "get_result: ");
                push_str(&mut s, m.as_str());
                assert(s@ =~= result_issue(m@));
                self.push_issue(s);
                Ok(())
            },
        }
    }
}

impl RunResults {
    /// Takes in the outcomes of a run's collectors, in order (see
    /// `record_result`): a name repeated among the held and yielded tables
    /// is an error for the whole run.
    pub fn record_results(&mut self, outs: Vec<Result<Vec<(String, DataFrame)>, String>>) -> (r: Result<(), RunError>)
        requires
            old(self).wf(),
        ensures
            final(self).wf(),
            r is Ok <==> distinct_names(names_of(old(self).tables_view()) + yielded_names(outs@)),
            r is Ok ==> names_of(final(self).tables_view()) == names_of(old(self).tables_view()) + yielded_names(outs@),
            r is Ok ==> final(self).issues_view() == old(self).issues_view() + result_issues(outs@),
            r matches Err(e) ==> e is RepeatedTableName,
    {
        let ghost all = outs@;
        let ghost start = names_of(self.tables_view());
        let mut rest = outs;
        let n = rest.len();
        let mut k: usize = 0;
        while k < n
            invariant
                n == all.len(),
                all == outs@,
                k <= n,
                rest@ == all.subrange(k as int, n as int),
                start == names_of(old(self).tables_view()),
                self.wf(),
                names_of(self.tables_view()) == start + yielded_names(all.subrange(0, k as int)),
                self.issues_view() == old(self).issues_view() + result_issues(all.subrange(0, k as int)),
            decreases n - k,
        {
            let o = rest.remove(0);
            assert(all[k as int] == o);
            let ghost pre = all.subrange(0, k as int);
            let ghost cur = all.subrange(0, k + 1);
            assert(cur.drop_last() =~= pre);
            assert(cur.last() == o);
            assert(rest@ =~= all.subrange(k + 1, n as int));
            let ghost held = self.tables_view();
            let ghost go = o;
            match self.record_result(o) {
                Ok(()) => {},
                Err(e) => {
                    proof {
                        let v = go->Ok_0@;
                        let whole = names_of(held) + names_of(v);
                        assert(yielded_names(cur) == yielded_names(pre) + names_of(v));
                        assert(all =~= cur + all.subrange(k + 1, n as int));
                        lemma_yielded_concat(cur, all.subrange(k + 1, n as int));
                        let total = start + yielded_names(all);
                        assert(total =~= whole + yielded_names(all.subrange(k + 1, n as int)));
                        if !names_distinct(v) {
                            let (a, b) = choose|a: int, b: int| 0 <= a < b < v.len() && v[a].0@ == v[b].0@;
                            assert(total[held.len() + a] == names_of(v)[a]);
                            assert(total[held.len() + b] == names_of(v)[b]);
                        } else {
                            let a = choose|a: int| 0 <= a < v.len() && !all_fresh(held, v) && names_of(held).contains(#[trigger] v[a].0@);
                            let t = choose|t: int| 0 <= t < held.len() && names_of(held)[t] == v[a].0@;
                            assert(total[t] == names_of(held)[t]);
                            assert(total[held.len() + a] == names_of(v)[a]);
                        }
                        assert(!distinct_names(total));
                    }
                    return Err(e);
                },
            }
            proof {
                match go {
                    Ok(v) => {
                        assert(names_of(self.tables_view()) =~= names_of(held) + names_of(v@));
                        assert(yielded_names(cur) == yielded_names(pre) + names_of(v@));
                        assert(result_issues(cur) == result_issues(pre));
                        assert(names_of(self.tables_view()) =~= start + yielded_names(cur));
                    },
                    Err(m) => {
                        assert(yielded_names(cur) =~= yielded_names(pre));
                        assert(result_issues(cur) == result_issues(pre).push(result_issue(m@)));
                        assert(self.issues_view() =~= old(self).issues_view() + result_issues(cur));
                    },
                }
            }
            k = k + 1;
        }
        proof {
            assert(all.subrange(0, n as int) =~= all);
            let t = names_of(self.tables_view());
            assert forall|a: int, b: int| 0 <= a < b < t.len() implies t[a] != t[b] by {
                assert(t[a] == self.tables_view()[a].0@);
                assert(t[b] == self.tables_view()[b].0@);
            }
        }
        Ok(())
    }
}

impl RunResults {
    /// Makes sure the run has a status table: where no collector yielded one,
    /// a placeholder stands in and a diagnostic says so.
    pub fn settle_status(&mut self) -> (r: Result<(), RunError>)
        requires
            old(self).wf(),
        ensures
            final(self).wf(),
            r is Ok,
            names_of(final(self).tables_view()).contains(status_name()),
            names_of(old(self).tables_view()).contains(status_name()) ==> *final(self) == *old(self),
            !names_of(old(self).tables_view()).contains(status_name()) ==> {
                &&& names_of(final(self).tables_view()) == names_of(old(self).tables_view()).push(status_name())
                &&& final(self).issues_view() == old(self).issues_view().push("no status file"@)
            },
    {
        if self.has_table("status") {
            return Ok(());
        }
        let df = match text_frame("status", "failed no status") {
            Ok(df) => df,
            Err(e) => {
                return Err(RunError::Polars(e));
            },
        };
        self.push_issue("no status file".to_owned());
        let ghost before = self.tables@;
        self.tables.push(("status".to_owned(), df));
        proof {
            assert(names_of(self.tables@) =~= names_of(before).push(status_name()));
            assert(names_of(self.tables@)[before.len() as int] == status_name());
            assert forall|i: int, j: int| 0 <= i < j < self.tables@.len() implies self.tables@[i].0@
                != self.tables@[j].0@ by {
                if j == before.len() {
                    assert(names_of(before)[i] == before[i].0@);
                }
            }
        }
        Ok(())
    }

    /// The run's tables: the status table, supplied if missing, gets the
    /// column `parse_status` with the run's parse status (see
    /// `parse_status_text`).
    pub fn finish(self) -> (r: Result<Vec<(String, DataFrame)>, RunError>)
        requires
            self.wf(),
        ensures
            r matches Ok(v) && names_of(v@) == with_status(names_of(self.tables_view())),
            r matches Ok(v) ==> names_distinct(v@),
    {
        let ghost target = if names_of(self.tables_view()).contains(status_name()) {
            names_of(self.tables_view())
        } else {
            names_of(self.tables_view()).push(status_name())
        };
        let mut this = self;
        match this.settle_status() {
            Ok(()) => {},
            Err(e) => {
                return Err(e);
            },
        }
        let status = parse_status_text(&this.issues);
        let ghost names = names_of(this.tables@);
        let mut i: usize = 0;
        while i < this.tables.len()
            invariant
                this.wf(),
                names == names_of(this.tables@),
                names == target,
                target == if names_of(self.tables_view()).contains(status_name()) {
                    names_of(self.tables_view())
                } else {
                    names_of(self.tables_view()).push(status_name())
                },
                i <= this.tables@.len(),
                names.contains(status_name()),
                forall|j: int| 0 <= j < i ==> this.tables@[j].0@ != status_name(),
            decreases this.tables.len() - i,
        {
            if str_eq(this.tables[i].0.as_str(), "status") {
                let ghost old_tables = this.tables@;
                let ghost old_wf_tables = this.tables_view();
                assert(forall|a: int, b: int| 0 <= a < b < old_wf_tables.len() ==> old_wf_tables[a].0@ != old_wf_tables[b].0@);
                let (name, mut df) = this.tables.remove(i);
                match with_text_value(&mut df, "parse_status", status) {
                    Ok(()) => {},
                    Err(e) => {
                        return Err(RunError::Polars(e));
                    },
                }
                this.tables.insert(i, (name, df));
                assert(names_of(this.tables@) =~= names);
                assert forall|a: int, b: int| 0 <= a < b < this.tables@.len() implies this.tables@[a].0@
                    != this.tables@[b].0@ by {
                    assert(names[a] == old_tables[a].0@);
                    assert(names[b] == old_tables[b].0@);
                    assert(old_tables.len() == this.tables@.len());
                    assert(old_tables == old_wf_tables);
                    assert(old_tables[a].0@ != old_tables[b].0@);
                    assert(names_of(this.tables@)[a] == this.tables@[a].0@);
                    assert(names_of(this.tables@)[b] == this.tables@[b].0@);
                }
                return Ok(this.tables);
            }
            i = i + 1;
        }
        proof {
            let j = choose|j: int| 0 <= j < names.len() && names[j] == status_name();
            assert(this.tables@[j].0@ == status_name());
        }
        Ok(this.tables)
    }
}

/// The tables of a run that failed as a whole: a status table whose
/// `parse_status` holds the failure.
pub fn failed_run_tables(message: &str) -> (r: Result<Vec<(String, DataFrame)>, PolarsError>)
    ensures
        r matches Ok(v) && names_of(v@) == seq![status_name()],
{
    let mut df = text_frame("status", "failed no status")?;
    with_text_value(&mut df, "parse_status", Some(message.to_owned()))?;
    let v = vec![("status".to_owned(), df)];
    assert(names_of(v@) =~= seq![status_name()]);
    Ok(v)
}

/// Adds the column `id`, holding the run's id, to each of its tables.
pub fn with_run_id(id: u64, tables: Vec<(String, DataFrame)>) -> (r: Result<Vec<(String, DataFrame)>, PolarsError>)
    ensures
        r matches Ok(v) && names_of(v@) == names_of(tables@),
{
    let ghost orig = tables@;
    let mut rest = tables;
    let mut out: Vec<(String, DataFrame)> = Vec::new();
    let n = rest.len();
    let mut k: usize = 0;
    while k < n
        invariant
            n == orig.len(),
            k <= n,
            rest@ == orig.subrange(k as int, n as int),
            names_of(out@) == names_of(orig.subrange(0, k as int)),
        decreases n - k,
    {
        let (name, mut df) = rest.remove(0);
        assert(orig[k as int].0 == name);
        with_u64_value(&mut df, "id", id)?;
        let ghost before = out@;
        let ghost nm = name@;
        out.push((name, df));
        assert(orig.subrange(0, k + 1) =~= orig.subrange(0, k as int).push(orig[k as int]));
        assert(names_of(out@) =~= names_of(before).push(nm));
        assert(names_of(orig.subrange(0, k + 1)) =~= names_of(orig.subrange(0, k as int)).push(orig[k as int].0@));
        k = k + 1;
    }
    assert(orig.subrange(0, n as int) =~= orig);
    Ok(out)
}

/// The collectors of one run and what they have yielded so far.
pub struct RunProcessor<C> {
    collectors: Vec<C>,
    results: RunResults,
    status_file_seen: bool,
}

impl<C: BenchSuiteCollect> RunProcessor<C> {
    /// The collectors, in order.
    pub closed spec fn collectors_view(&self) -> Seq<C> {
        self.collectors@
    }

    pub closed spec fn results_view(&self) -> RunResults {
        self.results
    }

    /// Whether an entry named `status.txt` has been seen.
    pub closed spec fn status_file_seen_view(&self) -> bool {
        self.status_file_seen
    }

    /// No table is held before the collectors yield theirs.
    pub open spec fn wf(&self) -> bool {
        &&& self.results_view().wf()
        &&& self.results_view().tables_view().len() == 0
    }

    /// A run about to be processed by fresh collectors.
    pub fn new(collectors: Vec<C>) -> (r: Self)
        ensures
            r.collectors_view() == collectors@,
            r.results_view().issues_view().len() == 0,
            !r.status_file_seen_view(),
            r.wf(),
    {
        RunProcessor { collectors, results: RunResults::new(), status_file_seen: false }
    }

    /// Hands one archive entry to every collector in turn. A collector that
    /// fails on it leaves a diagnostic naming the entry, and the others still
    /// see it.
    pub fn process_file<T: ContentSource>(&mut self, config: &BenchSuiteRun, path: &str, file: &mut FileInfo<'_, T>)
        requires
            old(self).wf(),
        ensures
            final(self).wf(),
            final(file).name_view() == old(file).name_view(),
            final(self).collectors_view().len() == old(self).collectors_view().len(),
            forall|i: int| 0 <= i < old(self).collectors_view().len() ==> saw(
                old(self).collectors_view()[i],
                #[trigger] final(self).collectors_view()[i],
                old(file).name_view(),
            ),
            final(self).results_view().issues_view() == old(self).results_view().issues_view() + file_issues(
                final(self).collectors_view(),
                path@,
            ),
            final(self).status_file_seen_view() == (old(self).status_file_seen_view() || old(file).name_view()
                == "status.txt"@),
    {
        if str_eq(file.name(), "status.txt") {
            self.status_file_seen = true;
        }
        let ghost name = file.name_view();
        let ghost cs = self.collectors@;
        let ghost seen_status = self.status_file_seen;
        let mut rest: Vec<C> = Vec::new();
        std::mem::swap(&mut self.collectors, &mut rest);
        let n = rest.len();
        let ghost start = self.results.issues_view();
        let mut k: usize = 0;
        while k < n
            invariant
                k <= n,
                n == cs.len(),
                rest@ == cs.subrange(k as int, n as int),
                self.collectors@.len() == k,
                forall|i: int| 0 <= i < k ==> saw(cs[i], #[trigger] self.collectors@[i], name),
                file.name_view() == name,
                self.status_file_seen == seen_status,
                self.results.wf(),
                self.results.tables_view().len() == 0,
                self.results.issues_view() == start + file_issues(self.collectors@, path@),
            decreases n - k,
        {
            let mut c = rest.remove(0);
            assert(c == cs[k as int]);
            let ghost done = self.collectors@;
            let outcome = c.process_file(config, file);
            if let Err(message) = &outcome {
                self.results.record_file_issue(path, message.as_str());
            }
            self.collectors.push(c);
            proof {
                assert(self.collectors@.drop_last() =~= done);
                assert(self.collectors@.last() == c);
                assert(c.seen().last().1 == failure_of(outcome));
                assert(rest@ =~= cs.subrange(k + 1, n as int));
                assert forall|i: int| 0 <= i < k + 1 implies saw(cs[i], #[trigger] self.collectors@[i], name) by {
                    if i < k {
                        assert(self.collectors@[i] == done[i]);
                    } else {
                        assert(c.seen().drop_last() =~= cs[i].seen());
                    }
                }
                if let Err(message) = outcome {
                    assert(self.results.issues_view() =~= start + file_issues(self.collectors@, path@));
                } else {
                    assert(self.results.issues_view() =~= start + file_issues(self.collectors@, path@));
                }
            }
            k = k + 1;
        }
        proof {
            assert(start + file_issues(self.collectors@, path@) == self.results.issues_view());
        }
    }

    /// Takes each collector's tables, in order, and merges them (see
    /// `RunResults::record_results`): a table name that two tables yielded
    /// share fails the whole run; a collector that fails leaves a
    /// diagnostic. Where no entry was named `status.txt` and a status table
    /// was yielded all the same, a diagnostic says that the status file was
    /// missing.
    pub fn collect(self, config: &BenchSuiteRun) -> (r: Result<RunResults, RunError>)
        requires
            self.wf(),
        ensures
            exists|outs: Seq<Result<Vec<(String, DataFrame)>, String>>| #[trigger] gathered(self.collectors_view(), outs)
                && collected(self.results_view().issues_view(), self.status_file_seen_view(), outs, r),
            all_yield(self.collectors_view()) ==> {
                &&& r is Ok <==> distinct_names(all_result_names(self.collectors_view()))
                &&& r matches Ok(res) ==> names_of(res.tables_view()) == all_result_names(self.collectors_view())
                    && res.issues_view() == self.results_view().issues_view() + status_note(
                    self.status_file_seen_view(),
                    all_result_names(self.collectors_view()),
                )
            },
    {
        let ghost cs = self.collectors_view();
        let ghost issues0 = self.results_view().issues_view();
        let ghost seen0 = self.status_file_seen_view();
        let RunProcessor { collectors, results, status_file_seen } = self;
        assert(collectors@ == cs);
        let mut results = results;
        let mut rest = collectors;
        let n = rest.len();
        let mut outs: Vec<Result<Vec<(String, DataFrame)>, String>> = Vec::new();
        let mut k: usize = 0;
        while k < n
            invariant
                k <= n,
                n == cs.len(),
                rest@ == cs.subrange(k as int, n as int),
                outs@.len() == k,
                forall|i: int| 0 <= i < k ==> fits(#[trigger] cs[i], outs@[i]),
            decreases n - k,
        {
            let c = rest.remove(0);
            assert(c == cs[k as int]);
            assert(rest@ =~= cs.subrange(k + 1, n as int));
            let o = c.get_result(config);
            outs.push(o);
            assert(fits(cs[k as int], outs@[k as int]));
            k = k + 1;
        }
        let ghost all = outs@;
        assert(gathered(cs, all));
        let ghost held = names_of(results.tables_view());
        assert(held =~= Seq::<Seq<char>>::empty());
        assert(held + yielded_names(all) =~= yielded_names(all));
        match results.record_results(outs) {
            Ok(()) => {},
            Err(e) => {
                proof {
                    if all_yield(cs) {
                        lemma_all_yield(cs, all);
                    }
                }
                return Err(e);
            },
        }
        let ghost names = names_of(results.tables_view());
        assert(names == yielded_names(all));
        if !status_file_seen && results.has_table("status") {
            results.push_issue("no status file".to_owned());
        }
        proof {
            assert(results.issues_view() =~= issues0 + result_issues(all) + status_note(seen0, yielded_names(all)));
            if all_yield(cs) {
                lemma_all_yield(cs, all);
                assert(issues0 + result_issues(all) =~= issues0);
            }
        }
        Ok(results)
    }

    /// Ends the run (see `collect`); the status table is then settled and
    /// annotated (see `RunResults::finish`).
    pub fn finish(self, config: &BenchSuiteRun) -> (r: Result<Vec<(String, DataFrame)>, RunError>)
        requires
            self.wf(),
        ensures
            exists|outs: Seq<Result<Vec<(String, DataFrame)>, String>>| #[trigger] gathered(self.collectors_view(), outs) && {
                &&& r is Ok <==> distinct_names(yielded_names(outs))
                &&& r matches Ok(v) ==> names_of(v@) == with_status(yielded_names(outs)) && names_distinct(v@)
                &&& r matches Err(e) ==> e is RepeatedTableName
            },
            all_yield(self.collectors_view()) ==> (r is Ok <==> distinct_names(all_result_names(self.collectors_view()))),
            all_yield(self.collectors_view()) ==> (r matches Ok(v) ==> names_of(v@) == with_status(
                all_result_names(self.collectors_view()),
            )),
            self.collectors_view().len() == 0 ==> (r matches Ok(v) && names_of(v@) == seq![status_name()]),
    {
        let ghost cs = self.collectors_view();
        let ghost issues0 = self.results_view().issues_view();
        let ghost seen0 = self.status_file_seen_view();
        let r0 = self.collect(config);
        let ghost outs = choose|outs: Seq<Result<Vec<(String, DataFrame)>, String>>| #[trigger] gathered(cs, outs)
            && collected(issues0, seen0, outs, r0);
        proof {
            if all_yield(cs) {
                lemma_all_yield(cs, outs);
            }
            if cs.len() == 0 {
                assert(all_yield(cs));
                assert(all_result_names(cs) =~= Seq::<Seq<char>>::empty());
                assert(with_status(Seq::<Seq<char>>::empty()) =~= seq![status_name()]);
            }
        }
        let results = match r0 {
            Ok(res) => res,
            Err(e) => {
                return Err(e);
            },
        };
        results.finish()
    }
}

/// What a list of submissions routes: each key as text, with the position
/// of the table it carries.
pub open spec fn submissions_view(r: Seq<(TableKey, usize, DataFrame)>) -> Seq<((Seq<char>, Seq<char>), nat)> {
    r.map_values(|e: (TableKey, usize, DataFrame)| (e.0@, e.1 as nat))
}

/// The submissions of a run: its tables, each with the run's `id` column,
/// to every one of its partitions (see `router::plan`); each submission
/// carries the position of its table in `tables` and a copy of it.
pub fn run_submissions(id: u64, partitions: &Vec<String>, tables: Vec<(String, DataFrame)>) -> (r: Result<Vec<(TableKey, usize, DataFrame)>, PolarsError>)
    ensures
        r matches Ok(v) && submissions_view(v@) == plan(string_views(partitions@), names_of(tables@)),
        r matches Ok(v) ==> forall|a: int, b: int|
            0 <= a < v@.len() && 0 <= b < v@.len() && #[trigger] v@[a].1 == #[trigger] v@[b].1 ==> v@[a].2 == v@[b].2,
{
    let tables = with_run_id(id, tables)?;
    let mut names: Vec<String> = Vec::new();
    let mut i: usize = 0;
    while i < tables.len()
        invariant
            i <= tables@.len(),
            names@.len() == i,
            forall|j: int| 0 <= j < i ==> names@[j] == tables@[j].0,
        decreases tables.len() - i,
    {
        names.push(tables[i].0.clone());
        i = i + 1;
    }
    assert(string_views(names@) =~= names_of(tables@));
    let routes = fan_out(partitions, &names);
    proof {
        crate::router::lemma_fan_out(string_views(partitions@), string_views(names@));
        let pl = plan(string_views(partitions@), string_views(names@));
        assert forall|k: int| 0 <= k < routes@.len() implies (#[trigger] routes@[k]).1 < tables@.len() by {
            assert(crate::router::routes_view(routes@)[k] == (routes@[k].0@, routes@[k].1 as nat));
            assert(pl[k].1 < names@.len());
        }
    }
    let mut out: Vec<(TableKey, usize, DataFrame)> = Vec::new();
    let mut k: usize = 0;
    while k < routes.len()
        invariant
            k <= routes@.len(),
            names@.len() == tables@.len(),
            routes_ok(routes@, tables@.len()),
            submissions_view(out@) == crate::router::routes_view(routes@.subrange(0, k as int)),
            forall|a: int| 0 <= a < out@.len() ==> (#[trigger] out@[a]).1 < tables@.len() && out@[a].2 == tables@[out@[a].1 as int].1,
        decreases routes.len() - k,
    {
        let key = TableKey::new(routes[k].0.partition.clone(), routes[k].0.table.clone());
        let t = routes[k].1;
        let copy = copy_frame(&tables[t].1);
        let ghost before = out@;
        let ghost kv = key@;
        out.push((key, t, copy));
        assert(kv == routes@[k as int].0@);
        assert(submissions_view(out@) =~= submissions_view(before).push((kv, t as nat)));
        assert(routes@.subrange(0, k + 1) =~= routes@.subrange(0, k as int).push(routes@[k as int]));
        assert(crate::router::routes_view(routes@.subrange(0, k + 1)) =~= crate::router::routes_view(
            routes@.subrange(0, k as int),
        ).push((routes@[k as int].0@, routes@[k as int].1 as nat)));
        k = k + 1;
    }
    assert(routes@.subrange(0, routes@.len() as int) =~= routes@);
    Ok(out)
}

/// Every route names a table position below `n`.
pub open spec fn routes_ok(routes: Seq<(TableKey, usize)>, n: nat) -> bool {
    forall|k: int| 0 <= k < routes.len() ==> (#[trigger] routes[k]).1 < n
}

} // verus!
