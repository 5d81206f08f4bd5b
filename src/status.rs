//! The status collector: the run's own status file and the exit codes of its
//! runner processes, reduced to one status value.
use crate::file_info::FileInfo;
use crate::frame::text_frame;
use crate::lazy_read::ContentSource;
use crate::run::{failure_of, names_of, BenchSuiteCollect};
use crate::run_config::BenchSuiteRun;
use crate::text::{
    decimal, lower_of, lowercase, parse_i32, parse_u32, push_decimal, push_signed_decimal, push_str,
    signed_decimal, signed_value, str_eq, trim, trimmed, unsigned_in_range, unsigned_value,
};
use polars::prelude::DataFrame;
use vstd::prelude::*;
use vstd::string::*;
use vstd::utf8::*;

verus! {

/// The runner that an entry reports the exit code of: `runner<N>.exit`, with
/// `N` a `u32` in decimal.
pub open spec fn runner_number(name: Seq<char>) -> Option<u32> {
    let mid = name.subrange(6, name.len() - 5);
    if name.len() >= 11 && name.subrange(0, 6) == "runner"@ && name.subrange(name.len() - 5, name.len() as int)
        == ".exit"@ && unsigned_in_range(mid, u32::MAX as nat) {
        Some(unsigned_value(mid)->0 as u32)
    } else {
        None
    }
}

/// Some runner exited with a code other than zero.
pub open spec fn has_failure(exits: Seq<(u32, i32)>) -> bool {
    exists|i: int| 0 <= i < exits.len() && (#[trigger] exits[i]).1 != 0
}

/// `e` is the failed runner with the smallest number.
pub open spec fn is_min_failure(exits: Seq<(u32, i32)>, e: (u32, i32)) -> bool {
    &&& exits.contains(e)
    &&& e.1 != 0
    &&& forall|i: int| 0 <= i < exits.len() && (#[trigger] exits[i]).1 != 0 ==> e.0 <= exits[i].0
}

/// No runner number occurs twice.
pub open spec fn runners_distinct(exits: Seq<(u32, i32)>) -> bool {
    forall|i: int, j: int| 0 <= i < j < exits.len() ==> exits[i].0 != exits[j].0
}

/// The status that names a failed runner.
pub open spec fn failure_message(runner: u32, code: i32) -> Seq<char> {
    "runner"@ + decimal(runner as nat) + " exited with code "@ + signed_decimal(code as int)
}

/// The status of a run: a run whose status reads `success` (in any case)
/// but whose runner exited with a code other than zero takes the failure of
/// the runner with the smallest number; otherwise the status stands.
pub open spec fn status_outcome(status: Seq<char>, lower: Seq<char>, exits: Seq<(u32, i32)>) -> Seq<char> {
    if lower == "success"@ && has_failure(exits) {
        let e = choose|e: (u32, i32)| is_min_failure(exits, e);
        failure_message(e.0, e.1)
    } else {
        status
    }
}

/// The status of a run from its status text `status`, the lowercase form
/// `lower` of that text, and its runners' exit codes.
pub fn decide_status(status: &str, lower: &str, exits: &Vec<(u32, i32)>) -> (r: String)
    requires
        runners_distinct(exits@),
    ensures
        r@ == status_outcome(status@, lower@, exits@),
{
    if !str_eq(lower, "success") {
        return status.to_owned();
    }
    let mut best: Option<(u32, i32)> = None;
    let mut i: usize = 0;
    while i < exits.len()
        invariant
            i <= exits@.len(),
            best is None ==> forall|j: int| 0 <= j < i ==> (#[trigger] exits@[j]).1 == 0,
            best matches Some(e) ==> exists|j: int| 0 <= j < i && exits@[j] == e,
            best matches Some(e) ==> e.1 != 0 && forall|j: int| 0 <= j < i && (#[trigger] exits@[j]).1 != 0 ==> e.0 <= exits@[j].0,
        decreases exits.len() - i,
    {
        let (n, c) = exits[i];
        if c != 0 {
            match best {
                Some((bn, _)) => {
                    if n < bn {
                        best = Some((n, c));
                    }
                },
                None => {
                    best = Some((n, c));
                },
            }
        }
        i = i + 1;
    }
    match best {
        Some((n, c)) => {
            proof {
                let e = (n, c);
                let j0 = choose|j: int| 0 <= j < exits@.len() && exits@[j] == e;
                assert(exits@.contains(e));
                assert(is_min_failure(exits@, e));
                assert(has_failure(exits@));
                let e2 = choose|e2: (u32, i32)| is_min_failure(exits@, e2);
                let j2 = choose|j: int| 0 <= j < exits@.len() && exits@[j] == e2;
                assert(e2.0 <= e.0 && e.0 <= e2.0);
                if j0 != j2 {
                    if j0 < j2 {
                        assert(exits@[j0].0 != exits@[j2].0);
                    } else {
                        assert(exits@[j2].0 != exits@[j0].0);
                    }
                }
                assert(e2 == e);
            }
            let mut r = String::new();
            push_str(&mut r, "runner");
            push_decimal(&mut r, n as u64);
            push_str(&mut r, " exited with code ");
            push_signed_decimal(&mut r, c);
            assert(r@ =~= failure_message(n, c));
            r
        },
        None => {
            assert(!has_failure(exits@));
            status.to_owned()
        },
    }
}

/// The runner number of an entry name, if it names a runner's exit file.
pub fn runner_file_number(name: &str) -> (r: Option<u32>)
    ensures
        r == runner_number(name@),
{
    let n = name.unicode_len();
    if n < 11 {
        return None;
    }
    let head = name.substring_char(0, 6);
    let tail = name.substring_char(n - 5, n);
    if str_eq(head, "runner") && str_eq(tail, ".exit") {
        let mid = name.substring_char(6, n - 5);
        parse_u32(mid)
    } else {
        None
    }
}

/// The status collector's state: the status text, once seen, and each
/// runner's exit code.
pub struct BenchSuiteCollectStatus {
    status: Option<String>,
    runner_exits: Vec<(u32, i32)>,
    /// The entries seen so far, each with the failure it gave, if any.
    seen: Ghost<Seq<(Seq<char>, Option<Seq<char>>)>>,
}

/// `exits` with runner `n`'s exit code set to `code`, in place of an earlier
/// one.
fn with_exit(exits: &Vec<(u32, i32)>, n: u32, code: i32) -> (r: Vec<(u32, i32)>)
    requires
        runners_distinct(exits@),
    ensures
        runners_distinct(r@),
        r@.contains((n, code)),
        forall|e: (u32, i32)| #[trigger] r@.contains(e) ==> e == (n, code) || (exits@.contains(e) && e.0 != n),
        forall|e: (u32, i32)| #[trigger] exits@.contains(e) && e.0 != n ==> r@.contains(e),
{
    let mut r: Vec<(u32, i32)> = Vec::new();
    // The position in `exits` of each element of `r`.
    let ghost mut idx: Seq<int> = Seq::empty();
    let mut i: usize = 0;
    while i < exits.len()
        invariant
            i <= exits@.len(),
            runners_distinct(exits@),
            idx.len() == r@.len(),
            forall|j: int| 0 <= j < r@.len() ==> 0 <= #[trigger] idx[j] < i && exits@[idx[j]] == r@[j] && r@[j].0 != n,
            forall|a: int, b: int| 0 <= a < b < idx.len() ==> idx[a] < idx[b],
            forall|k: int| 0 <= k < i && exits@[k].0 != n ==> exists|j: int| 0 <= j < r@.len() && #[trigger] r@[j] == exits@[k],
        decreases exits.len() - i,
    {
        let e = exits[i];
        if e.0 != n {
            let ghost before = r@;
            r.push(e);
            proof {
                idx = idx.push(i as int);
                assert forall|j: int| 0 <= j < r@.len() implies 0 <= #[trigger] idx[j] < i + 1 && exits@[idx[j]] == r@[j] && r@[j].0 != n by {
                    if j < before.len() {
                        assert(r@[j] == before[j]);
                    }
                }
                assert forall|k: int| 0 <= k < i + 1 && exits@[k].0 != n implies exists|j: int| 0 <= j < r@.len() && #[trigger] r@[j] == exits@[k] by {
                    if k < i {
                        let j = choose|j: int| 0 <= j < before.len() && before[j] == exits@[k];
                        assert(r@[j] == before[j]);
                    } else {
                        assert(r@[before.len() as int] == exits@[k]);
                    }
                }
            }
        }
        i = i + 1;
    }
    let ghost before = r@;
    r.push((n, code));
    proof {
        assert(r@[before.len() as int] == (n, code));
        assert forall|e: (u32, i32)| #[trigger] r@.contains(e) implies e == (n, code) || (exits@.contains(e) && e.0 != n) by {
            let j = choose|j: int| 0 <= j < r@.len() && r@[j] == e;
            if j < before.len() {
                assert(before[j] == e);
                assert(exits@[idx[j]] == e);
            }
        }
        assert forall|e: (u32, i32)| #[trigger] exits@.contains(e) && e.0 != n implies r@.contains(e) by {
            let k = choose|k: int| 0 <= k < exits@.len() && exits@[k] == e;
            let j = choose|j: int| 0 <= j < before.len() && #[trigger] before[j] == exits@[k];
            assert(r@[j] == e);
        }
        assert forall|a: int, b: int| 0 <= a < b < r@.len() implies r@[a].0 != r@[b].0 by {
            assert(r@[a] == before[a]);
            if b < before.len() {
                assert(r@[b] == before[b]);
                assert(idx[a] < idx[b]);
                assert(exits@[idx[a]].0 != exits@[idx[b]].0);
            }
        }
    }
    r
}

/// The text that `bytes` encode in UTF-8.
pub open spec fn text_of_bytes(bytes: Seq<u8>, text: Seq<char>) -> bool {
    encode_utf8(text) == bytes
}

/// Content that could not be had as text: not read, or no UTF-8.
pub open spec fn unreadable(read: bool, bytes: Seq<u8>) -> bool {
    !read || !valid_utf8(bytes)
}

/// `t` is the decimal text of an `i32`.
pub open spec fn i32_text(t: Seq<char>) -> bool {
    signed_value(t) is Some && i32::MIN <= signed_value(t)->0 <= i32::MAX
}

impl BenchSuiteCollectStatus {
    pub closed spec fn status_view(&self) -> Option<Seq<char>> {
        match self.status {
            Some(s) => Some(s@),
            None => None,
        }
    }

    pub closed spec fn exits_view(&self) -> Seq<(u32, i32)> {
        self.runner_exits@
    }

    /// Each runner has one exit code.
    #[verifier::type_invariant]
    spec fn runners_once(&self) -> bool {
        runners_distinct(self.runner_exits@)
    }

    /// A collector that has seen nothing yet.
    pub fn new() -> (r: Self)
        ensures
            r.seen().len() == 0,
            r.status_view() is None,
            r.exits_view().len() == 0,
    {
        BenchSuiteCollectStatus { status: None, runner_exits: Vec::new(), seen: Ghost(Seq::empty()) }
    }

    /// Looks at one entry: `status.txt` gives the status (trimmed; a second
    /// one is an error), `runner<N>.exit` gives runner `N`'s exit code
    /// (trimmed decimal text), and any other entry is skipped.
    pub fn record_file<T: ContentSource>(&mut self, file: &mut FileInfo<'_, T>) -> (r: Result<(), String>)
        ensures
            runners_distinct(final(self).exits_view()),
            final(file).name_view() == old(file).name_view(),
            old(file).name_view() == "status.txt"@ && old(self).status_view() is Some ==> (r matches Err(m)
                && m@ == "Duplicate status.txt files"@) && final(self).status_view() == old(self).status_view()
                && final(self).exits_view() == old(self).exits_view()
                && final(file).content_state() == old(file).content_state(),
            old(file).name_view() == "status.txt"@ && r is Ok ==> exists|x: Seq<char>| text_of_bytes(
                final(file).content_state().content_bytes(), x) && final(self).status_view() == Some(trimmed(x))
                && final(self).exits_view() == old(self).exits_view(),
            old(file).name_view() != "status.txt"@ && runner_number(old(file).name_view()) is None ==> r is Ok
                && final(self).status_view() == old(self).status_view() && final(self).exits_view()
                == old(self).exits_view() && final(file).content_state() == old(file).content_state(),
            old(file).name_view() != "status.txt"@ && runner_number(old(file).name_view()) is Some && r is Ok
                ==> exists|x: Seq<char>, c: i32| text_of_bytes(final(file).content_state().content_bytes(), x)
                && signed_value(trimmed(x)) == Some(c as int)
                && final(self).exits_view().contains((runner_number(old(file).name_view())->0, c))
                && final(self).status_view() == old(self).status_view(),
            r is Err ==> final(self).status_view() == old(self).status_view() && final(self).exits_view() == old(self).exits_view(),
            old(file).name_view() == "status.txt"@ && old(self).status_view() is None && r is Err ==> unreadable(
                final(file).content_state().is_read(),
                final(file).content_state().content_bytes(),
            ),
            old(file).name_view() != "status.txt"@ && runner_number(old(file).name_view()) is Some && r is Err
                ==> unreadable(final(file).content_state().is_read(), final(file).content_state().content_bytes())
                || exists|x: Seq<char>| text_of_bytes(final(file).content_state().content_bytes(), x)
                && !i32_text(trimmed(x)),
    {
        proof {
            use_type_invariant(&*self);
        }
        if str_eq(file.name(), "status.txt") {
            if self.status.is_some() {
                return Err("Duplicate status.txt files".to_owned());
            }
            let text = match file.content_string() {
                Ok(t) => t,
                Err(_) => {
                    return Err("Failed to read the files contents".to_owned());
                },
            };
            let ghost x = text@;
            let t = trim(text).to_owned();
            assert(text_of_bytes(file.content_state().content_bytes(), x));
            self.status = Some(t);
            return Ok(());
        }
        let number = runner_file_number(file.name());
        match number {
            Some(n) => {
                let text = match file.content_string() {
                    Ok(t) => t,
                    Err(_) => {
                        return Err("Failed to read the files contents".to_owned());
                    },
                };
                let ghost x = text@;
                let t = trim(text).to_owned();
                assert(text_of_bytes(file.content_state().content_bytes(), x));
                match parse_i32(t.as_str()) {
                    Some(code) => {
                        proof {
                            use_type_invariant(&*self);
                        }
                        let exits = with_exit(&self.runner_exits, n, code);
                        self.runner_exits = exits;
                        assert(self.exits_view().contains((n, code)));
                        Ok(())
                    },
                    None => Err("Failed to parse runner exit code".to_owned()),
                }
            },
            None => Ok(()),
        }
    }

    /// The run's status: the status text, or `unknown` where there was none,
    /// overridden by the first failed runner where it reads `success`.
    pub fn final_status(&self) -> (r: String)
        ensures
            ({
                let s = match self.status_view() {
                    Some(t) => t,
                    None => "unknown"@,
                };
                r@ == status_outcome(s, lower_of(s), self.exits_view())
            }),
    {
        proof {
            use_type_invariant(self);
        }
        let status = match &self.status {
            Some(s) => s.clone(),
            None => "unknown".to_owned(),
        };
        let lower = lowercase(status.as_str());
        decide_status(status.as_str(), lower.as_str(), &self.runner_exits)
    }
}

impl BenchSuiteCollect for BenchSuiteCollectStatus {
    closed spec fn seen(&self) -> Seq<(Seq<char>, Option<Seq<char>>)> {
        self.seen@
    }

    open spec fn yields(&self) -> bool {
        true
    }

    open spec fn result_names(&self) -> Seq<Seq<char>> {
        seq!["status"@]
    }

    fn process_file<T: ContentSource>(&mut self, config: &BenchSuiteRun, file: &mut FileInfo<'_, T>) -> (r: Result<(), String>)
        ensures
            runners_distinct(final(self).exits_view()),
            final(file).name_view() == old(file).name_view(),
            old(file).name_view() == "status.txt"@ && old(self).status_view() is Some ==> (r matches Err(m)
                && m@ == "Duplicate status.txt files"@) && final(self).status_view() == old(self).status_view()
                && final(self).exits_view() == old(self).exits_view()
                && final(file).content_state() == old(file).content_state(),
            old(file).name_view() == "status.txt"@ && r is Ok ==> exists|x: Seq<char>| text_of_bytes(
                final(file).content_state().content_bytes(), x) && final(self).status_view() == Some(trimmed(x))
                && final(self).exits_view() == old(self).exits_view(),
            old(file).name_view() != "status.txt"@ && runner_number(old(file).name_view()) is None ==> r is Ok
                && final(self).status_view() == old(self).status_view() && final(self).exits_view()
                == old(self).exits_view() && final(file).content_state() == old(file).content_state(),
            old(file).name_view() != "status.txt"@ && runner_number(old(file).name_view()) is Some && r is Ok
                ==> exists|x: Seq<char>, c: i32| text_of_bytes(final(file).content_state().content_bytes(), x)
                && signed_value(trimmed(x)) == Some(c as int)
                && final(self).exits_view().contains((runner_number(old(file).name_view())->0, c))
                && final(self).status_view() == old(self).status_view(),
            r is Err ==> final(self).status_view() == old(self).status_view() && final(self).exits_view() == old(self).exits_view(),
            old(file).name_view() == "status.txt"@ && old(self).status_view() is None && r is Err ==> unreadable(
                final(file).content_state().is_read(),
                final(file).content_state().content_bytes(),
            ),
            old(file).name_view() != "status.txt"@ && runner_number(old(file).name_view()) is Some && r is Err
                ==> unreadable(final(file).content_state().is_read(), final(file).content_state().content_bytes())
                || exists|x: Seq<char>| text_of_bytes(final(file).content_state().content_bytes(), x)
                && !i32_text(trimmed(x)),
    {
        let ghost name = file.name_view();
        let ghost before = self.seen@;
        let r = self.record_file(file);
        self.seen = Ghost(before.push((name, failure_of(r))));
        r
    }

    fn get_result(self, config: &BenchSuiteRun) -> (r: Result<Vec<(String, DataFrame)>, String>) {
        let status = self.final_status();
        match text_frame("status", status.as_str()) {
            Ok(df) => {
                let v = vec![("status".to_owned(), df)];
                assert(names_of(v@) =~= seq!["status"@]);
                Ok(v)
            },
            Err(_) => Err("Failed to create status DataFrame".to_owned()),
        }
    }
}

} // verus!
