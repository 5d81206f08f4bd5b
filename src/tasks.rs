//! The task set: the runs on record, the collections (output partitions)
//! with their filters, and which runs go to which partitions.
use crate::run_config::{BenchSuiteConfig, BenchSuiteRun};
use crate::text::{hex_padded, join, join_path, parse_u64, push_hex_padded, push_str, str_eq, unsigned_in_range, unsigned_value};
use vstd::prelude::*;

verus! {

/// The texts of a sequence of strings.
pub open spec fn texts(v: Seq<String>) -> Seq<Seq<char>> {
    v.map_values(|s: String| s@)
}

/// The partitions that collect `run`: the names of the collections whose
/// filter admits it, in collection order, each name once.
pub open spec fn partitions(cols: Seq<(String, BenchSuiteConfig)>, run: BenchSuiteRun) -> Seq<Seq<char>>
    decreases cols.len(),
{
    if cols.len() == 0 {
        Seq::empty()
    } else {
        let p = partitions(cols.drop_last(), run);
        let name = cols.last().0@;
        if cols.last().1.admits(&run) && !p.contains(name) {
            p.push(name)
        } else {
            p
        }
    }
}

/// The positions of the runs that at least one partition collects, in order.
pub open spec fn selected(runs: Seq<(u64, BenchSuiteRun)>, cols: Seq<(String, BenchSuiteConfig)>) -> Seq<int>
    decreases runs.len(),
{
    if runs.len() == 0 {
        Seq::empty()
    } else {
        let s = selected(runs.drop_last(), cols);
        if partitions(cols, runs.last().1).len() > 0 {
            s.push(runs.len() - 1)
        } else {
            s
        }
    }
}

/// The archive of run `id` under the task location:
/// `<location>/runs/<id as 16 uppercase hex digits>.tar.xz`.
pub open spec fn tar_path(location: Seq<char>, id: u64) -> Seq<char> {
    join_path(join_path(location, "runs"@), hex_padded(id as nat, 16) + ".tar.xz"@)
}

/// No two runs share an id.
pub open spec fn ids_unique(runs: Seq<(u64, BenchSuiteRun)>) -> bool {
    forall|i: int, j: int| 0 <= i < j < runs.len() ==> runs[i].0 != runs[j].0
}

/// The id that a decimal key names.
pub open spec fn key_id(key: Seq<char>) -> nat {
    unsigned_value(key)->0
}

/// Some run has the id `id`.
pub open spec fn has_id(runs: Seq<(u64, BenchSuiteRun)>, id: nat) -> bool {
    exists|m: int| 0 <= m < runs.len() && runs[m].0 as nat == id
}

/// `e` is the id and run of the last of the first `k` keyed runs whose key
/// names that id.
pub open spec fn last_of_id(runs: Seq<(String, BenchSuiteRun)>, k: int, e: (u64, BenchSuiteRun)) -> bool {
    exists|i: int| 0 <= i < k && key_id(runs[i].0@) == e.0 as nat && e.1 == runs[i].1
        && forall|i2: int| i < i2 < k ==> key_id(#[trigger] runs[i2].0@) != e.0 as nat
}

/// No two collections share a name.
pub open spec fn names_unique(cols: Seq<(String, BenchSuiteConfig)>) -> bool {
    forall|i: int, j: int| 0 <= i < j < cols.len() ==> cols[i].0@ != cols[j].0@
}

/// Some collection is named `n`.
pub open spec fn has_name(cols: Seq<(String, BenchSuiteConfig)>, n: Seq<char>) -> bool {
    exists|m: int| 0 <= m < cols.len() && cols[m].0@ == n
}

/// `e` is the last of the first `k` collections with its name.
pub open spec fn last_of_name(cols: Seq<(String, BenchSuiteConfig)>, k: int, e: (String, BenchSuiteConfig)) -> bool {
    exists|i: int| 0 <= i < k && cols[i] == e && forall|i2: int| i < i2 < k ==> (#[trigger] cols[i2]).0@ != e.0@
}

/// The collections with one per name, the last of each; a new name keeps
/// the place where it first came.
pub fn one_per_name(cols: Vec<(String, BenchSuiteConfig)>) -> (r: Vec<(String, BenchSuiteConfig)>)
    ensures
        names_unique(r@),
        forall|i: int| 0 <= i < cols@.len() ==> has_name(r@, #[trigger] cols@[i].0@),
        forall|j: int| 0 <= j < r@.len() ==> last_of_name(cols@, cols@.len() as int, #[trigger] r@[j]),
{
    let ghost orig = cols@;
    let mut rest = cols;
    let n = rest.len();
    let mut out: Vec<(String, BenchSuiteConfig)> = Vec::new();
    let mut k: usize = 0;
    while k < n
        invariant
            n == orig.len(),
            k <= n,
            rest@ == orig.subrange(k as int, n as int),
            names_unique(out@),
            forall|i: int| 0 <= i < k ==> has_name(out@, #[trigger] orig[i].0@),
            forall|j: int| 0 <= j < out@.len() ==> last_of_name(orig, k as int, #[trigger] out@[j]),
        decreases n - k,
    {
        let (name, c) = rest.remove(0);
        assert(orig[k as int] == (name, c));
        let ghost before = out@;
        let mut j: usize = 0;
        while j < out.len() && !str_eq(out[j].0.as_str(), name.as_str())
            invariant
                j <= out@.len(),
                forall|m: int| 0 <= m < j ==> out@[m].0@ != name@,
            decreases out.len() - j,
        {
            j = j + 1;
        }
        if j < out.len() {
            out.set(j, (name, c));
        } else {
            out.push((name, c));
        }
        proof {
            let e = orig[k as int];
            assert(out@[j as int] == e);
            assert forall|a: int, b: int| 0 <= a < b < out@.len() implies out@[a].0@ != out@[b].0@ by {
                if a != j && b != j {
                    assert(out@[a] == before[a] && out@[b] == before[b]);
                } else if a == j {
                    assert(out@[b] == before[b]);
                } else {
                    assert(out@[a] == before[a]);
                }
            }
            assert forall|i: int| 0 <= i < k + 1 implies has_name(out@, #[trigger] orig[i].0@) by {
                if i < k {
                    let m = choose|m: int| 0 <= m < before.len() && before[m].0@ == orig[i].0@;
                    if m == j {
                        assert(out@[m].0@ == e.0@);
                    } else {
                        assert(out@[m] == before[m]);
                    }
                } else {
                    assert(out@[j as int].0@ == orig[i].0@);
                }
            }
            assert forall|m: int| 0 <= m < out@.len() implies last_of_name(orig, k + 1, #[trigger] out@[m]) by {
                if m == j {
                    assert(0 <= k < k + 1 && orig[k as int] == out@[m]);
                } else {
                    assert(out@[m] == before[m]);
                    assert(last_of_name(orig, k as int, before[m]));
                    let i = choose|i: int| 0 <= i < k && orig[i] == before[m] && forall|i2: int| i < i2 < k ==> (#[trigger] orig[i2]).0@ != before[m].0@;
                    assert(before[m].0@ != e.0@);
                    assert forall|i2: int| i < i2 < k + 1 implies (#[trigger] orig[i2]).0@ != out@[m].0@ by {
                        if i2 == k {
                            assert(orig[i2].0@ == e.0@);
                        }
                    }
                }
            }
        }
        k = k + 1;
    }
    out
}

/// A run id on record that is no unsigned 64-bit decimal number.
#[derive(Debug)]
pub struct InvalidRunId {
    pub key: String,
}

/// The runs on record, the collections to fill and where they live.
pub struct BenchSuiteTasks {
    runs: Vec<(u64, BenchSuiteRun)>,
    collections: Vec<(String, BenchSuiteConfig)>,
    location: String,
}

impl BenchSuiteTasks {
    /// Each run id is on record once.
    #[verifier::type_invariant]
    spec fn ids_once(&self) -> bool {
        ids_unique(self.runs@) && names_unique(self.collections@)
    }

    pub closed spec fn runs_view(&self) -> Seq<(u64, BenchSuiteRun)> {
        self.runs@
    }

    pub closed spec fn collections_view(&self) -> Seq<(String, BenchSuiteConfig)> {
        self.collections@
    }

    pub closed spec fn location_view(&self) -> Seq<char> {
        self.location@
    }

    /// The task set of `location` with its collections and its runs, each
    /// keyed by its id as decimal text. Keys of the same id give one run, the
    /// last of them. A key that is no `u64` is an error that names the first
    /// such key.
    pub fn from_parts(
        location: String,
        collections: Vec<(String, BenchSuiteConfig)>,
        runs: Vec<(String, BenchSuiteRun)>,
    ) -> (r: Result<Self, InvalidRunId>)
        ensures
            r is Ok <==> forall|i: int|
                0 <= i < runs@.len() ==> unsigned_in_range(#[trigger] runs@[i].0@, u64::MAX as nat),
            r matches Err(e) ==> exists|i: int|
                0 <= i < runs@.len() && !unsigned_in_range(#[trigger] runs@[i].0@, u64::MAX as nat)
                    && e.key@ == runs@[i].0@,
            r matches Ok(t) ==> {
                &&& t.location_view() == location@
                &&& names_unique(t.collections_view())
                &&& forall|i: int| 0 <= i < collections@.len() ==> has_name(t.collections_view(), #[trigger] collections@[i].0@)
                &&& forall|j: int| 0 <= j < t.collections_view().len() ==> last_of_name(collections@, collections@.len() as int, #[trigger] t.collections_view()[j])
                &&& ids_unique(t.runs_view())
                &&& forall|i: int| 0 <= i < runs@.len() ==> has_id(t.runs_view(), #[trigger] key_id(runs@[i].0@))
                &&& forall|j: int| 0 <= j < t.runs_view().len() ==> last_of_id(runs@, runs@.len() as int, #[trigger] t.runs_view()[j])
            },
    {
        let mut out: Vec<(u64, BenchSuiteRun)> = Vec::new();
        let ghost orig = runs@;
        let mut rest = runs;
        let n = rest.len();
        let mut k: usize = 0;
        while k < n
            invariant
                n == orig.len(),
                orig == runs@,
                k <= n,
                rest@ == orig.subrange(k as int, n as int),
                ids_unique(out@),
                forall|i: int| 0 <= i < k ==> unsigned_in_range(#[trigger] orig[i].0@, u64::MAX as nat),
                forall|i: int| 0 <= i < k ==> has_id(out@, #[trigger] key_id(orig[i].0@)),
                forall|j: int| 0 <= j < out@.len() ==> last_of_id(orig, k as int, #[trigger] out@[j]),
            decreases n - k,
        {
            let (key, run) = rest.remove(0);
            assert(orig[k as int] == (key, run));
            match parse_u64(key.as_str()) {
                Some(id) => {
                    let ghost before = out@;
                    let mut j: usize = 0;
                    while j < out.len() && out[j].0 != id
                        invariant
                            j <= out@.len(),
                            forall|m: int| 0 <= m < j ==> out@[m].0 != id,
                        decreases out.len() - j,
                    {
                        j = j + 1;
                    }
                    if j < out.len() {
                        out.set(j, (id, run));
                    } else {
                        out.push((id, run));
                    }
                    proof {
                        assert(key_id(orig[k as int].0@) == id as nat);
                        assert(out@[j as int] == (id, orig[k as int].1));
                        assert forall|a: int, b: int| 0 <= a < b < out@.len() implies out@[a].0 != out@[b].0 by {
                            if a != j && b != j {
                                assert(out@[a] == before[a] && out@[b] == before[b]);
                            } else if a == j {
                                assert(out@[b] == before[b]);
                            } else {
                                assert(out@[a] == before[a]);
                            }
                        }
                        assert forall|i: int| 0 <= i < k + 1 implies has_id(out@, #[trigger] key_id(orig[i].0@)) by {
                            if i < k {
                                let m = choose|m: int| 0 <= m < before.len() && before[m].0 as nat == key_id(orig[i].0@);
                                if m == j {
                                    assert(out@[m].0 == id);
                                } else {
                                    assert(out@[m] == before[m]);
                                }
                            } else {
                                assert(out@[j as int].0 as nat == key_id(orig[i].0@));
                            }
                        }
                        assert forall|m: int| 0 <= m < out@.len() implies last_of_id(orig, k + 1, #[trigger] out@[m]) by {
                            if m == j {
                                assert(last_of_id(orig, k + 1, out@[m]) ) by {
                                    assert(0 <= k < k + 1 && key_id(orig[k as int].0@) == out@[m].0 as nat
                                        && out@[m].1 == orig[k as int].1);
                                }
                            } else {
                                assert(out@[m] == before[m]);
                                assert(last_of_id(orig, k as int, before[m]));
                                let i = choose|i: int| 0 <= i < k && key_id(orig[i].0@) == before[m].0 as nat
                                    && before[m].1 == orig[i].1 && forall|i2: int| i < i2 < k ==> key_id(#[trigger] orig[i2].0@) != before[m].0 as nat;
                                assert(before[m].0 != id);
                                assert forall|i2: int| i < i2 < k + 1 implies key_id(#[trigger] orig[i2].0@) != out@[m].0 as nat by {
                                    if i2 == k {
                                        assert(key_id(orig[i2].0@) == id as nat);
                                    }
                                }
                            }
                        }
                    }
                },
                None => {
                    assert(!unsigned_in_range(orig[k as int].0@, u64::MAX as nat));
                    return Err(InvalidRunId { key });
                },
            }
            k = k + 1;
        }
        let collections = one_per_name(collections);
        Ok(BenchSuiteTasks { runs: out, collections, location })
    }

    /// The names of the collections.
    pub fn collection_names(&self) -> (r: Vec<String>)
        ensures
            r@.len() == self.collections_view().len(),
            forall|i: int| 0 <= i < r@.len() ==> r@[i] == self.collections_view()[i].0,
            forall|i: int, j: int| 0 <= i < j < r@.len() ==> r@[i]@ != r@[j]@,
    {
        proof {
            use_type_invariant(self);
        }
        let mut r: Vec<String> = Vec::new();
        let mut i: usize = 0;
        while i < self.collections.len()
            invariant
                i <= self.collections@.len(),
                r@.len() == i,
                forall|m: int| 0 <= m < i ==> r@[m] == self.collections@[m].0,
            decreases self.collections.len() - i,
        {
            r.push(self.collections[i].0.clone());
            i = i + 1;
        }
        r
    }

    /// The directory that holds the runs and the collections.
    pub fn get_path(&self) -> (r: &str)
        ensures
            r@ == self.location_view(),
    {
        self.location.as_str()
    }

    /// The archive of run `id`.
    pub fn tar_file_path(&self, id: u64) -> (r: String)
        ensures
            r@ == tar_path(self.location_view(), id),
    {
        let runs = join(self.location.as_str(), "runs");
        let mut name = String::new();
        push_hex_padded(&mut name, id, 16);
        push_str(&mut name, ".tar.xz");
        assert(name@ == Seq::<char>::empty() + hex_padded(id as nat, 16) + ".tar.xz"@);
        assert(name@ =~= hex_padded(id as nat, 16) + ".tar.xz"@);
        join(runs.as_str(), name.as_str())
    }

    /// The partitions that collect `run`.
    pub fn partitions_for(&self, run: &BenchSuiteRun) -> (r: Vec<String>)
        ensures
            texts(r@) == partitions(self.collections_view(), *run),
    {
        let mut r: Vec<String> = Vec::new();
        let mut i: usize = 0;
        let ghost cols = self.collections@;
        while i < self.collections.len()
            invariant
                cols == self.collections@,
                i <= cols.len(),
                texts(r@) == partitions(cols.subrange(0, i as int), *run),
            decreases self.collections.len() - i,
        {
            let ghost before = r@;
            assert(cols.subrange(0, i + 1).drop_last() =~= cols.subrange(0, i as int));
            let (name, config) = (&self.collections[i].0, &self.collections[i].1);
            if config.contains(run) {
                let mut seen = false;
                let mut j: usize = 0;
                while j < r.len()
                    invariant
                        j <= r@.len(),
                        seen <==> exists|m: int| 0 <= m < j && r@[m]@ == name@,
                    decreases r.len() - j,
                {
                    if r[j] == *name {
                        seen = true;
                    }
                    j = j + 1;
                }
                assert(seen <==> texts(r@).contains(name@)) by {
                    if texts(r@).contains(name@) {
                        let m = choose|m: int| 0 <= m < texts(r@).len() && texts(r@)[m] == name@;
                        assert(r@[m]@ == name@);
                    }
                    if seen {
                        let m = choose|m: int| 0 <= m < r@.len() && r@[m]@ == name@;
                        assert(texts(r@)[m] == name@);
                    }
                }
                if !seen {
                    r.push(name.clone());
                    assert(texts(r@) =~= texts(before).push(name@));
                }
            }
            i = i + 1;
        }
        assert(cols.subrange(0, cols.len() as int) =~= cols);
        r
    }

    /// The runs that at least one partition collects, in order, each with its
    /// id, its description, its partitions and its archive.
    pub fn to_collect(&self) -> (r: Vec<(u64, &BenchSuiteRun, Vec<String>, String)>)
        ensures
            forall|i: int, j: int| 0 <= i < j < r@.len() ==> r@[i].0 != r@[j].0,
            r@.len() == selected(self.runs_view(), self.collections_view()).len(),
            forall|i: int| #![trigger r@[i]] 0 <= i < r@.len() ==> {
                let k = selected(self.runs_view(), self.collections_view())[i];
                &&& r@[i].0 == self.runs_view()[k].0
                &&& *r@[i].1 == self.runs_view()[k].1
                &&& texts(r@[i].2@) == partitions(self.collections_view(), self.runs_view()[k].1)
                &&& r@[i].3@ == tar_path(self.location_view(), self.runs_view()[k].0)
            },
    {
        let mut r: Vec<(u64, &BenchSuiteRun, Vec<String>, String)> = Vec::new();
        let mut i: usize = 0;
        let ghost runs = self.runs@;
        let ghost cols = self.collections@;
        while i < self.runs.len()
            invariant
                runs == self.runs@,
                cols == self.collections@,
                i <= runs.len(),
                r@.len() == selected(runs.subrange(0, i as int), cols).len(),
                forall|m: int| #![trigger r@[m]] 0 <= m < r@.len() ==> {
                    let k = selected(runs.subrange(0, i as int), cols)[m];
                    &&& r@[m].0 == runs[k].0
                    &&& *r@[m].1 == runs[k].1
                    &&& texts(r@[m].2@) == partitions(cols, runs[k].1)
                    &&& r@[m].3@ == tar_path(self.location@, runs[k].0)
                },
            decreases self.runs.len() - i,
        {
            let ghost sel_before = selected(runs.subrange(0, i as int), cols);
            assert(runs.subrange(0, i + 1).drop_last() =~= runs.subrange(0, i as int));
            let id = self.runs[i].0;
            let run = &self.runs[i].1;
            let parts = self.partitions_for(run);
            if parts.len() > 0 {
                let path = self.tar_file_path(id);
                r.push((id, run, parts, path));
            }
            proof {
                let sel = selected(runs.subrange(0, i + 1), cols);
                assert(forall|m: int| 0 <= m < sel_before.len() ==> sel[m] == sel_before[m]);
            }
            i = i + 1;
        }
        assert(runs.subrange(0, runs.len() as int) =~= runs);
        proof {
            use_type_invariant(self);
            lemma_selected_in_range(runs, cols);
        }
        r
    }
}

/// Every position that `selected` gives is a run position.
pub proof fn lemma_selected_in_range(runs: Seq<(u64, BenchSuiteRun)>, cols: Seq<(String, BenchSuiteConfig)>)
    ensures
        forall|i: int| 0 <= i < selected(runs, cols).len() ==> 0 <= #[trigger] selected(runs, cols)[i] < runs.len()
            && partitions(cols, runs[selected(runs, cols)[i]].1).len() > 0,
        forall|i: int, j: int| 0 <= i < j < selected(runs, cols).len() ==> selected(runs, cols)[i] < selected(runs, cols)[j],
    decreases runs.len(),
{
    if runs.len() > 0 {
        lemma_selected_in_range(runs.drop_last(), cols);
        let s = selected(runs.drop_last(), cols);
        assert forall|i: int| 0 <= i < s.len() implies runs[s[i]] == runs.drop_last()[s[i]] by {}
    }
}

/// A run that no partition collects is never handed out for collection, so
/// it yields no output; where ids are unique, no run handed out carries its id.
pub proof fn lemma_unpartitioned_run_not_collected(
    runs: Seq<(u64, BenchSuiteRun)>,
    cols: Seq<(String, BenchSuiteConfig)>,
    k: int,
)
    requires
        0 <= k < runs.len(),
        partitions(cols, runs[k].1).len() == 0,
    ensures
        !selected(runs, cols).contains(k),
        ids_unique(runs) ==> forall|i: int|
            0 <= i < selected(runs, cols).len() ==> runs[#[trigger] selected(runs, cols)[i]].0 != runs[k].0,
{
    lemma_selected_in_range(runs, cols);
}

/// Some collection among `cols` named `n` admits `run`.
pub open spec fn admitted_by(cols: Seq<(String, BenchSuiteConfig)>, run: BenchSuiteRun, n: Seq<char>) -> bool {
    exists|k: int| 0 <= k < cols.len() && (#[trigger] cols[k]).0@ == n && cols[k].1.admits(&run)
}

/// The partitions of a run are the names of the collections that admit it,
/// each once; a run that none admits has none.
pub proof fn lemma_partitions_admitting(cols: Seq<(String, BenchSuiteConfig)>, run: BenchSuiteRun)
    ensures
        forall|n: Seq<char>| #[trigger] partitions(cols, run).contains(n) <==> admitted_by(cols, run, n),
        forall|a: int, b: int|
            0 <= a < b < partitions(cols, run).len() ==> partitions(cols, run)[a] != partitions(cols, run)[b],
    decreases cols.len(),
{
    if cols.len() > 0 {
        let init = cols.drop_last();
        lemma_partitions_admitting(init, run);
        let p = partitions(init, run);
        let last = cols.len() - 1;
        assert(cols[last] == cols.last());
        assert forall|n: Seq<char>| #[trigger] partitions(cols, run).contains(n) <==> admitted_by(cols, run, n) by {
            if admitted_by(init, run, n) {
                let k = choose|k: int| 0 <= k < init.len() && (#[trigger] init[k]).0@ == n && init[k].1.admits(&run);
                assert(cols[k] == init[k]);
            }
            if admitted_by(cols, run, n) {
                let k = choose|k: int| 0 <= k < cols.len() && (#[trigger] cols[k]).0@ == n && cols[k].1.admits(&run);
                if k < last {
                    assert(init[k] == cols[k]);
                    assert(admitted_by(init, run, n));
                }
            }
            if p.contains(n) {
                let m = choose|m: int| 0 <= m < p.len() && p[m] == n;
                if partitions(cols, run) == p.push(cols.last().0@) {
                    assert(partitions(cols, run)[m] == n);
                }
            }
            if partitions(cols, run) == p.push(cols.last().0@) {
                assert(partitions(cols, run)[p.len() as int] == cols.last().0@);
            }
        }
    }
}

} // verus!
