//! The registry that binds each table key, a (partition, table name) pair,
//! to the one accumulator that receives its tables.
use crate::text::{join, join_path};
use vstd::prelude::*;

verus! {

/// One output stream: a partition and a table name.
#[derive(Clone, Debug)]
pub struct TableKey {
    pub partition: String,
    pub table: String,
}

impl TableKey {
    pub open spec fn view(&self) -> (Seq<char>, Seq<char>) {
        (self.partition@, self.table@)
    }

    pub fn new(partition: String, table: String) -> (r: Self)
        ensures
            r.partition == partition,
            r.table == table,
    {
        TableKey { partition, table }
    }

    /// The location of the stream's files under the directory `base`:
    /// `<base>/<partition>/<table>`.
    pub fn location(&self, base: &str) -> (r: String)
        ensures
            r@ == join_path(join_path(base@, self.partition@), self.table@),
    {
        let dir = join(base, self.partition.as_str());
        join(dir.as_str(), self.table.as_str())
    }

    /// Whether two keys name the same stream.
    pub fn same(&self, other: &TableKey) -> (r: bool)
        ensures
            r == (self@ == other@),
    {
        self.partition == other.partition && self.table == other.table
    }
}

/// The keys of a sequence of entries.
pub open spec fn keys_of<S>(entries: Seq<(TableKey, S)>) -> Seq<(Seq<char>, Seq<char>)> {
    entries.map_values(|e: (TableKey, S)| e.0@)
}

/// No key occurs twice.
pub open spec fn keys_unique<S>(entries: Seq<(TableKey, S)>) -> bool {
    forall|i: int, j: int| 0 <= i < j < entries.len() ==> entries[i].0@ != entries[j].0@
}

/// A map from table keys to the handle of their accumulator (a sender, an
/// index): at most one handle per key.
pub struct Registry<S> {
    entries: Vec<(TableKey, S)>,
}

impl<S> Registry<S> {
    /// The entries in order of insertion.
    pub closed spec fn view(&self) -> Seq<(TableKey, S)> {
        self.entries@
    }

    pub open spec fn wf(&self) -> bool {
        keys_unique(self@)
    }

    /// The handle bound to `key`, if any.
    pub open spec fn bound(&self, key: (Seq<char>, Seq<char>)) -> Option<S> {
        if exists|i: int| 0 <= i < self@.len() && self@[i].0@ == key {
            let i = choose|i: int| 0 <= i < self@.len() && self@[i].0@ == key;
            Some(self@[i].1)
        } else {
            None
        }
    }

    pub fn new() -> (r: Self)
        ensures
            r@.len() == 0,
            r.wf(),
    {
        Registry { entries: Vec::new() }
    }

    /// The position of `key`, if it is bound.
    fn position(&self, key: &TableKey) -> (r: Option<usize>)
        ensures
            r matches Some(i) ==> i < self@.len() && self@[i as int].0@ == key@,
            r is None ==> forall|i: int| 0 <= i < self@.len() ==> self@[i].0@ != key@,
    {
        let mut i: usize = 0;
        while i < self.entries.len()
            invariant
                i <= self.entries@.len(),
                forall|j: int| 0 <= j < i ==> self.entries@[j].0@ != key@,
            decreases self.entries.len() - i,
        {
            if self.entries[i].0.same(key) {
                return Some(i);
            }
            i = i + 1;
        }
        None
    }

    /// The handle bound to `key`, if any.
    pub fn get(&self, key: &TableKey) -> (r: Option<&S>)
        requires
            self.wf(),
        ensures
            match self.bound(key@) {
                Some(s) => r == Some(&s),
                None => r is None,
            },
    {
        match self.position(key) {
            Some(i) => {
                let ghost c = choose|c: int| 0 <= c < self@.len() && self@[c].0@ == key@;
                assert(c == i as int);
                Some(&self.entries[i].1)
            },
            None => None,
        }
    }

    /// Binds `handle` to `key` unless the key is bound already; returns
    /// whether it did. A bound key keeps its handle.
    pub fn insert_if_absent(&mut self, key: TableKey, handle: S) -> (r: bool)
        requires
            old(self).wf(),
        ensures
            final(self).wf(),
            r == (old(self).bound(key@) is None),
            r ==> final(self)@ == old(self)@.push((key, handle)),
            !r ==> final(self)@ == old(self)@,
    {
        match self.position(&key) {
            Some(i) => false,
            None => {
                self.entries.push((key, handle));
                true
            },
        }
    }
}

/// The texts of a sequence of strings.
pub open spec fn string_views(v: Seq<String>) -> Seq<Seq<char>> {
    v.map_values(|s: String| s@)
}

/// The submissions of table `i`, named `name`: one to each partition.
pub open spec fn row(parts: Seq<Seq<char>>, name: Seq<char>, i: nat) -> Seq<((Seq<char>, Seq<char>), nat)> {
    parts.map_values(|p: Seq<char>| ((p, name), i))
}

/// The submissions of a run's tables, named `names`, to its partitions
/// `parts`: table by table, each to every partition, with the table's
/// position.
pub open spec fn plan(parts: Seq<Seq<char>>, names: Seq<Seq<char>>) -> Seq<((Seq<char>, Seq<char>), nat)>
    decreases names.len(),
{
    if names.len() == 0 {
        Seq::empty()
    } else {
        plan(parts, names.drop_last()) + row(parts, names.last(), (names.len() - 1) as nat)
    }
}

/// What a submission list says: each key as text, with its table position.
pub open spec fn routes_view(r: Seq<(TableKey, usize)>) -> Seq<((Seq<char>, Seq<char>), nat)> {
    r.map_values(|e: (TableKey, usize)| (e.0@, e.1 as nat))
}

/// Where each of a run's tables goes: to every partition of the run, under
/// the key (partition, table name), each with the table's position in
/// `names`.
pub fn fan_out(partitions: &Vec<String>, names: &Vec<String>) -> (r: Vec<(TableKey, usize)>)
    ensures
        routes_view(r@) == plan(string_views(partitions@), string_views(names@)),
{
    let ghost parts = string_views(partitions@);
    let mut r: Vec<(TableKey, usize)> = Vec::new();
    let mut i: usize = 0;
    while i < names.len()
        invariant
            i <= names@.len(),
            parts == string_views(partitions@),
            routes_view(r@) == plan(parts, string_views(names@.subrange(0, i as int))),
        decreases names.len() - i,
    {
        let ghost base = routes_view(r@);
        let ghost nm = names@[i as int]@;
        let mut j: usize = 0;
        while j < partitions.len()
            invariant
                i < names@.len(),
                nm == names@[i as int]@,
                j <= partitions@.len(),
                parts == string_views(partitions@),
                routes_view(r@) == base + row(parts.subrange(0, j as int), nm, i as nat),
            decreases partitions.len() - j,
        {
            let ghost before = routes_view(r@);
            r.push((TableKey::new(partitions[j].clone(), names[i].clone()), i));
            proof {
                assert(routes_view(r@) =~= before.push(((partitions@[j as int]@, nm), i as nat)));
                assert(row(parts.subrange(0, j + 1), nm, i as nat) =~= row(parts.subrange(0, j as int), nm, i as nat).push(
                    ((parts[j as int], nm), i as nat),
                ));
                assert(routes_view(r@) =~= base + row(parts.subrange(0, j + 1), nm, i as nat));
            }
            j = j + 1;
        }
        proof {
            assert(parts.subrange(0, j as int) =~= parts);
            let ns = string_views(names@.subrange(0, i + 1));
            assert(ns.drop_last() =~= string_views(names@.subrange(0, i as int)));
            assert(ns.last() == nm);
        }
        i = i + 1;
    }
    assert(names@.subrange(0, names@.len() as int) =~= names@);
    r
}

/// Table `i` goes to partition `j` at position `i * parts.len() + j` of the
/// plan.
pub open spec fn routed_at(parts: Seq<Seq<char>>, names: Seq<Seq<char>>, i: int, j: int) -> bool {
    &&& 0 <= i * parts.len() + j < plan(parts, names).len()
    &&& plan(parts, names)[i * parts.len() + j] == ((parts[j], names[i]), i as nat)
}

/// Where each table goes in the plan: table `i` to partition `j` at position
/// `i * parts.len() + j`.
pub proof fn lemma_routed_at(parts: Seq<Seq<char>>, names: Seq<Seq<char>>)
    ensures
        plan(parts, names).len() == names.len() * parts.len(),
        forall|i: int, j: int| 0 <= i < names.len() && 0 <= j < parts.len() ==> #[trigger] routed_at(
            parts,
            names,
            i,
            j,
        ),
    decreases names.len(),
{
    if names.len() > 0 {
        let init = names.drop_last();
        lemma_routed_at(parts, init);
        let p0 = plan(parts, init);
        let rw = row(parts, names.last(), (names.len() - 1) as nat);
        assert(plan(parts, names) == p0 + rw);
        assert(names.len() * parts.len() == init.len() * parts.len() + parts.len()) by (nonlinear_arith)
            requires
                names.len() == init.len() + 1,
        ;
        assert forall|i: int, j: int| 0 <= i < names.len() && 0 <= j < parts.len() implies #[trigger] routed_at(
            parts,
            names,
            i,
            j,
        ) by {
            if i < init.len() {
                assert(i * parts.len() + j < init.len() * parts.len()) by (nonlinear_arith)
                    requires
                        0 <= i < init.len(),
                        0 <= j < parts.len(),
                ;
                assert(0 <= i * parts.len()) by (nonlinear_arith)
                    requires
                        0 <= i,
                ;
                assert(init[i] == names[i]);
                assert(routed_at(parts, init, i, j));
                assert(plan(parts, names)[i * parts.len() + j] == p0[i * parts.len() + j]);
            } else {
                assert(i * parts.len() == p0.len());
                assert(plan(parts, names)[p0.len() + j] == rw[j]);
            }
        }
    }
}

/// Fan-out: every table of a run goes to every partition of the run under
/// its own name, and nothing else is submitted; so each partition receives
/// the same tables. A run with no partition submits nothing. Table `i` goes
/// to partition `j` at position `i * parts.len() + j`, and there only.
pub proof fn lemma_fan_out(parts: Seq<Seq<char>>, names: Seq<Seq<char>>)
    ensures
        plan(parts, names).len() == names.len() * parts.len(),
        forall|i: int, j: int| 0 <= i < names.len() && 0 <= j < parts.len() ==> #[trigger] routed_at(
            parts,
            names,
            i,
            j,
        ),
        forall|i: int, j: int| 0 <= i < names.len() && 0 <= j < parts.len() ==> plan(parts, names).contains(
            ((parts[j], names[i]), i as nat),
        ),
        forall|k: int| #![trigger plan(parts, names)[k]] 0 <= k < plan(parts, names).len() ==> {
            let e = plan(parts, names)[k];
            &&& e.1 < names.len()
            &&& e.0.1 == names[e.1 as int]
            &&& parts.contains(e.0.0)
        },
    decreases names.len(),
{
    lemma_routed_at(parts, names);
    if names.len() > 0 {
        let init = names.drop_last();
        lemma_fan_out(parts, init);
        let p0 = plan(parts, init);
        let rw = row(parts, names.last(), (names.len() - 1) as nat);
        assert(plan(parts, names) == p0 + rw);
        assert(names.len() * parts.len() == init.len() * parts.len() + parts.len()) by (nonlinear_arith)
            requires
                names.len() == init.len() + 1,
        ;
        assert forall|i: int, j: int| 0 <= i < names.len() && 0 <= j < parts.len() implies plan(parts, names).contains(
            ((parts[j], names[i]), i as nat),
        ) by {
            if i < init.len() {
                assert(init[i] == names[i]);
                let k = choose|k: int| 0 <= k < p0.len() && p0[k] == ((parts[j], init[i]), i as nat);
                assert(plan(parts, names)[k] == p0[k]);
            } else {
                assert(plan(parts, names)[p0.len() + j] == rw[j]);
            }
        }
        assert forall|k: int| #![trigger plan(parts, names)[k]] 0 <= k < plan(parts, names).len() implies {
            let e = plan(parts, names)[k];
            &&& e.1 < names.len()
            &&& e.0.1 == names[e.1 as int]
            &&& parts.contains(e.0.0)
        } by {
            if k < p0.len() {
                assert(plan(parts, names)[k] == p0[k]);
                assert(init[p0[k].1 as int] == names[p0[k].1 as int]);
            } else {
                let j = k - p0.len();
                assert(plan(parts, names)[k] == rw[j]);
                assert(parts[j] == rw[j].0.0);
            }
        }
    }
}

/// Each table goes to each partition once: where the partitions are
/// distinct, the one submission of table `i` to partition `j` stands at
/// position `i * parts.len() + j`.
pub proof fn lemma_routed_once(parts: Seq<Seq<char>>, names: Seq<Seq<char>>, i: int, j: int, k: int)
    requires
        forall|x: int, y: int| 0 <= x < y < parts.len() ==> parts[x] != parts[y],
        0 <= i < names.len(),
        0 <= j < parts.len(),
        0 <= k < plan(parts, names).len(),
        plan(parts, names)[k] == ((parts[j], names[i]), i as nat),
    ensures
        k == i * parts.len() + j,
{
    lemma_routed_at(parts, names);
    let p = parts.len() as int;
    let a = k / p;
    let b = k % p;
    vstd::arithmetic::div_mod::lemma_fundamental_div_mod(k, p);
    vstd::arithmetic::div_mod::lemma_mod_pos_bound(k, p);
    assert(0 <= a < names.len()) by (nonlinear_arith)
        requires
            k == p * a + b,
            0 <= b < p,
            0 <= k < names.len() * p,
    ;
    assert(p * a == a * p) by (nonlinear_arith);
    assert(routed_at(parts, names, a, b));
    assert(a == i);
    if b != j {
        if b < j {
            assert(parts[b] != parts[j]);
        } else {
            assert(parts[j] != parts[b]);
        }
    }
}

} // verus!
