//! Renaming of reads, from a given table or by numbering them in order of
//! appearance.

use vstd::prelude::*;

use crate::gfa_text::{dec, push_decimal};
use crate::indexing::unique_keys;
use crate::record::Record;

verus! {

pub type RenameView = Seq<(Seq<char>, Seq<char>)>;

/// The new name of `k`, if the table has one.
pub open spec fn lookup(t: RenameView, k: Seq<char>) -> Option<Seq<char>> {
    if exists|i: int| 0 <= i < t.len() && (#[trigger] t[i]).0 == k {
        let i = choose|i: int| 0 <= i < t.len() && (#[trigger] t[i]).0 == k;
        Some(t[i].1)
    } else {
        None
    }
}

/// `t` with `k` renamed to `v`, replacing an earlier name of `k`.
pub open spec fn set_name(t: RenameView, k: Seq<char>, v: Seq<char>) -> RenameView {
    if exists|i: int| 0 <= i < t.len() && (#[trigger] t[i]).0 == k {
        let i = choose|i: int| 0 <= i < t.len() && (#[trigger] t[i]).0 == k;
        t.update(i, (k, v))
    } else {
        t.push((k, v))
    }
}

/// The table that a list of `(old, new)` pairs gives; a later pair for the
/// same read wins.
pub open spec fn table_of(ps: Seq<(String, String)>) -> RenameView
    decreases ps.len(),
{
    if ps.len() == 0 {
        Seq::empty()
    } else {
        set_name(table_of(ps.drop_last()), ps.last().0@, ps.last().1@)
    }
}

/// Every field but the two read identifiers is the same.
pub open spec fn same_coordinates(x: Record, y: Record) -> bool {
    &&& x.length_a == y.length_a
    &&& x.begin_a == y.begin_a
    &&& x.end_a == y.end_a
    &&& x.strand == y.strand
    &&& x.length_b == y.length_b
    &&& x.begin_b == y.begin_b
    &&& x.end_b == y.end_b
    &&& x.position == y.position
}

pub open spec fn renamed(t: RenameView, k: Seq<char>) -> Seq<char> {
    match lookup(t, k) {
        Some(v) => v,
        None => k,
    }
}

/// In numbering mode: `t` with `k` given the name `dec(n)` if it had none.
pub open spec fn number(t: RenameView, k: Seq<char>, n: u64) -> RenameView {
    if lookup(t, k) is Some {
        t
    } else {
        t.push((k, dec(n as nat)))
    }
}

/// Renames reads, from a table or by numbering them.
pub struct Renaming {
    file_rename_path: String,
    rename_table: Vec<(String, String)>,
    index: u64,
    index_mode: bool,
}

impl Renaming {
    pub closed spec fn table(&self) -> RenameView {
        self.rename_table@.map_values(|e: (String, String)| (e.0@, e.1@))
    }

    pub closed spec fn counter(&self) -> u64 {
        self.index
    }

    pub closed spec fn numbering(&self) -> bool {
        self.index_mode
    }

    pub closed spec fn path(&self) -> Seq<char> {
        self.file_rename_path@
    }

    pub open spec fn wf(&self) -> bool {
        unique_keys(self.table())
    }

    /// With `in_file`, renames by the table of `pairs` (read from
    /// `file_rename_path`); otherwise numbers reads from 1 and writes the
    /// table to `file_rename_path` at the end.
    pub fn new(file_rename_path: &str, in_file: bool, pairs: &Vec<(String, String)>) -> (x:
        Renaming)
        ensures
            x.wf(),
            x.path() == file_rename_path@,
            x.numbering() == !in_file,
            in_file ==> x.table() == table_of(pairs@) && x.counter() == 0,
            !in_file ==> x.table().len() == 0 && x.counter() == 1,
    {
        let mut x = Renaming {
            file_rename_path: file_rename_path.to_string(),
            rename_table: Vec::new(),
            index: if in_file {
                0
            } else {
                1
            },
            index_mode: !in_file,
        };
        assert(x.table() =~= Seq::<(Seq<char>, Seq<char>)>::empty());
        if in_file {
            let mut i: usize = 0;
            while i < pairs.len()
                invariant
                    0 <= i <= pairs.len(),
                    x.wf(),
                    x.table() == table_of(pairs@.take(i as int)),
                    x.path() == file_rename_path@,
                    x.numbering() == !in_file,
                    x.counter() == 0,
                decreases pairs.len() - i,
            {
                assert(pairs@.take(i as int + 1).drop_last() =~= pairs@.take(i as int));
                let k = pairs[i].0.clone();
                let v = pairs[i].1.clone();
                x.set(k, v);
                i += 1;
            }
            assert(pairs@.take(pairs@.len() as int) =~= pairs@);
        }
        x
    }

    /// The position of `k` in the table.
    fn find(&self, k: &String) -> (r: Option<usize>)
        requires
            self.wf(),
        ensures
            r matches Some(i) ==> i < self.table().len() && self.table()[i as int].0 == k@
                && lookup(self.table(), k@) == Some(self.table()[i as int].1),
            r is None ==> lookup(self.table(), k@) is None,
    {
        let ghost t = self.table();
        let mut i: usize = 0;
        while i < self.rename_table.len()
            invariant
                t == self.table(),
                self.wf(),
                0 <= i <= self.rename_table.len(),
                forall|j: int| 0 <= j < i ==> (#[trigger] t[j]).0 != k@,
            decreases self.rename_table.len() - i,
        {
            if self.rename_table[i].0 == *k {
                assert(t[i as int].0 == k@);
                proof {
                    let c = choose|c: int| 0 <= c < t.len() && (#[trigger] t[c]).0 == k@;
                    if c != i {
                        assert(t[c].0 != t[i as int].0);
                    }
                }
                return Some(i);
            }
            i += 1;
        }
        None
    }

    fn set(&mut self, k: String, v: String)
        requires
            old(self).wf(),
        ensures
            final(self).wf(),
            final(self).table() == set_name(old(self).table(), k@, v@),
            final(self).counter() == old(self).counter(),
            final(self).numbering() == old(self).numbering(),
            final(self).path() == old(self).path(),
    {
        let ghost t = self.table();
        let ghost e = (k@, v@);
        match self.find(&k) {
            Some(i) => {
                self.rename_table.set(i, (k, v));
                assert(self.table() =~= t.update(i as int, e));
                assert forall|x: int, y: int|
                    0 <= x < self.table().len() && 0 <= y < self.table().len() && x != y implies (
                    #[trigger] self.table()[x]).0 != (#[trigger] self.table()[y]).0 by {
                    if x == i {
                        assert(t[i as int].0 != t[y].0);
                    } else if y == i {
                        assert(t[x].0 != t[i as int].0);
                    } else {
                        assert(t[x].0 != t[y].0);
                    }
                }
            },
            None => {
                self.rename_table.push((k, v));
                assert(self.table() =~= t.push(e));
            },
        }
    }

    fn run_index(&self, r: &mut Record)
        requires
            self.wf(),
        ensures
            same_coordinates(*final(r), *old(r)),
            final(r).read_a@ == renamed(self.table(), old(r).read_a@),
            final(r).read_b@ == renamed(self.table(), old(r).read_b@),
    {
        match self.find(&r.read_a) {
            Some(i) => {
                r.read_a = self.rename_table[i].1.clone();
            },
            None => {},
        }
        match self.find(&r.read_b) {
            Some(i) => {
                r.read_b = self.rename_table[i].1.clone();
            },
            None => {},
        }
    }

    /// Gives `k` the next number if it has no name yet; returns its name.
    fn name_of(&mut self, k: &String) -> (name: String)
        requires
            old(self).wf(),
            old(self).counter() < u64::MAX,
        ensures
            final(self).wf(),
            final(self).table() == number(old(self).table(), k@, old(self).counter()),
            final(self).counter() == if lookup(old(self).table(), k@) is Some {
                old(self).counter()
            } else {
                (old(self).counter() + 1) as u64
            },
            lookup(final(self).table(), k@) == Some(name@),
            final(self).numbering() == old(self).numbering(),
            final(self).path() == old(self).path(),
    {
        match self.find(k) {
            Some(i) => self.rename_table[i].1.clone(),
            None => {
                let ghost t = self.table();
                let mut name = String::new();
                push_decimal(&mut name, self.index);
                assert(name@ =~= dec(self.index as nat));
                self.rename_table.push((k.clone(), name.clone()));
                self.index = self.index + 1;
                let ghost n = self.table();
                assert(n =~= t.push((k@, name@)));
                let ghost last = n.len() - 1;
                assert(n[last].0 == k@);
                proof {
                    let c = choose|c: int| 0 <= c < n.len() && (#[trigger] n[c]).0 == k@;
                    if c != last {
                        assert(t[c].0 == k@);
                    }
                }
                name
            },
        }
    }

    fn run_no_index(&mut self, r: &mut Record)
        requires
            old(self).wf(),
            old(self).counter() < u64::MAX - 1,
        ensures
            final(self).wf(),
            same_coordinates(*final(r), *old(r)),
            ({
                let t1 = number(old(self).table(), old(r).read_a@, old(self).counter());
                let c1 = if lookup(old(self).table(), old(r).read_a@) is Some {
                    old(self).counter()
                } else {
                    (old(self).counter() + 1) as u64
                };
                &&& final(self).table() == number(t1, old(r).read_b@, c1)
                &&& lookup(t1, old(r).read_a@) == Some(final(r).read_a@)
                &&& lookup(final(self).table(), old(r).read_b@) == Some(final(r).read_b@)
            }),
            final(self).numbering() == old(self).numbering(),
            final(self).path() == old(self).path(),
    {
        let a = r.read_a.clone();
        let name_a = self.name_of(&a);
        r.read_a = name_a;
        let b = r.read_b.clone();
        let name_b = self.name_of(&b);
        r.read_b = name_b;
    }

    /// What one call of `run` does: `before` and `r` become `after` and `r2`.
    pub open spec fn renames(before: Renaming, r: Record, after: Renaming, r2: Record) -> bool {
        &&& after.wf()
        &&& same_coordinates(r2, r)
        &&& after.numbering() == before.numbering()
        &&& after.path() == before.path()
        &&& !before.numbering() ==> {
            &&& after.table() == before.table()
            &&& after.counter() == before.counter()
            &&& r2.read_a@ == renamed(before.table(), r.read_a@)
            &&& r2.read_b@ == renamed(before.table(), r.read_b@)
        }
        &&& before.numbering() ==> {
            let t1 = number(before.table(), r.read_a@, before.counter());
            let c1 = if lookup(before.table(), r.read_a@) is Some {
                before.counter()
            } else {
                (before.counter() + 1) as u64
            };
            &&& after.table() == number(t1, r.read_b@, c1)
            &&& lookup(t1, r.read_a@) == Some(r2.read_a@)
            &&& lookup(after.table(), r.read_b@) == Some(r2.read_b@)
        }
    }

    /// Renames both reads of `r`: by the table, or by numbering.
    pub fn run(&mut self, r: &mut Record)
        requires
            old(self).wf(),
            old(self).counter() < u64::MAX - 1,
        ensures
            Self::renames(*old(self), *old(r), *final(self), *final(r)),
    {
        if self.index_mode {
            self.run_no_index(r);
        } else {
            self.run_index(r);
        }
    }

    /// The counter of the next number given.
    pub fn counter_value(&self) -> (n: u64)
        ensures
            n == self.counter(),
    {
        self.index
    }

    /// Where the numbering table is to be written.
    pub fn file_rename_path(&self) -> (p: &String)
        ensures
            p@ == self.path(),
    {
        &self.file_rename_path
    }

    /// The lines of the renaming file: the table in order, when reads were
    /// numbered; nothing when the table was given.
    pub fn write(&self) -> (rows: Option<Vec<(String, String)>>)
        ensures
            rows is Some <==> self.counter() != 0,
            rows matches Some(v) ==> v@.len() == self.table().len() && forall|i: int|
                0 <= i < v@.len() ==> (#[trigger] v@[i]).0@ == self.table()[i].0 && v@[i].1@
                    == self.table()[i].1,
    {
        if self.index == 0 {
            return None;
        }
        let mut rows: Vec<(String, String)> = Vec::new();
        let mut i: usize = 0;
        while i < self.rename_table.len()
            invariant
                0 <= i <= self.rename_table.len(),
                rows@.len() == i,
                forall|j: int|
                    0 <= j < i ==> (#[trigger] rows@[j]).0@ == self.table()[j].0 && rows@[j].1@
                        == self.table()[j].1,
            decreases self.rename_table.len() - i,
        {
            let e = &self.rename_table[i];
            assert(self.table()[i as int] == (e.0@, e.1@));
            rows.push((e.0.clone(), e.1.clone()));
            i += 1;
        }
        Some(rows)
    }
}

} // verus!
