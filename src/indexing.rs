//! Index of the byte spans where each read's alignments were written.

use vstd::prelude::*;
use vstd::string::StringExecFns;

use crate::gfa_text::{dec, push_decimal};
use crate::record::Record;

verus! {

/// Which read of a record an index covers.
#[derive(Clone, Copy, Debug, PartialEq, Eq, Structural)]
pub enum WorkOnWichPart {
    Both,
    Query,
    Target,
}

impl WorkOnWichPart {
    /// `"query"` and `"target"` name one side; anything else means both.
    pub fn from_name(name: &str) -> (w: WorkOnWichPart)
        ensures
            name@ == "query"@ ==> w == WorkOnWichPart::Query,
            name@ == "target"@ ==> w == WorkOnWichPart::Target,
            name@ != "query"@ && name@ != "target"@ ==> w == WorkOnWichPart::Both,
    {
        let query = "query".to_string();
        let target = "target".to_string();
        let n = name.to_string();
        proof {
            reveal_strlit("query");
            reveal_strlit("target");
            assert("query"@.len() != "target"@.len());
        }
        if n == query {
            WorkOnWichPart::Query
        } else if n == target {
            WorkOnWichPart::Target
        } else {
            WorkOnWichPart::Both
        }
    }
}

pub type Span = (u64, u64);

pub type IndexView = Seq<(Seq<char>, Seq<Span>)>;

/// At most one entry per read.
pub open spec fn unique_keys<V>(t: Seq<(Seq<char>, V)>) -> bool {
    forall|i: int, j: int|
        0 <= i < t.len() && 0 <= j < t.len() && i != j ==> (#[trigger] t[i]).0 != (#[trigger] t[j]).0
}

/// `t` with span `p` appended to the list of `key`, which is created at the
/// end if absent.
pub open spec fn append_span(t: IndexView, key: Seq<char>, p: Span) -> IndexView {
    if exists|i: int| 0 <= i < t.len() && (#[trigger] t[i]).0 == key {
        let i = choose|i: int| 0 <= i < t.len() && (#[trigger] t[i]).0 == key;
        t.update(i, (key, t[i].1.push(p)))
    } else {
        t.push((key, seq![p]))
    }
}

/// The index after one record.
pub open spec fn index_record(t: IndexView, kind: WorkOnWichPart, r: Record) -> IndexView {
    match kind {
        WorkOnWichPart::Both => if r.read_a@ == r.read_b@ {
            append_span(t, r.read_a@, r.position)
        } else {
            append_span(append_span(t, r.read_a@, r.position), r.read_b@, r.position)
        },
        WorkOnWichPart::Query => append_span(t, r.read_a@, r.position),
        WorkOnWichPart::Target => append_span(t, r.read_b@, r.position),
    }
}

/// Span `v` continues span `p`: it starts where `p` ends or one byte after.
pub open spec fn continues(p: Span, v: Span) -> bool {
    p.1 <= v.0 <= p.1 + 1
}

/// Consecutive spans merged into runs.
pub open spec fn merge_spans(s: Seq<Span>) -> Seq<Span>
    decreases s.len(),
{
    if s.len() <= 1 {
        s
    } else {
        let m = merge_spans(s.drop_last());
        let p = m.last();
        let v = s.last();
        if continues(p, v) {
            m.update(m.len() - 1, (p.0, v.1))
        } else {
            m.push(v)
        }
    }
}

pub open spec fn span_text(p: Span) -> Seq<char> {
    dec(p.0 as nat) + ":"@ + dec(p.1 as nat)
}

/// `a:b;c:d;...`
pub open spec fn spans_text(s: Seq<Span>) -> Seq<char>
    decreases s.len(),
{
    if s.len() == 0 {
        Seq::empty()
    } else if s.len() == 1 {
        span_text(s[0])
    } else {
        spans_text(s.drop_last()) + ";"@ + span_text(s.last())
    }
}

proof fn lemma_merge_nonempty(s: Seq<Span>)
    requires
        s.len() >= 1,
    ensures
        merge_spans(s).len() >= 1,
    decreases s.len(),
{
    if s.len() > 1 {
        lemma_merge_nonempty(s.drop_last());
    }
}

proof fn lemma_take_step<T>(s: Seq<T>, i: int)
    requires
        0 <= i < s.len(),
    ensures
        s.take(i + 1).drop_last() =~= s.take(i),
        s.take(i + 1).last() == s[i],
        s.take(i + 1).len() == i + 1,
{
}

/// Consecutive spans of `spans` merged into runs.
pub fn merge(spans: &Vec<Span>) -> (m: Vec<Span>)
    ensures
        m@ == merge_spans(spans@),
{
    let mut m: Vec<Span> = Vec::new();
    if spans.len() == 0 {
        assert(m@ =~= spans@);
        return m;
    }
    m.push(spans[0]);
    assert(m@ =~= spans@.take(1));
    let mut i: usize = 1;
    while i < spans.len()
        invariant
            1 <= i <= spans.len(),
            m@ == merge_spans(spans@.take(i as int)),
            m@.len() >= 1,
        decreases spans.len() - i,
    {
        proof {
            lemma_take_step(spans@, i as int);
        }
        let v = spans[i];
        let k = m.len() - 1;
        let p = m[k];
        if p.1 <= v.0 && v.0 - p.1 <= 1 {
            m.set(k, (p.0, v.1));
        } else {
            m.push(v);
        }
        i += 1;
    }
    assert(spans@.take(spans@.len() as int) =~= spans@);
    m
}

/// Appends `a:b;c:d;...` for `spans`.
fn push_spans_text(out: &mut String, spans: &Vec<Span>)
    ensures
        final(out)@ == old(out)@ + spans_text(spans@),
{
    let ghost o = out@;
    let mut i: usize = 0;
    assert(o + spans_text(spans@.take(0)) =~= o);
    while i < spans.len()
        invariant
            0 <= i <= spans.len(),
            out@ == o + spans_text(spans@.take(i as int)),
        decreases spans.len() - i,
    {
        proof {
            lemma_take_step(spans@, i as int);
        }
        if i > 0 {
            out.append(";");
        }
        push_decimal(out, spans[i].0);
        out.append(":");
        push_decimal(out, spans[i].1);
        if i == 0 {
            assert(out@ =~= o + spans_text(spans@.take(1)));
        } else {
            assert(out@ =~= o + spans_text(spans@.take(i as int + 1)));
        }
        i += 1;
    }
    assert(spans@.take(spans@.len() as int) =~= spans@);
}

/// The text of one index line's second field: the merged runs of `spans`.
pub fn spans_line(spans: &Vec<Span>) -> (s: String)
    ensures
        s@ == spans_text(merge_spans(spans@)),
{
    let m = merge(spans);
    let mut s = String::new();
    push_spans_text(&mut s, &m);
    assert(s@ =~= spans_text(merge_spans(spans@)));
    s
}

/// Collects, per read, the byte spans of the records that name it.
pub struct Indexing {
    index_type: WorkOnWichPart,
    file_index_path: String,
    index_table: Vec<(String, Vec<Span>)>,
}

impl Indexing {
    pub closed spec fn table(&self) -> IndexView {
        self.index_table@.map_values(|e: (String, Vec<Span>)| (e.0@, e.1@))
    }

    pub closed spec fn kind(&self) -> WorkOnWichPart {
        self.index_type
    }

    pub closed spec fn path(&self) -> Seq<char> {
        self.file_index_path@
    }

    pub open spec fn wf(&self) -> bool {
        unique_keys(self.table())
    }

    /// An empty index written to `file_index_path`, over the sides that
    /// `index_type` names.
    pub fn new(file_index_path: &str, index_type: &str) -> (x: Indexing)
        ensures
            x.wf(),
            x.table().len() == 0,
            x.path() == file_index_path@,
            index_type@ == "query"@ ==> x.kind() == WorkOnWichPart::Query,
            index_type@ == "target"@ ==> x.kind() == WorkOnWichPart::Target,
            index_type@ != "query"@ && index_type@ != "target"@ ==> x.kind()
                == WorkOnWichPart::Both,
    {
        let x = Indexing {
            file_index_path: file_index_path.to_string(),
            index_type: WorkOnWichPart::from_name(index_type),
            index_table: Vec::new(),
        };
        assert(x.table() =~= Seq::<(Seq<char>, Seq<Span>)>::empty());
        x
    }

    /// An index that records nothing.
    pub fn empty() -> (x: Indexing)
        ensures
            x.wf(),
            x.table().len() == 0,
            x.path().len() == 0,
            x.kind() == WorkOnWichPart::Both,
    {
        let x = Indexing {
            file_index_path: String::new(),
            index_type: WorkOnWichPart::Both,
            index_table: Vec::new(),
        };
        assert(x.table() =~= Seq::<(Seq<char>, Seq<Span>)>::empty());
        x
    }

    /// Where the index is to be written; empty when nothing is recorded.
    pub fn file_index_path(&self) -> (p: &String)
        ensures
            p@ == self.path(),
    {
        &self.file_index_path
    }

    fn push_span(&mut self, key: &String, p: Span)
        requires
            old(self).wf(),
        ensures
            final(self).wf(),
            final(self).table() == append_span(old(self).table(), key@, p),
            final(self).kind() == old(self).kind(),
            final(self).path() == old(self).path(),
    {
        let ghost t = self.table();
        let n = self.index_table.len();
        let mut i: usize = 0;
        while i < n
            invariant
                n == self.index_table.len(),
                t == self.table(),
                self.wf(),
                self.kind() == old(self).kind(),
                self.path() == old(self).path(),
                t == old(self).table(),
                0 <= i <= n,
                forall|j: int| 0 <= j < i ==> (#[trigger] t[j]).0 != key@,
            decreases n - i,
        {
            if self.index_table[i].0 == *key {
                assert(t[i as int].0 == key@);
                proof {
                    let k = choose|k: int| 0 <= k < t.len() && (#[trigger] t[k]).0 == key@;
                    if k != i {
                        assert(t[k].0 != t[i as int].0);
                    }
                }
                let mut entry = (String::new(), Vec::new());
                let ghost before = self.index_table@;
                proof {
                    assert(before[i as int].1@ == t[i as int].1);
                }
                std::mem::swap(&mut entry, &mut self.index_table[i]);
                entry.1.push(p);
                let ghost ev = (entry.0@, entry.1@);
                self.index_table.set(i, entry);
                assert(self.table() =~= t.update(i as int, ev));
                assert(ev == (key@, t[i as int].1.push(p)));
                assert forall|x: int, y: int|
                    0 <= x < self.table().len() && 0 <= y < self.table().len() && x != y implies (
                    #[trigger] self.table()[x]).0 != (#[trigger] self.table()[y]).0 by {
                    if x == i {
                        assert(t[i as int].0 != t[y].0);
                    } else if y == i {
                        assert(t[x].0 != t[i as int].0);
                    } else {
                        assert(t[x].0 != t[y].0);
                    }
                }
                return ;
            }
            i += 1;
        }
        let mut spans: Vec<Span> = Vec::new();
        spans.push(p);
        let ghost ev = (key@, spans@);
        assert(spans@ =~= seq![p]);
        self.index_table.push((key.clone(), spans));
        assert(self.table() =~= t.push(ev));
    }

    fn run_both(&mut self, r: &Record)
        requires
            old(self).wf(),
        ensures
            final(self).wf(),
            final(self).table() == index_record(old(self).table(), WorkOnWichPart::Both, *r),
            final(self).kind() == old(self).kind(),
            final(self).path() == old(self).path(),
    {
        if r.read_a == r.read_b {
            self.push_span(&r.read_a, r.position);
        } else {
            self.push_span(&r.read_a, r.position);
            self.push_span(&r.read_b, r.position);
        }
    }

    fn run_query(&mut self, r: &Record)
        requires
            old(self).wf(),
        ensures
            final(self).wf(),
            final(self).table() == index_record(old(self).table(), WorkOnWichPart::Query, *r),
            final(self).kind() == old(self).kind(),
            final(self).path() == old(self).path(),
    {
        self.push_span(&r.read_a, r.position);
    }

    fn run_target(&mut self, r: &Record)
        requires
            old(self).wf(),
        ensures
            final(self).wf(),
            final(self).table() == index_record(old(self).table(), WorkOnWichPart::Target, *r),
            final(self).kind() == old(self).kind(),
            final(self).path() == old(self).path(),
    {
        self.push_span(&r.read_b, r.position);
    }

    /// The index lines: each read, with its merged runs of spans, in the
    /// order the reads were first seen.
    pub fn write(&self) -> (rows: Vec<(String, String)>)
        ensures
            rows@.len() == self.table().len(),
            forall|i: int|
                0 <= i < rows@.len() ==> (#[trigger] rows@[i]).0@ == self.table()[i].0 && rows@[i].1@
                    == spans_text(merge_spans(self.table()[i].1)),
    {
        let mut rows: Vec<(String, String)> = Vec::new();
        let mut i: usize = 0;
        while i < self.index_table.len()
            invariant
                0 <= i <= self.index_table.len(),
                rows@.len() == i,
                forall|j: int|
                    0 <= j < i ==> (#[trigger] rows@[j]).0@ == self.table()[j].0 && rows@[j].1@
                        == spans_text(merge_spans(self.table()[j].1)),
            decreases self.index_table.len() - i,
        {
            let e = &self.index_table[i];
            assert(self.table()[i as int] == (e.0@, e.1@));
            rows.push((e.0.clone(), spans_line(&e.1)));
            i += 1;
        }
        rows
    }

    /// Records the span of `r` under the reads it names; an index without a
    /// path records nothing.
    pub fn run(&mut self, r: &Record)
        requires
            old(self).wf(),
        ensures
            final(self).wf(),
            final(self).kind() == old(self).kind(),
            final(self).path() == old(self).path(),
            final(self).table() == if old(self).path().len() == 0 {
                old(self).table()
            } else {
                index_record(old(self).table(), old(self).kind(), *r)
            },
    {
        if self.file_index_path.as_str().is_empty() {
            return ;
        }
        match self.index_type {
            WorkOnWichPart::Both => self.run_both(r),
            WorkOnWichPart::Query => self.run_query(r),
            WorkOnWichPart::Target => self.run_target(r),
        }
    }
}

} // verus!
