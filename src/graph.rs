//! The overlap graph: best dovetail link per unordered pair of reads, and one
//! containment per contained read.

use vstd::prelude::*;

use crate::classify::{
    b_contains_a, containment_spec, dovetail_spec, internal_match_spec,
    is_containment, is_internal_match, is_b_containing_a, Threshold,
};
use crate::gfa_text::{containments_view, gfa_text, links_view, render};
use crate::record::Record;

verus! {

/// Orientation of a read in a link or a containment.
#[derive(Clone, Copy, Debug, PartialEq, Eq, Structural)]
pub enum Orientation {
    Forward,
    Reverse,
}

impl Orientation {
    /// The GFA sign of the orientation.
    pub open spec fn sign(self) -> Seq<char> {
        match self {
            Orientation::Forward => "+"@,
            Orientation::Reverse => "-"@,
        }
    }

    /// The GFA sign of the orientation.
    pub fn as_str(&self) -> (s: &'static str)
        ensures
            s@ == self.sign(),
    {
        match self {
            Orientation::Forward => "+",
            Orientation::Reverse => "-",
        }
    }
}

/// A read as a node of the graph: its identifier and its length.
pub type NodeId = (Seq<char>, u64);

/// A dovetail overlap: `from` in `from_orient` is followed by `to` in
/// `to_orient`, over `overlap` bases.
pub struct Link {
    pub from: String,
    pub from_length: u64,
    pub from_orient: Orientation,
    pub to: String,
    pub to_length: u64,
    pub to_orient: Orientation,
    pub overlap: u64,
}

pub struct LinkView {
    pub from: NodeId,
    pub from_orient: Orientation,
    pub to: NodeId,
    pub to_orient: Orientation,
    pub overlap: u64,
}

impl View for Link {
    type V = LinkView;

    open spec fn view(&self) -> LinkView {
        LinkView {
            from: (self.from@, self.from_length),
            from_orient: self.from_orient,
            to: (self.to@, self.to_length),
            to_orient: self.to_orient,
            overlap: self.overlap,
        }
    }
}

/// `contained` lies inside `container`, starting at `position` of the
/// container, over `overlap` bases.
pub struct ContainmentEntry {
    pub container: String,
    pub container_length: u64,
    pub container_orient: Orientation,
    pub contained: String,
    pub contained_length: u64,
    pub contained_orient: Orientation,
    pub position: u64,
    pub overlap: u64,
}

pub struct ContainmentView {
    pub container: NodeId,
    pub container_orient: Orientation,
    pub contained: NodeId,
    pub contained_orient: Orientation,
    pub position: u64,
    pub overlap: u64,
}

impl View for ContainmentEntry {
    type V = ContainmentView;

    open spec fn view(&self) -> ContainmentView {
        ContainmentView {
            container: (self.container@, self.container_length),
            container_orient: self.container_orient,
            contained: (self.contained@, self.contained_length),
            contained_orient: self.contained_orient,
            position: self.position,
            overlap: self.overlap,
        }
    }
}

/// Two links join the same unordered pair of reads.
pub open spec fn same_pair(x: LinkView, y: LinkView) -> bool {
    (x.from == y.from && x.to == y.to) || (x.from == y.to && x.to == y.from)
}

/// At most one link per unordered pair of reads.
pub open spec fn unique_pairs(ls: Seq<LinkView>) -> bool {
    forall|i: int, j: int|
        0 <= i < ls.len() && 0 <= j < ls.len() && i != j ==> !same_pair(
            #[trigger] ls[i],
            #[trigger] ls[j],
        )
}

/// At most one containment per contained read.
pub open spec fn unique_contained(cs: Seq<ContainmentView>) -> bool {
    forall|i: int, j: int|
        0 <= i < cs.len() && 0 <= j < cs.len() && i != j ==> (#[trigger] cs[i]).contained != (
        #[trigger] cs[j]).contained
}

/// `ls` with link `l` added: a link of the same pair is replaced only by a
/// strictly longer overlap.
pub open spec fn insert_link(ls: Seq<LinkView>, l: LinkView) -> Seq<LinkView> {
    if exists|i: int| 0 <= i < ls.len() && same_pair(#[trigger] ls[i], l) {
        let i = choose|i: int| 0 <= i < ls.len() && same_pair(#[trigger] ls[i], l);
        if ls[i].overlap < l.overlap {
            ls.update(i, l)
        } else {
            ls
        }
    } else {
        ls.push(l)
    }
}

/// `cs` with entry `c` added: an entry for the same contained read is
/// replaced, whatever its lengths.
pub open spec fn insert_containment(cs: Seq<ContainmentView>, c: ContainmentView) -> Seq<
    ContainmentView,
> {
    if exists|i: int| 0 <= i < cs.len() && (#[trigger] cs[i]).contained == c.contained {
        let i = choose|i: int| 0 <= i < cs.len() && (#[trigger] cs[i]).contained == c.contained;
        cs.update(i, c)
    } else {
        cs.push(c)
    }
}

pub open spec fn node_a(r: Record) -> NodeId {
    (r.read_a@, r.length_a)
}

pub open spec fn node_b(r: Record) -> NodeId {
    (r.read_b@, r.length_b)
}

pub open spec fn link_view(
    from: NodeId,
    fo: Orientation,
    to: NodeId,
    to_o: Orientation,
    overlap: u64,
) -> LinkView {
    LinkView { from, from_orient: fo, to, to_orient: to_o, overlap }
}

/// The link that a dovetail record yields: which read comes first, and in
/// which orientation, follows from the strand and the unaligned flanks.
pub open spec fn dovetail_link(r: Record) -> LinkView {
    let a = node_a(r);
    let b = node_b(r);
    let ov = r.overlap_spec() as u64;
    let f = Orientation::Forward;
    let v = Orientation::Reverse;
    if r.forward() {
        if r.begin_a > r.begin_b {
            link_view(a, f, b, f, ov)
        } else {
            link_view(b, f, a, f, ov)
        }
    } else if r.begin_a > r.tail_a() {
        if r.begin_a > r.tail_b() {
            link_view(a, f, b, v, ov)
        } else {
            link_view(b, f, a, v, ov)
        }
    } else if r.length_a - r.begin_a > r.end_b {
        link_view(a, v, b, f, ov)
    } else {
        link_view(b, v, a, f, ov)
    }
}

/// The containment entry that a containment record yields.
pub open spec fn containment_entry(r: Record) -> ContainmentView {
    let o = if r.forward() {
        Orientation::Forward
    } else {
        Orientation::Reverse
    };
    let ov = r.overlap_spec() as u64;
    if b_contains_a(r) {
        ContainmentView {
            container: node_b(r),
            container_orient: Orientation::Forward,
            contained: node_a(r),
            contained_orient: o,
            position: r.begin_b,
            overlap: ov,
        }
    } else {
        ContainmentView {
            container: node_a(r),
            container_orient: Orientation::Forward,
            contained: node_b(r),
            contained_orient: o,
            position: r.begin_a,
            overlap: ov,
        }
    }
}

/// What the graph holds: its policy and its accumulated links and
/// containments.
pub struct GraphView {
    pub keep_internal: bool,
    pub keep_containment: bool,
    pub threshold: Threshold,
    pub links: Seq<LinkView>,
    pub containments: Seq<ContainmentView>,
}

pub open spec fn graph_wf(g: GraphView) -> bool {
    unique_pairs(g.links) && unique_contained(g.containments)
}

/// The record goes to the links: a dovetail, or an internal match that the
/// graph keeps.
pub open spec fn routes_to_link(g: GraphView, r: Record) -> bool {
    if internal_match_spec(r, g.threshold) {
        g.keep_internal
    } else {
        dovetail_spec(r, g.threshold)
    }
}

/// The graph after one record.
pub open spec fn add_spec(g: GraphView, r: Record) -> GraphView {
    if routes_to_link(g, r) {
        GraphView { links: insert_link(g.links, dovetail_link(r)), ..g }
    } else if containment_spec(r, g.threshold) {
        GraphView { containments: insert_containment(g.containments, containment_entry(r)), ..g }
    } else {
        g
    }
}

/// Accumulates alignment records into a GFA1 graph.
pub struct Gfa1 {
    keep_internal: bool,
    keep_containment: bool,
    threshold: Threshold,
    links: Vec<Link>,
    containments: Vec<ContainmentEntry>,
}

impl View for Gfa1 {
    type V = GraphView;

    closed spec fn view(&self) -> GraphView {
        GraphView {
            keep_internal: self.keep_internal,
            keep_containment: self.keep_containment,
            threshold: self.threshold,
            links: self.links@.map_values(|l: Link| l@),
            containments: self.containments@.map_values(|c: ContainmentEntry| c@),
        }
    }
}

impl Gfa1 {
    pub open spec fn wf(&self) -> bool {
        graph_wf(self@)
    }

    /// An empty graph with the given policy.
    pub fn new(keep_internal: bool, keep_containment: bool, internal_threshold: Threshold) -> (g:
        Gfa1)
        ensures
            g.wf(),
            g@.keep_internal == keep_internal,
            g@.keep_containment == keep_containment,
            g@.threshold == internal_threshold,
            g@.links.len() == 0,
            g@.containments.len() == 0,
    {
        let g = Gfa1 {
            keep_internal,
            keep_containment,
            threshold: internal_threshold,
            links: Vec::new(),
            containments: Vec::new(),
        };
        assert(g@.links =~= Seq::<LinkView>::empty());
        assert(g@.containments =~= Seq::<ContainmentView>::empty());
        g
    }

    /// The GFA1 text of the graph: header, segments, links, and the
    /// containments when they are kept.
    pub fn write(&self) -> (s: String)
        ensures
            s@ == gfa_text(self@),
    {
        assert(links_view(self.links@) =~= self@.links);
        assert(containments_view(self.containments@) =~= self@.containments);
        render(&self.links, &self.containments, self.keep_containment)
    }

    /// Folds one record into the graph.
    pub fn add(&mut self, record: &Record)
        requires
            old(self).wf(),
            record.wf(),
        ensures
            final(self).wf(),
            final(self)@ == add_spec(old(self)@, *record),
    {
        if is_internal_match(record, self.threshold) {
            self.add_internalmatch(record);
        } else if is_containment(record, self.threshold) {
            self.add_containment(record);
        } else {
            self.add_dovetails(record);
        }
    }

    fn add_internalmatch(&mut self, record: &Record)
        requires
            old(self).wf(),
            record.wf(),
            internal_match_spec(*record, old(self)@.threshold),
        ensures
            final(self).wf(),
            final(self)@ == add_spec(old(self)@, *record),
    {
        if self.keep_internal {
            self.add_dovetails(record);
        }
    }

    fn add_containment(&mut self, record: &Record)
        requires
            old(self).wf(),
            record.wf(),
            containment_spec(*record, old(self)@.threshold),
        ensures
            final(self).wf(),
            final(self)@ == add_spec(old(self)@, *record),
    {
        let orient = if record.strand == '+' {
            Orientation::Forward
        } else {
            Orientation::Reverse
        };
        let entry = if is_b_containing_a(record) {
            ContainmentEntry {
                container: record.read_b.clone(),
                container_length: record.length_b,
                container_orient: Orientation::Forward,
                contained: record.read_a.clone(),
                contained_length: record.length_a,
                contained_orient: orient,
                position: record.begin_b,
                overlap: record.length(),
            }
        } else {
            ContainmentEntry {
                container: record.read_a.clone(),
                container_length: record.length_a,
                container_orient: Orientation::Forward,
                contained: record.read_b.clone(),
                contained_length: record.length_b,
                contained_orient: orient,
                position: record.begin_a,
                overlap: record.length(),
            }
        };
        assert(entry@ == containment_entry(*record));
        self.set_containment(entry);
    }

    fn add_dovetails(&mut self, record: &Record)
        requires
            old(self).wf(),
            record.wf(),
            routes_to_link(old(self)@, *record),
        ensures
            final(self).wf(),
            final(self)@ == add_spec(old(self)@, *record),
    {
        let f = Orientation::Forward;
        let v = Orientation::Reverse;
        let a = record.read_a.clone();
        let b = record.read_b.clone();
        let la = record.length_a;
        let lb = record.length_b;
        let ov = record.length();
        let link = if record.strand == '+' {
            if record.begin_a > record.begin_b {
                Link { from: a, from_length: la, from_orient: f, to: b, to_length: lb, to_orient: f, overlap: ov }
            } else {
                Link { from: b, from_length: lb, from_orient: f, to: a, to_length: la, to_orient: f, overlap: ov }
            }
        } else if record.begin_a > record.len_to_end_a() {
            if record.begin_a > record.len_to_end_b() {
                Link { from: a, from_length: la, from_orient: f, to: b, to_length: lb, to_orient: v, overlap: ov }
            } else {
                Link { from: b, from_length: lb, from_orient: f, to: a, to_length: la, to_orient: v, overlap: ov }
            }
        } else if record.length_a - record.begin_a > record.end_b {
            Link { from: a, from_length: la, from_orient: v, to: b, to_length: lb, to_orient: f, overlap: ov }
        } else {
            Link { from: b, from_length: lb, from_orient: v, to: a, to_length: la, to_orient: f, overlap: ov }
        };
        assert(link@ == dovetail_link(*record));
        self.add_edge(link);
    }

    /// Inserts `link`, or replaces the link of the same pair when `link` has
    /// a strictly longer overlap.
    fn add_edge(&mut self, link: Link)
        requires
            old(self).wf(),
        ensures
            final(self).wf(),
            final(self)@ == (GraphView { links: insert_link(old(self)@.links, link@), ..old(self)@ }),
    {
        let ghost ls = self@.links;
        let n = self.links.len();
        let mut i: usize = 0;
        while i < n
            invariant
                n == self.links.len(),
                ls == self@.links,
                self@ == old(self)@,
                self.wf(),
                unique_pairs(ls),
                0 <= i <= n,
                forall|j: int| 0 <= j < i ==> !same_pair(#[trigger] ls[j], link@),
            decreases n - i,
        {
            let e = &self.links[i];
            assert(ls[i as int] == e@);
            let same = (e.from == link.from && e.from_length == link.from_length && e.to == link.to
                && e.to_length == link.to_length) || (e.from == link.to && e.from_length
                == link.to_length && e.to == link.from && e.to_length == link.from_length);
            if same {
                assert(same_pair(ls[i as int], link@));
                proof {
                    let k = choose|k: int| 0 <= k < ls.len() && same_pair(#[trigger] ls[k], link@);
                    if k != i {
                        assert(!same_pair(ls[k], ls[i as int]));
                    }
                }
                if e.overlap < link.overlap {
                    let ghost lv = link@;
                    self.links.set(i, link);
                    assert(self@.links =~= ls.update(i as int, lv));
                    assert forall|x: int, y: int|
                        0 <= x < self@.links.len() && 0 <= y < self@.links.len() && x != y
                            implies !same_pair(
                        #[trigger] self@.links[x],
                        #[trigger] self@.links[y],
                    ) by {
                        if x == i {
                            assert(!same_pair(ls[i as int], ls[y]));
                        } else if y == i {
                            assert(!same_pair(ls[x], ls[i as int]));
                        }
                    }
                }
                assert(self@.containments == old(self)@.containments);
                return ;
            }
            i += 1;
        }
        let ghost lv = link@;
        self.links.push(link);
        assert(self@.links =~= ls.push(lv));
    }

    /// Sets the containment of `entry`'s contained read to `entry`.
    fn set_containment(&mut self, entry: ContainmentEntry)
        requires
            old(self).wf(),
        ensures
            final(self).wf(),
            final(self)@ == (GraphView {
                containments: insert_containment(old(self)@.containments, entry@),
                ..old(self)@
            }),
    {
        let ghost cs = self@.containments;
        let n = self.containments.len();
        let mut i: usize = 0;
        while i < n
            invariant
                n == self.containments.len(),
                cs == self@.containments,
                self@ == old(self)@,
                self.wf(),
                unique_contained(cs),
                0 <= i <= n,
                forall|j: int| 0 <= j < i ==> (#[trigger] cs[j]).contained != entry@.contained,
            decreases n - i,
        {
            let e = &self.containments[i];
            assert(cs[i as int] == e@);
            if e.contained == entry.contained && e.contained_length == entry.contained_length {
                proof {
                    let k = choose|k: int|
                        0 <= k < cs.len() && (#[trigger] cs[k]).contained == entry@.contained;
                    if k != i {
                        assert(cs[k].contained != cs[i as int].contained);
                    }
                }
                let ghost cv = entry@;
                self.containments.set(i, entry);
                assert(self@.containments =~= cs.update(i as int, cv));
                assert(self@.links == old(self)@.links);
                assert forall|x: int, y: int|
                    0 <= x < self@.containments.len() && 0 <= y < self@.containments.len() && x
                        != y implies (#[trigger] self@.containments[x]).contained != (
                    #[trigger] self@.containments[y]).contained by {
                    if x == i {
                        assert(cs[i as int].contained != cs[y].contained);
                    } else if y == i {
                        assert(cs[x].contained != cs[i as int].contained);
                    }
                }
                return ;
            }
            i += 1;
        }
        let ghost cv = entry@;
        self.containments.push(entry);
        assert(self@.containments =~= cs.push(cv));
    }
}


/// `ls` holds exactly one link of the pair of `l`, and its overlap is `o`.
pub open spec fn one_link(ls: Seq<LinkView>, l: LinkView, o: u64) -> bool {
    exists|i: int|
        0 <= i < ls.len() && same_pair(#[trigger] ls[i], l) && ls[i].overlap == o && forall|j: int|
            0 <= j < ls.len() && same_pair(#[trigger] ls[j], l) ==> j == i
}

/// `cs` holds exactly one entry for the contained read of `c`, and it is `c`.
pub open spec fn one_containment(cs: Seq<ContainmentView>, c: ContainmentView) -> bool {
    exists|i: int|
        0 <= i < cs.len() && #[trigger] cs[i] == c && forall|j: int|
            0 <= j < cs.len() && (#[trigger] cs[j]).contained == c.contained ==> j == i
}

proof fn lemma_same_pair_equiv(x: LinkView, y: LinkView, z: LinkView)
    ensures
        same_pair(x, y) ==> same_pair(y, x),
        same_pair(x, y) && same_pair(y, z) ==> same_pair(x, z),
{
}

/// Adding a link keeps one link per pair, and leaves for the pair of `l`
/// exactly one link whose overlap is the larger of the old one and `l`'s.
proof fn lemma_insert_link(ls: Seq<LinkView>, l: LinkView)
    requires
        unique_pairs(ls),
    ensures
        unique_pairs(insert_link(ls, l)),
        forall|i: int|
            0 <= i < ls.len() && same_pair(#[trigger] ls[i], l) ==> one_link(
                insert_link(ls, l),
                l,
                if ls[i].overlap < l.overlap {
                    l.overlap
                } else {
                    ls[i].overlap
                },
            ),
        (forall|i: int| 0 <= i < ls.len() ==> !same_pair(#[trigger] ls[i], l)) ==> one_link(
            insert_link(ls, l),
            l,
            l.overlap,
        ),
{
    let res = insert_link(ls, l);
    if exists|i: int| 0 <= i < ls.len() && same_pair(#[trigger] ls[i], l) {
        let k = choose|i: int| 0 <= i < ls.len() && same_pair(#[trigger] ls[i], l);
        assert forall|i: int| 0 <= i < ls.len() && same_pair(#[trigger] ls[i], l) implies i == k by {
            lemma_same_pair_equiv(ls[i], l, ls[k]);
            lemma_same_pair_equiv(ls[k], l, l);
        }
        assert forall|x: int, y: int|
            0 <= x < res.len() && 0 <= y < res.len() && x != y implies !same_pair(
            #[trigger] res[x],
            #[trigger] res[y],
        ) by {
            lemma_same_pair_equiv(res[x], res[y], l);
            lemma_same_pair_equiv(res[x], l, ls[k]);
            lemma_same_pair_equiv(res[y], l, ls[k]);
            lemma_same_pair_equiv(ls[k], l, res[y]);
            lemma_same_pair_equiv(ls[k], l, res[x]);
            lemma_same_pair_equiv(res[x], ls[k], res[y]);
            lemma_same_pair_equiv(ls[k], res[x], res[y]);
            lemma_same_pair_equiv(res[y], ls[k], res[x]);
        }
        assert forall|j: int| 0 <= j < res.len() && same_pair(#[trigger] res[j], l) implies j == k by {
            if j != k {
                lemma_same_pair_equiv(res[j], l, ls[k]);
                lemma_same_pair_equiv(ls[k], l, l);
            }
        }
        lemma_same_pair_equiv(ls[k], l, l);
        lemma_same_pair_equiv(l, l, l);
        assert(same_pair(res[k], l));
    } else {
        assert forall|x: int, y: int|
            0 <= x < res.len() && 0 <= y < res.len() && x != y implies !same_pair(
            #[trigger] res[x],
            #[trigger] res[y],
        ) by {
            lemma_same_pair_equiv(res[x], res[y], l);
        }
        let k = ls.len() as int;
        assert forall|j: int| 0 <= j < res.len() && same_pair(#[trigger] res[j], l) implies j == k by {
        }
        assert(same_pair(res[k], l));
    }
}

/// Setting a containment keeps one entry per contained read, and leaves
/// exactly one entry for the read that `c` contains: `c` itself.
proof fn lemma_insert_containment(cs: Seq<ContainmentView>, c: ContainmentView)
    requires
        unique_contained(cs),
    ensures
        unique_contained(insert_containment(cs, c)),
        one_containment(insert_containment(cs, c), c),
{
    if exists|i: int| 0 <= i < cs.len() && (#[trigger] cs[i]).contained == c.contained {
        let k = choose|i: int| 0 <= i < cs.len() && (#[trigger] cs[i]).contained == c.contained;
        lemma_replace_unique(cs, k, c);
    } else {
        let res = cs.push(c);
        assert(insert_containment(cs, c) == res);
        let k = cs.len() as int;
        assert forall|x: int, y: int|
            0 <= x < res.len() && 0 <= y < res.len() && x != y implies (#[trigger] res[x]).contained
            != (#[trigger] res[y]).contained by {
            if x != k && y != k {
                assert(res[x] == cs[x] && res[y] == cs[y]);
            } else if x == k {
                assert(res[y] == cs[y]);
            } else {
                assert(res[x] == cs[x]);
            }
        }
        assert forall|j: int|
            0 <= j < res.len() && (#[trigger] res[j]).contained == c.contained implies j == k by {
            if j != k {
                assert(res[j] == cs[j]);
            }
        }
        assert(res[k] == c);
    }
}

proof fn lemma_replace_unique(cs: Seq<ContainmentView>, k: int, c: ContainmentView)
    requires
        unique_contained(cs),
        0 <= k < cs.len(),
        cs[k].contained == c.contained,
    ensures
        unique_contained(cs.update(k, c)),
        one_containment(cs.update(k, c), c),
{
    let res = cs.update(k, c);
    assert forall|x: int, y: int|
        0 <= x < res.len() && 0 <= y < res.len() && x != y implies (#[trigger] res[x]).contained
        != (#[trigger] res[y]).contained by {
        if x == k {
            assert(res[y] == cs[y]);
            assert(cs[k].contained != cs[y].contained);
        } else if y == k {
            assert(res[x] == cs[x]);
            assert(cs[x].contained != cs[k].contained);
        } else {
            assert(res[x] == cs[x] && res[y] == cs[y]);
            assert(cs[x].contained != cs[y].contained);
        }
    }
    assert forall|j: int|
        0 <= j < res.len() && (#[trigger] res[j]).contained == c.contained implies j == k by {
        if j != k {
            assert(res[j] == cs[j]);
            assert(cs[j].contained != cs[k].contained);
        }
    }
    assert(res[k] == c);
    assert(0 <= k < res.len() && res[k] == c && forall|j: int|
        0 <= j < res.len() && (#[trigger] res[j]).contained == c.contained ==> j == k);
}

/// Adding a record keeps the graph well formed and its policy unchanged.
pub proof fn lemma_add_preserves(g: GraphView, r: Record)
    requires
        graph_wf(g),
    ensures
        graph_wf(add_spec(g, r)),
        add_spec(g, r).keep_internal == g.keep_internal,
        add_spec(g, r).keep_containment == g.keep_containment,
        add_spec(g, r).threshold == g.threshold,
{
    lemma_insert_link(g.links, dovetail_link(r));
    lemma_insert_containment(g.containments, containment_entry(r));
}

/// Two records that give links between the same two reads leave exactly one
/// link between them, whose overlap is the larger of the two, in whichever
/// order they are added.
pub proof fn lemma_edge_dedup(g: GraphView, r1: Record, r2: Record)
    requires
        graph_wf(g),
        routes_to_link(g, r1),
        routes_to_link(g, r2),
        same_pair(dovetail_link(r1), dovetail_link(r2)),
        forall|i: int| 0 <= i < g.links.len() ==> !same_pair(#[trigger] g.links[i], dovetail_link(r1)),
    ensures
        one_link(
            add_spec(add_spec(g, r1), r2).links,
            dovetail_link(r1),
            if dovetail_link(r1).overlap < dovetail_link(r2).overlap {
                dovetail_link(r2).overlap
            } else {
                dovetail_link(r1).overlap
            },
        ),
        one_link(
            add_spec(add_spec(g, r2), r1).links,
            dovetail_link(r1),
            if dovetail_link(r1).overlap < dovetail_link(r2).overlap {
                dovetail_link(r2).overlap
            } else {
                dovetail_link(r1).overlap
            },
        ),
{
    let l1 = dovetail_link(r1);
    let l2 = dovetail_link(r2);
    lemma_same_pair_equiv(l1, l2, l2);
    assert forall|i: int| 0 <= i < g.links.len() implies !same_pair(#[trigger] g.links[i], l2) by {
        lemma_same_pair_equiv(g.links[i], l2, l1);
    }
    lemma_add_preserves(g, r1);
    lemma_add_preserves(g, r2);
    lemma_insert_link(g.links, l1);
    lemma_insert_link(g.links, l2);
    let ls1 = add_spec(g, r1).links;
    let ls2 = add_spec(g, r2).links;
    lemma_insert_link(ls1, l2);
    lemma_insert_link(ls2, l1);
    let i1 = choose|i: int|
        0 <= i < ls1.len() && same_pair(#[trigger] ls1[i], l1) && ls1[i].overlap == l1.overlap
            && forall|j: int| 0 <= j < ls1.len() && same_pair(#[trigger] ls1[j], l1) ==> j == i;
    lemma_same_pair_equiv(ls1[i1], l1, l2);
    let i2 = choose|i: int|
        0 <= i < ls2.len() && same_pair(#[trigger] ls2[i], l2) && ls2[i].overlap == l2.overlap
            && forall|j: int| 0 <= j < ls2.len() && same_pair(#[trigger] ls2[j], l2) ==> j == i;
    lemma_same_pair_equiv(ls2[i2], l2, l1);
    lemma_one_link_same_pair(insert_link(ls1, l2), l2, l1);
}

proof fn lemma_one_link_same_pair(ls: Seq<LinkView>, l: LinkView, m: LinkView)
    requires
        same_pair(l, m),
    ensures
        forall|o: u64| one_link(ls, l, o) ==> #[trigger] one_link(ls, m, o),
{
    assert forall|o: u64| one_link(ls, l, o) implies #[trigger] one_link(ls, m, o) by {
        let i = choose|i: int|
            0 <= i < ls.len() && same_pair(#[trigger] ls[i], l) && ls[i].overlap == o && forall|
                j: int,
            | 0 <= j < ls.len() && same_pair(#[trigger] ls[j], l) ==> j == i;
        lemma_same_pair_equiv(ls[i], l, m);
        assert forall|j: int| 0 <= j < ls.len() && same_pair(#[trigger] ls[j], m) implies j == i by {
            lemma_same_pair_equiv(ls[j], m, l);
            lemma_same_pair_equiv(l, m, m);
        }
    }
}

/// Two containment records for the same contained read leave exactly one
/// entry for it: the one of the record added last.
pub proof fn lemma_containment_replace(g: GraphView, r1: Record, r2: Record)
    requires
        graph_wf(g),
        containment_spec(r1, g.threshold),
        containment_spec(r2, g.threshold),
        containment_entry(r1).contained == containment_entry(r2).contained,
    ensures
        one_containment(add_spec(add_spec(g, r1), r2).containments, containment_entry(r2)),
{
    lemma_add_preserves(g, r1);
    let g1 = add_spec(g, r1);
    lemma_insert_containment(g1.containments, containment_entry(r2));
}

pub open spec fn flip(o: Orientation) -> Orientation {
    match o {
        Orientation::Forward => Orientation::Reverse,
        Orientation::Reverse => Orientation::Forward,
    }
}

/// The same overlap read from the other strand: `to` reversed, then `from`
/// reversed.
pub open spec fn reverse_link(l: LinkView) -> LinkView {
    LinkView {
        from: l.to,
        from_orient: flip(l.to_orient),
        to: l.from,
        to_orient: flip(l.from_orient),
        overlap: l.overlap,
    }
}

/// Exchanging sides A and B of a containment record gives the same entry.
/// On opposite strands this holds when A's start flank differs from B's end
/// flank and B's start flank differs from A's end flank (see
/// `lemma_swap_symmetry`).
pub proof fn lemma_swap_same_entry(r: Record, t: Threshold)
    requires
        r.wf(),
        r.forward() || (r.begin_a != r.tail_b() && r.begin_b != r.tail_a()),
        containment_spec(r, t),
    ensures
        containment_entry(r.swapped()) == containment_entry(r),
{
    crate::classify::lemma_swap_symmetry(r, t);
}

/// Exchanging sides A and B of a record gives the same dovetail link: as it
/// is on the same strand when the intervals start at different offsets; as
/// it is or read from the other strand on opposite strands, when both reads
/// have their longer unaligned flank on the same side.
pub proof fn lemma_swap_same_link(r: Record)
    ensures
        r.forward() && r.begin_a != r.begin_b ==> dovetail_link(r.swapped()) == dovetail_link(r),
        !r.forward() && (r.begin_a > r.tail_a()) == (r.begin_b > r.tail_b()) ==> (dovetail_link(
            r.swapped(),
        ) == dovetail_link(r) || dovetail_link(r.swapped()) == reverse_link(dovetail_link(r))),
{
}

} // verus!
