//! GFA1 text of an overlap graph.

use vstd::prelude::*;
use vstd::string::StringExecFns;

use crate::graph::{ContainmentEntry, ContainmentView, GraphView, Link, LinkView, NodeId};

verus! {

pub open spec fn digit(d: nat) -> Seq<char> {
    if d == 0 {
        "0"@
    } else if d == 1 {
        "1"@
    } else if d == 2 {
        "2"@
    } else if d == 3 {
        "3"@
    } else if d == 4 {
        "4"@
    } else if d == 5 {
        "5"@
    } else if d == 6 {
        "6"@
    } else if d == 7 {
        "7"@
    } else if d == 8 {
        "8"@
    } else {
        "9"@
    }
}

/// Decimal digits of `n`, most significant first, without leading zeros.
pub open spec fn dec(n: nat) -> Seq<char>
    decreases n,
{
    if n < 10 {
        digit(n)
    } else {
        dec(n / 10) + digit(n % 10)
    }
}

pub open spec fn header() -> Seq<char> {
    "H\tVN:Z:1.0\n"@
}

pub open spec fn segment_line(n: NodeId) -> Seq<char> {
    "S\t"@ + n.0 + "\t*\tLN:i:"@ + dec(n.1 as nat) + "\n"@
}

pub open spec fn link_line(l: LinkView) -> Seq<char> {
    "L\t"@ + l.from.0 + "\t"@ + l.from_orient.sign() + "\t"@ + l.to.0 + "\t"@ + l.to_orient.sign()
        + "\t"@ + dec(l.overlap as nat) + "M\n"@
}

pub open spec fn containment_line(c: ContainmentView) -> Seq<char> {
    "C\t"@ + c.container.0 + "\t"@ + c.container_orient.sign() + "\t"@ + c.contained.0 + "\t"@
        + c.contained_orient.sign() + "\t"@ + dec(c.position as nat) + "\t"@ + dec(
        c.overlap as nat,
    ) + "M\n"@
}

pub open spec fn segments_text(ns: Seq<NodeId>) -> Seq<char>
    decreases ns.len(),
{
    if ns.len() == 0 {
        Seq::empty()
    } else {
        segments_text(ns.drop_last()) + segment_line(ns.last())
    }
}

pub open spec fn links_text(ls: Seq<LinkView>) -> Seq<char>
    decreases ls.len(),
{
    if ls.len() == 0 {
        Seq::empty()
    } else {
        links_text(ls.drop_last()) + link_line(ls.last())
    }
}

pub open spec fn containments_text(cs: Seq<ContainmentView>) -> Seq<char>
    decreases cs.len(),
{
    if cs.len() == 0 {
        Seq::empty()
    } else {
        containments_text(cs.drop_last()) + containment_line(cs.last())
    }
}

/// Some containment has `n` as its contained read.
pub open spec fn is_contained(cs: Seq<ContainmentView>, n: NodeId) -> bool {
    exists|i: int| 0 <= i < cs.len() && (#[trigger] cs[i]).contained == n
}

/// A link is written unless containments are dropped and one of its reads is
/// contained.
pub open spec fn retained(l: LinkView, cs: Seq<ContainmentView>, keep_containment: bool) -> bool {
    keep_containment || (!is_contained(cs, l.from) && !is_contained(cs, l.to))
}

pub open spec fn kept_links(
    ls: Seq<LinkView>,
    cs: Seq<ContainmentView>,
    keep_containment: bool,
) -> Seq<LinkView>
    decreases ls.len(),
{
    if ls.len() == 0 {
        Seq::empty()
    } else {
        let p = kept_links(ls.drop_last(), cs, keep_containment);
        if retained(ls.last(), cs, keep_containment) {
            p.push(ls.last())
        } else {
            p
        }
    }
}

/// Container and contained read of each entry, in order.
pub open spec fn containment_nodes(cs: Seq<ContainmentView>) -> Seq<NodeId>
    decreases cs.len(),
{
    if cs.len() == 0 {
        Seq::empty()
    } else {
        containment_nodes(cs.drop_last()).push(cs.last().container).push(cs.last().contained)
    }
}

/// Both reads of each link, in order.
pub open spec fn link_nodes(ls: Seq<LinkView>) -> Seq<NodeId>
    decreases ls.len(),
{
    if ls.len() == 0 {
        Seq::empty()
    } else {
        link_nodes(ls.drop_last()).push(ls.last().from).push(ls.last().to)
    }
}

pub open spec fn add_unseen(d: Seq<NodeId>, x: NodeId) -> Seq<NodeId> {
    if d.contains(x) {
        d
    } else {
        d.push(x)
    }
}

/// `s` with each element kept at its first occurrence only.
pub open spec fn dedup(s: Seq<NodeId>) -> Seq<NodeId>
    decreases s.len(),
{
    if s.len() == 0 {
        Seq::empty()
    } else {
        add_unseen(dedup(s.drop_last()), s.last())
    }
}

/// The reads written as segments: those of the kept containments, then
/// those of the written links, each once.
pub open spec fn segments_of(
    ls: Seq<LinkView>,
    cs: Seq<ContainmentView>,
    keep_containment: bool,
) -> Seq<NodeId> {
    let from_containments = if keep_containment {
        containment_nodes(cs)
    } else {
        Seq::empty()
    };
    dedup(from_containments + link_nodes(kept_links(ls, cs, keep_containment)))
}

pub open spec fn text_of(ls: Seq<LinkView>, cs: Seq<ContainmentView>, keep_containment: bool) -> Seq<
    char,
> {
    let tail = if keep_containment {
        containments_text(cs)
    } else {
        Seq::empty()
    };
    header() + segments_text(segments_of(ls, cs, keep_containment)) + links_text(
        kept_links(ls, cs, keep_containment),
    ) + tail
}

/// The reads that the GFA1 text of `g` holds as segments.
pub open spec fn segments(g: GraphView) -> Seq<NodeId> {
    segments_of(g.links, g.containments, g.keep_containment)
}

/// The GFA1 text of a graph.
pub open spec fn gfa_text(g: GraphView) -> Seq<char> {
    text_of(g.links, g.containments, g.keep_containment)
}

pub open spec fn links_view(ls: Seq<Link>) -> Seq<LinkView> {
    ls.map_values(|l: Link| l@)
}

pub open spec fn containments_view(cs: Seq<ContainmentEntry>) -> Seq<ContainmentView> {
    cs.map_values(|c: ContainmentEntry| c@)
}

pub open spec fn seen_view(v: Seq<(String, u64)>) -> Seq<NodeId> {
    v.map_values(|p: (String, u64)| (p.0@, p.1))
}

fn digit_str(d: u64) -> (s: &'static str)
    requires
        d < 10,
    ensures
        s@ == digit(d as nat),
{
    if d == 0 {
        "0"
    } else if d == 1 {
        "1"
    } else if d == 2 {
        "2"
    } else if d == 3 {
        "3"
    } else if d == 4 {
        "4"
    } else if d == 5 {
        "5"
    } else if d == 6 {
        "6"
    } else if d == 7 {
        "7"
    } else if d == 8 {
        "8"
    } else {
        "9"
    }
}

/// Appends the decimal digits of `n`.
pub fn push_decimal(out: &mut String, n: u64)
    ensures
        final(out)@ == old(out)@ + dec(n as nat),
    decreases n,
{
    if n >= 10 {
        push_decimal(out, n / 10);
    }
    out.append(digit_str(n % 10));
    assert(final(out)@ =~= old(out)@ + dec(n as nat));
}

proof fn lemma_segments_text_push(ns: Seq<NodeId>, x: NodeId)
    ensures
        segments_text(ns.push(x)) == segments_text(ns) + segment_line(x),
{
    assert(ns.push(x).drop_last() =~= ns);
}

proof fn lemma_links_text_push(ls: Seq<LinkView>, x: LinkView)
    ensures
        links_text(ls.push(x)) == links_text(ls) + link_line(x),
{
    assert(ls.push(x).drop_last() =~= ls);
}

proof fn lemma_dedup_push(s: Seq<NodeId>, x: NodeId)
    ensures
        dedup(s.push(x)) == add_unseen(dedup(s), x),
{
    assert(s.push(x).drop_last() =~= s);
}

proof fn lemma_take_step<T>(s: Seq<T>, i: int)
    requires
        0 <= i < s.len(),
    ensures
        s.take(i + 1).drop_last() =~= s.take(i),
        s.take(i + 1).last() == s[i],
        s.take(i + 1).len() == i + 1,
{
}

fn contains_node(seen: &Vec<(String, u64)>, id: &String, len: u64) -> (b: bool)
    ensures
        b == seen_view(seen@).contains((id@, len)),
{
    let mut i: usize = 0;
    while i < seen.len()
        invariant
            0 <= i <= seen.len(),
            forall|j: int| 0 <= j < i ==> seen_view(seen@)[j] != (id@, len),
        decreases seen.len() - i,
    {
        if seen[i].0 == *id && seen[i].1 == len {
            assert(seen_view(seen@)[i as int] == (id@, len));
            return true;
        }
        i += 1;
    }
    false
}

/// Whether some entry of `cs` has `(id, len)` as its contained read.
fn contains_contained(cs: &Vec<ContainmentEntry>, id: &String, len: u64) -> (b: bool)
    ensures
        b == is_contained(containments_view(cs@), (id@, len)),
{
    let ghost v = containments_view(cs@);
    let mut i: usize = 0;
    while i < cs.len()
        invariant
            0 <= i <= cs.len(),
            v == containments_view(cs@),
            forall|j: int| 0 <= j < i ==> (#[trigger] v[j]).contained != (id@, len),
        decreases cs.len() - i,
    {
        if cs[i].contained == *id && cs[i].contained_length == len {
            assert(v[i as int].contained == (id@, len));
            return true;
        }
        i += 1;
    }
    false
}

/// Writes the segment line of `(id, len)` unless it was written before.
fn emit_segment(
    out: &mut String,
    seen: &mut Vec<(String, u64)>,
    id: &String,
    len: u64,
    Ghost(p): Ghost<Seq<char>>,
)
    requires
        old(out)@ == p + segments_text(seen_view(old(seen)@)),
    ensures
        seen_view(final(seen)@) == add_unseen(seen_view(old(seen)@), (id@, len)),
        final(out)@ == p + segments_text(seen_view(final(seen)@)),
{
    if !contains_node(seen, id, len) {
        let ghost o = out@;
        out.append("S\t");
        out.append(id.as_str());
        out.append("\t*\tLN:i:");
        push_decimal(out, len);
        out.append("\n");
        assert(out@ =~= o + segment_line((id@, len)));
        let ghost sv = seen_view(seen@);
        seen.push((id.clone(), len));
        assert(seen_view(seen@) =~= sv.push((id@, len)));
        proof {
            lemma_segments_text_push(sv, (id@, len));
        }
        assert(out@ =~= p + segments_text(seen_view(seen@)));
    }
}

fn emit_link(out: &mut String, l: &Link)
    ensures
        final(out)@ == old(out)@ + link_line(l@),
{
    let ghost o = out@;
    out.append("L\t");
    out.append(l.from.as_str());
    out.append("\t");
    out.append(l.from_orient.as_str());
    out.append("\t");
    out.append(l.to.as_str());
    out.append("\t");
    out.append(l.to_orient.as_str());
    out.append("\t");
    push_decimal(out, l.overlap);
    out.append("M\n");
    assert(out@ =~= o + link_line(l@));
}

fn emit_containment(out: &mut String, c: &ContainmentEntry)
    ensures
        final(out)@ == old(out)@ + containment_line(c@),
{
    let ghost o = out@;
    out.append("C\t");
    out.append(c.container.as_str());
    out.append("\t");
    out.append(c.container_orient.as_str());
    out.append("\t");
    out.append(c.contained.as_str());
    out.append("\t");
    out.append(c.contained_orient.as_str());
    out.append("\t");
    push_decimal(out, c.position);
    out.append("\t");
    push_decimal(out, c.overlap);
    out.append("M\n");
    assert(out@ =~= o + containment_line(c@));
}

/// Whether link `l` is written.
fn is_retained(l: &Link, cs: &Vec<ContainmentEntry>, keep_containment: bool) -> (b: bool)
    ensures
        b == retained(l@, containments_view(cs@), keep_containment),
{
    keep_containment || (!contains_contained(cs, &l.from, l.from_length) && !contains_contained(
        cs,
        &l.to,
        l.to_length,
    ))
}

/// The GFA1 text of the given links and containments.
pub fn render(links: &Vec<Link>, containments: &Vec<ContainmentEntry>, keep_containment: bool) -> (s:
    String)
    ensures
        s@ == text_of(links_view(links@), containments_view(containments@), keep_containment),
{
    let ghost ls = links_view(links@);
    let ghost cs = containments_view(containments@);
    let mut out = String::new();
    out.append("H\tVN:Z:1.0\n");
    let mut seen: Vec<(String, u64)> = Vec::new();
    assert(seen_view(seen@) =~= Seq::<NodeId>::empty());
    assert(out@ =~= header() + segments_text(seen_view(seen@)));
    let ghost pre: Seq<NodeId> = Seq::empty();
    if keep_containment {
        let mut i: usize = 0;
        while i < containments.len()
            invariant
                0 <= i <= containments.len(),
                cs == containments_view(containments@),
                seen_view(seen@) == dedup(containment_nodes(cs.take(i as int))),
                out@ == header() + segments_text(seen_view(seen@)),
            decreases containments.len() - i,
        {
            let c = &containments[i];
            proof {
                lemma_take_step(cs, i as int);
                let t = cs.take(i as int);
                lemma_dedup_push(containment_nodes(t), c@.container);
                lemma_dedup_push(containment_nodes(t).push(c@.container), c@.contained);
            }
            emit_segment(&mut out, &mut seen, &c.container, c.container_length, Ghost(header()));
            emit_segment(&mut out, &mut seen, &c.contained, c.contained_length, Ghost(header()));
            i += 1;
        }
        assert(cs.take(cs.len() as int) =~= cs);
        proof {
            pre = containment_nodes(cs);
        }
    }
    assert(seen_view(seen@) == dedup(pre + link_nodes(kept_links(ls.take(0), cs, keep_containment))))
        by {
        assert(ls.take(0) =~= Seq::<LinkView>::empty());
        assert(pre + Seq::<NodeId>::empty() =~= pre);
    }
    let mut j: usize = 0;
    while j < links.len()
        invariant
            0 <= j <= links.len(),
            ls == links_view(links@),
            cs == containments_view(containments@),
            seen_view(seen@) == dedup(pre + link_nodes(kept_links(ls.take(j as int), cs, keep_containment))),
            out@ == header() + segments_text(seen_view(seen@)),
        decreases links.len() - j,
    {
        let l = &links[j];
        let keep_it = is_retained(l, containments, keep_containment);
        proof {
            lemma_take_step(ls, j as int);
        }
        let ghost k = kept_links(ls.take(j as int), cs, keep_containment);
        if keep_it {
            proof {
                let n = link_nodes(k);
                assert(link_nodes(k.push(l@)) == n.push(l@.from).push(l@.to)) by {
                    assert(k.push(l@).drop_last() =~= k);
                }
                assert(pre + n.push(l@.from) =~= (pre + n).push(l@.from));
                assert(pre + n.push(l@.from).push(l@.to) =~= (pre + n).push(l@.from).push(l@.to));
                lemma_dedup_push(pre + n, l@.from);
                lemma_dedup_push((pre + n).push(l@.from), l@.to);
            }
            emit_segment(&mut out, &mut seen, &l.from, l.from_length, Ghost(header()));
            emit_segment(&mut out, &mut seen, &l.to, l.to_length, Ghost(header()));
        }
        j += 1;
    }
    assert(ls.take(ls.len() as int) =~= ls);
    let ghost segs_out = out@;
    assert(segs_out == header() + segments_text(segments_of(ls, cs, keep_containment)));
    let mut j: usize = 0;
    assert(ls.take(0) =~= Seq::<LinkView>::empty());
    assert(out@ =~= segs_out + links_text(kept_links(ls.take(0), cs, keep_containment)));
    while j < links.len()
        invariant
            0 <= j <= links.len(),
            ls == links_view(links@),
            cs == containments_view(containments@),
            out@ == segs_out + links_text(kept_links(ls.take(j as int), cs, keep_containment)),
        decreases links.len() - j,
    {
        let l = &links[j];
        proof {
            lemma_take_step(ls, j as int);
        }
        let ghost k = kept_links(ls.take(j as int), cs, keep_containment);
        if is_retained(l, containments, keep_containment) {
            emit_link(&mut out, l);
            proof {
                lemma_links_text_push(k, l@);
            }
            assert(out@ =~= segs_out + links_text(k.push(l@)));
        }
        j += 1;
    }
    let ghost body = out@;
    assert(body == segs_out + links_text(kept_links(ls, cs, keep_containment)));
    if keep_containment {
        let mut i: usize = 0;
        assert(cs.take(0) =~= Seq::<ContainmentView>::empty());
        assert(out@ =~= body + containments_text(cs.take(0)));
        while i < containments.len()
            invariant
                0 <= i <= containments.len(),
                cs == containments_view(containments@),
                out@ == body + containments_text(cs.take(i as int)),
            decreases containments.len() - i,
        {
            let c = &containments[i];
            proof {
                lemma_take_step(cs, i as int);
            }
            emit_containment(&mut out, c);
            assert(out@ =~= body + containments_text(cs.take(i as int + 1)));
            i += 1;
        }
        assert(cs.take(cs.len() as int) =~= cs);
    } else {
        assert(out@ =~= body + Seq::<char>::empty());
    }
    out
}


/// `dedup` keeps exactly the elements of `s`, each once.
pub proof fn lemma_dedup(s: Seq<NodeId>)
    ensures
        forall|x: NodeId| dedup(s).contains(x) <==> s.contains(x),
        dedup(s).no_duplicates(),
    decreases s.len(),
{
    if s.len() > 0 {
        let p = s.drop_last();
        lemma_dedup(p);
        assert(s =~= p.push(s.last()));
        assert forall|x: NodeId| dedup(s).contains(x) <==> s.contains(x) by {
            if s.contains(x) && x != s.last() {
                let i = choose|i: int| 0 <= i < s.len() && s[i] == x;
                assert(p[i] == x);
            }
            if p.contains(x) {
                let i = choose|i: int| 0 <= i < p.len() && p[i] == x;
                assert(s[i] == x);
            }
            if dedup(s).contains(x) && !dedup(p).contains(x) {
                assert(dedup(s) == dedup(p).push(s.last()));
                let i = choose|i: int| 0 <= i < dedup(s).len() && dedup(s)[i] == x;
                assert(x == s.last());
            }
            if dedup(p).contains(x) && !dedup(p).contains(s.last()) {
                let i = choose|i: int| 0 <= i < dedup(p).len() && dedup(p)[i] == x;
                assert(dedup(s)[i] == x);
            }
            if x == s.last() {
                assert(s[s.len() - 1] == x);
                if !dedup(p).contains(x) {
                    assert(dedup(s)[dedup(p).len() as int] == x);
                }
            }
        }
    }
}

/// Every read of a written link is free of containment, when containments
/// are dropped.
proof fn lemma_kept_link_nodes(ls: Seq<LinkView>, cs: Seq<ContainmentView>, x: NodeId)
    requires
        link_nodes(kept_links(ls, cs, false)).contains(x),
    ensures
        !is_contained(cs, x),
    decreases ls.len(),
{
    if ls.len() > 0 {
        let p = ls.drop_last();
        let k = kept_links(p, cs, false);
        if retained(ls.last(), cs, false) {
            let kk = k.push(ls.last());
            assert(kk.drop_last() =~= k);
            let n = link_nodes(k);
            let i = choose|i: int|
                0 <= i < link_nodes(kk).len() && link_nodes(kk)[i] == x;
            if i < n.len() {
                assert(n[i] == x);
                lemma_kept_link_nodes(p, cs, x);
            }
        } else {
            lemma_kept_link_nodes(p, cs, x);
        }
    }
}

/// When containments are dropped, no contained read is written as a
/// segment, whatever links it had.
pub proof fn lemma_dropped_contained_not_written(g: GraphView, n: NodeId)
    requires
        !g.keep_containment,
        is_contained(g.containments, n),
    ensures
        !segments(g).contains(n),
{
    let ln = link_nodes(kept_links(g.links, g.containments, false));
    assert(Seq::<NodeId>::empty() + ln =~= ln);
    lemma_dedup(ln);
    if ln.contains(n) {
        lemma_kept_link_nodes(g.links, g.containments, n);
    }
}

/// The segments are the reads of the kept containments and of the written
/// links, each written once.
pub proof fn lemma_segments_exact(g: GraphView)
    ensures
        segments(g).no_duplicates(),
        forall|x: NodeId|
            #[trigger] segments(g).contains(x) <==> ((g.keep_containment && containment_nodes(
                g.containments,
            ).contains(x)) || link_nodes(
                kept_links(g.links, g.containments, g.keep_containment),
            ).contains(x)),
{
    let c = if g.keep_containment {
        containment_nodes(g.containments)
    } else {
        Seq::empty()
    };
    let ln = link_nodes(kept_links(g.links, g.containments, g.keep_containment));
    let s = c + ln;
    lemma_dedup(s);
    assert(segments(g) == dedup(s));
    assert forall|x: NodeId|
        #[trigger] segments(g).contains(x) <==> ((g.keep_containment && containment_nodes(
            g.containments,
        ).contains(x)) || ln.contains(x)) by {
        assert(dedup(s).contains(x) <==> s.contains(x));
        if s.contains(x) {
            let i = choose|i: int| 0 <= i < s.len() && s[i] == x;
            if i < c.len() {
                assert(c[i] == x);
                assert(c.contains(x));
            } else {
                assert(ln[i - c.len()] == x);
                assert(ln.contains(x));
            }
        }
        if g.keep_containment && containment_nodes(g.containments).contains(x) {
            let i = choose|i: int| 0 <= i < c.len() && c[i] == x;
            assert(s[i] == x);
        }
        if ln.contains(x) {
            let i = choose|i: int| 0 <= i < ln.len() && ln[i] == x;
            assert(s[c.len() + i] == x);
        }
    }
}

} // verus!
