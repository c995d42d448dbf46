//! One record's way through the tool: keep, drop, modify; then, once written,
//! its byte span and the index.

use vstd::prelude::*;

use crate::indexing::{index_record, Indexing};
use crate::modifier::Modifier;
use crate::policy::{Drop, Filters, Keep};
use crate::graph::add_spec;
use crate::record::Record;
use crate::renaming::Renaming;

verus! {

/// The format of the alignments read.
#[derive(Clone, Copy, Debug, PartialEq, Eq, Structural)]
pub enum MappingFormat {
    Paf,
    M4,
}

/// The format of the alignments read and written.
#[derive(Clone, Copy, Debug, PartialEq, Eq, Structural)]
pub enum InOutFormat {
    Paf,
    Mhap,
}

/// Whether records are written back, or assembled into a graph.
#[derive(Clone, Copy, Debug, PartialEq, Eq, Structural)]
pub enum Mode {
    Basic,
    Gfa1,
}

/// The stages every record goes through, and the byte offset reached in the
/// output.
pub struct Pipeline {
    pub keep: Keep,
    pub drop: Drop,
    pub modifier: Modifier,
    pub index: Indexing,
    pub position: u64,
}

impl Pipeline {
    pub fn new(keep: Keep, drop: Drop, modifier: Modifier, index: Indexing) -> (p: Pipeline)
        ensures
            p.keep == keep,
            p.drop == drop,
            p.modifier == modifier,
            p.index == index,
            p.position == 0,
    {
        Pipeline { keep, drop, modifier, index, position: 0 }
    }

    /// Whether `r` is to be written: it passes the keep policy and the drop
    /// policy. A record that passes goes through the modifiers; one that does
    /// not is left as it was.
    pub fn accept(&mut self, r: &mut Record) -> (b: bool)
        requires
            old(self).modifier.wf(),
            old(r).wf(),
        ensures
            b == (old(self).keep.spec_pass(*old(r)) && old(self).drop.spec_pass(*old(r))),
            final(r).wf(),
            final(self).keep == old(self).keep,
            final(self).drop == old(self).drop,
            final(self).index == old(self).index,
            final(self).position == old(self).position,
            !b ==> *final(r) == *old(r) && final(self).modifier == old(self).modifier,
            b ==> (old(self).modifier.renaming matches Some(x) ==> final(self).modifier.renaming
                matches Some(y) && Renaming::renames(x, *old(r), y, *final(r))),
            b ==> (old(self).modifier.renaming is None ==> final(self).modifier.renaming is None
                && *final(r) == *old(r)),
            b ==> (old(self).modifier.gfa matches Some(g) ==> final(self).modifier.gfa matches Some(h)
                && h.wf() && h.path() == g.path() && h.graph() == add_spec(g.graph(), *final(r))),
            b ==> (old(self).modifier.gfa is None ==> final(self).modifier.gfa is None),
    {
        if !self.keep.pass(r) {
            return false;
        }
        if !self.drop.pass(r) {
            return false;
        }
        self.modifier.pass(r);
        true
    }

    /// Records that `r` took `written` bytes of the output: sets its span,
    /// indexes it, and moves the offset on.
    pub fn written(&mut self, r: &mut Record, written: u64)
        requires
            old(self).index.wf(),
            old(self).position + written <= u64::MAX,
        ensures
            final(r).position == (old(self).position, (old(self).position + written) as u64),
            final(r).read_a == old(r).read_a,
            final(r).read_b == old(r).read_b,
            final(self).position == old(self).position + written,
            final(self).index.wf(),
            final(self).index.kind() == old(self).index.kind(),
            final(self).index.path() == old(self).index.path(),
            final(self).index.table() == if old(self).index.path().len() == 0 {
                old(self).index.table()
            } else {
                index_record(old(self).index.table(), old(self).index.kind(), *final(r))
            },
            final(self).keep == old(self).keep,
            final(self).drop == old(self).drop,
            final(self).modifier == old(self).modifier,
    {
        let end = self.position + written;
        r.position = (self.position, end);
        self.index.run(r);
        self.position = end;
    }
}

} // verus!
