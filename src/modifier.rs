//! Stages that change records or accumulate them: renaming, then the graph.

use vstd::prelude::*;

use crate::classify::Threshold;
use crate::gfa_text::gfa_text;
use crate::graph::{add_spec, GraphView};
use crate::record::Record;
use crate::renaming::Renaming;

verus! {

/// A graph to be written to `gfa_path` once all records are in.
pub struct Gfa1 {
    gfa_path: String,
    gfa_object: crate::graph::Gfa1,
}

impl Gfa1 {
    pub closed spec fn graph(&self) -> GraphView {
        self.gfa_object@
    }

    pub closed spec fn path(&self) -> Seq<char> {
        self.gfa_path@
    }

    pub open spec fn wf(&self) -> bool {
        crate::graph::graph_wf(self.graph())
    }

    pub fn new(
        gfa_path: String,
        keep_internal: bool,
        keep_containment: bool,
        internal_threshold: Threshold,
    ) -> (g: Gfa1)
        ensures
            g.wf(),
            g.path() == gfa_path@,
            g.graph().keep_internal == keep_internal,
            g.graph().keep_containment == keep_containment,
            g.graph().threshold == internal_threshold,
            g.graph().links.len() == 0,
            g.graph().containments.len() == 0,
    {
        Gfa1 {
            gfa_path,
            gfa_object: crate::graph::Gfa1::new(keep_internal, keep_containment, internal_threshold),
        }
    }

    /// Adds `r` to the graph.
    pub fn run(&mut self, r: &Record)
        requires
            old(self).wf(),
            r.wf(),
        ensures
            final(self).wf(),
            final(self).path() == old(self).path(),
            final(self).graph() == add_spec(old(self).graph(), *r),
    {
        self.gfa_object.add(r);
    }

    /// Where to write, and the GFA1 text of the graph.
    pub fn write(&self) -> (out: (String, String))
        ensures
            out.0@ == self.path(),
            out.1@ == gfa_text(self.graph()),
    {
        (self.gfa_path.clone(), self.gfa_object.write())
    }
}

/// What the modifiers leave to write: the renaming table and the graph, each
/// with its path.
pub struct ModifierOutput {
    pub renaming: Option<(String, Vec<(String, String)>)>,
    pub gfa: Option<(String, String)>,
}

/// The modifiers in the order they see a record: renaming, then the graph.
pub struct Modifier {
    pub renaming: Option<Renaming>,
    pub gfa: Option<Gfa1>,
}

impl Modifier {
    pub open spec fn wf(&self) -> bool {
        &&& self.renaming matches Some(x) ==> x.wf() && x.counter() < u64::MAX - 1
        &&& self.gfa matches Some(g) ==> g.wf()
    }

    pub fn new(renaming: Option<Renaming>, gfa: Option<Gfa1>) -> (m: Modifier)
        ensures
            m.renaming == renaming,
            m.gfa == gfa,
    {
        Modifier { renaming, gfa }
    }

    /// Renames `r`, then adds the renamed record to the graph.
    pub fn pass(&mut self, r: &mut Record)
        requires
            old(self).wf(),
            old(r).wf(),
        ensures
            final(r).wf(),
            old(self).renaming is None ==> final(self).renaming is None && *final(r) == *old(r),
            old(self).renaming matches Some(x) ==> final(self).renaming matches Some(y)
                && Renaming::renames(x, *old(r), y, *final(r)),
            old(self).gfa is None ==> final(self).gfa is None,
            old(self).gfa matches Some(g) ==> final(self).gfa matches Some(h) && h.wf() && h.path()
                == g.path() && h.graph() == add_spec(g.graph(), *final(r)),
    {
        match &mut self.renaming {
            Some(x) => x.run(r),
            None => {},
        }
        match &mut self.gfa {
            Some(g) => g.run(r),
            None => {},
        }
    }

    /// What the modifiers have to write.
    pub fn write(&self) -> (out: ModifierOutput)
        ensures
            (out.renaming is Some) <==> (self.renaming matches Some(x) && x.counter() != 0),
            out.renaming matches Some(p) ==> self.renaming matches Some(x) && p.0@ == x.path()
                && p.1@.len() == x.table().len() && forall|i: int|
                0 <= i < p.1@.len() ==> (#[trigger] p.1@[i]).0@ == x.table()[i].0 && p.1@[i].1@
                    == x.table()[i].1,
            out.gfa is Some <==> self.gfa is Some,
            out.gfa matches Some(p) ==> self.gfa matches Some(g) && p.0@ == g.path() && p.1@
                == gfa_text(g.graph()),
    {
        let renaming = match &self.renaming {
            Some(x) => match x.write() {
                Some(rows) => Some((x.file_rename_path().clone(), rows)),
                None => None,
            },
            None => None,
        };
        let gfa = match &self.gfa {
            Some(g) => Some(g.write()),
            None => None,
        };
        ModifierOutput { renaming, gfa }
    }
}

} // verus!
