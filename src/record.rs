//! The alignment record: two reads, their aligned intervals and the relative
//! strand of the pair.

use vstd::prelude::*;

verus! {

/// One alignment between read A and read B.
///
/// Each side holds the read's identifier, its length, and the half-open
/// aligned interval `[begin, end)`. `strand` is `'+'` when both reads align on
/// the same strand and `'-'` otherwise. `position` is the byte span that the
/// record occupies in the stream it was written to.
pub struct Record {
    pub read_a: String,
    pub length_a: u64,
    pub begin_a: u64,
    pub end_a: u64,
    pub strand: char,
    pub read_b: String,
    pub length_b: u64,
    pub begin_b: u64,
    pub end_b: u64,
    pub position: (u64, u64),
}

impl Record {
    /// Both intervals lie inside their read and are not empty.
    pub open spec fn wf(&self) -> bool {
        &&& self.begin_a < self.end_a <= self.length_a
        &&& self.begin_b < self.end_b <= self.length_b
    }

    /// The two reads align on the same strand.
    pub open spec fn forward(&self) -> bool {
        self.strand == '+'
    }

    /// Unaligned length after the end of A's interval.
    pub open spec fn tail_a(&self) -> int {
        self.length_a - self.end_a
    }

    /// Unaligned length after the end of B's interval.
    pub open spec fn tail_b(&self) -> int {
        self.length_b - self.end_b
    }

    /// Length of the overlap: the shorter of the two aligned intervals.
    pub open spec fn overlap_spec(&self) -> int {
        let la = self.end_a - self.begin_a;
        let lb = self.end_b - self.begin_b;
        if la <= lb { la } else { lb }
    }

    /// The record with sides A and B exchanged; the strand is shared and stays.
    pub open spec fn swapped(&self) -> Record {
        Record {
            read_a: self.read_b,
            length_a: self.length_b,
            begin_a: self.begin_b,
            end_a: self.end_b,
            strand: self.strand,
            read_b: self.read_a,
            length_b: self.length_a,
            begin_b: self.begin_a,
            end_b: self.end_a,
            position: self.position,
        }
    }

    /// Whether the coordinates satisfy `wf`.
    pub fn is_valid(&self) -> (r: bool)
        ensures
            r == self.wf(),
    {
        self.begin_a < self.end_a && self.end_a <= self.length_a && self.begin_b < self.end_b
            && self.end_b <= self.length_b
    }

    /// Length of the overlap: the shorter of the two aligned intervals.
    pub fn length(&self) -> (r: u64)
        requires
            self.wf(),
        ensures
            r == self.overlap_spec(),
    {
        let la = self.end_a - self.begin_a;
        let lb = self.end_b - self.begin_b;
        if la <= lb {
            la
        } else {
            lb
        }
    }

    /// Unaligned length after the end of A's interval.
    pub fn len_to_end_a(&self) -> (r: u64)
        requires
            self.wf(),
        ensures
            r == self.tail_a(),
    {
        self.length_a - self.end_a
    }

    /// Unaligned length after the end of B's interval.
    pub fn len_to_end_b(&self) -> (r: u64)
        requires
            self.wf(),
        ensures
            r == self.tail_b(),
    {
        self.length_b - self.end_b
    }
}

/// Read access to an alignment record, and the two changes that renaming and
/// indexing make.
pub trait MappingRecord {
    spec fn as_record(&self) -> Record;

    fn read_a(&self) -> (r: String)
        ensures
            r@ == self.as_record().read_a@,
    ;

    fn length_a(&self) -> (r: u64)
        ensures
            r == self.as_record().length_a,
    ;

    fn begin_a(&self) -> (r: u64)
        ensures
            r == self.as_record().begin_a,
    ;

    fn end_a(&self) -> (r: u64)
        ensures
            r == self.as_record().end_a,
    ;

    fn strand(&self) -> (r: char)
        ensures
            r == self.as_record().strand,
    ;

    fn read_b(&self) -> (r: String)
        ensures
            r@ == self.as_record().read_b@,
    ;

    fn length_b(&self) -> (r: u64)
        ensures
            r == self.as_record().length_b,
    ;

    fn begin_b(&self) -> (r: u64)
        ensures
            r == self.as_record().begin_b,
    ;

    fn end_b(&self) -> (r: u64)
        ensures
            r == self.as_record().end_b,
    ;

    fn position(&self) -> (r: (u64, u64))
        ensures
            r == self.as_record().position,
    ;

    fn set_position(&mut self, p: (u64, u64))
        ensures
            final(self).as_record() == (Record { position: p, ..old(self).as_record() }),
    ;

    fn set_read_a(&mut self, new_name: String)
        ensures
            final(self).as_record() == (Record { read_a: new_name, ..old(self).as_record() }),
    ;

    fn set_read_b(&mut self, new_name: String)
        ensures
            final(self).as_record() == (Record { read_b: new_name, ..old(self).as_record() }),
    ;
}

impl MappingRecord for Record {
    open spec fn as_record(&self) -> Record {
        *self
    }

    fn read_a(&self) -> (r: String) {
        self.read_a.clone()
    }

    fn length_a(&self) -> (r: u64) {
        self.length_a
    }

    fn begin_a(&self) -> (r: u64) {
        self.begin_a
    }

    fn end_a(&self) -> (r: u64) {
        self.end_a
    }

    fn strand(&self) -> (r: char) {
        self.strand
    }

    fn read_b(&self) -> (r: String) {
        self.read_b.clone()
    }

    fn length_b(&self) -> (r: u64) {
        self.length_b
    }

    fn begin_b(&self) -> (r: u64) {
        self.begin_b
    }

    fn end_b(&self) -> (r: u64) {
        self.end_b
    }

    fn position(&self) -> (r: (u64, u64)) {
        self.position
    }

    fn set_position(&mut self, p: (u64, u64)) {
        self.position = p;
    }

    fn set_read_a(&mut self, new_name: String) {
        self.read_a = new_name;
    }

    fn set_read_b(&mut self, new_name: String) {
        self.read_b = new_name;
    }
}

} // verus!
