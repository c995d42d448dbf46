//! Keep and drop policies: lists of record filters chosen from plain options.

use vstd::prelude::*;

use crate::classify::{containment_spec, dovetail_spec, internal_match_spec, Threshold};
use crate::filter::{
    compares_as, regex_finds, Containment, Dovetails, Filter, InternalMatch, Length, NameMatch,
    PatternError, SameName, SequenceLength,
};
use crate::record::Record;

verus! {

/// One filter of a policy.
pub enum RecordFilter {
    Containment(Containment),
    InternalMatch(InternalMatch),
    Dovetails(Dovetails),
    Length(Length),
    NameMatch(NameMatch),
    SameName(SameName),
    SequenceLength(SequenceLength),
}

/// What a filter tests, with its parameters.
pub enum FilterSpec {
    Containment(Threshold),
    InternalMatch(Threshold),
    Dovetails(Threshold),
    Length(u64, core::cmp::Ordering),
    NameMatch(Seq<char>),
    SameName(bool),
    SequenceLength(u64, core::cmp::Ordering),
}

/// Whether a filter of kind `k` holds for `r`.
pub open spec fn kind_accepts(k: FilterSpec, r: Record) -> bool {
    match k {
        FilterSpec::Containment(t) => containment_spec(r, t),
        FilterSpec::InternalMatch(t) => internal_match_spec(r, t),
        FilterSpec::Dovetails(t) => dovetail_spec(r, t),
        FilterSpec::Length(n, o) => compares_as(r.overlap_spec() as u64, n, o),
        FilterSpec::NameMatch(p) => regex_finds(p, r.read_a@) || regex_finds(p, r.read_b@),
        FilterSpec::SameName(reverse) => (r.read_a@ == r.read_b@) != reverse,
        FilterSpec::SequenceLength(n, o) => compares_as(r.length_a, n, o) || compares_as(
            r.length_b,
            n,
            o,
        ),
    }
}

impl View for RecordFilter {
    type V = FilterSpec;

    open spec fn view(&self) -> FilterSpec {
        match self {
            RecordFilter::Containment(f) => FilterSpec::Containment(f.internal_threshold),
            RecordFilter::InternalMatch(f) => FilterSpec::InternalMatch(f.internal_threshold),
            RecordFilter::Dovetails(f) => FilterSpec::Dovetails(f.internal_threshold),
            RecordFilter::Length(f) => FilterSpec::Length(f.length_threshold, f.ordering),
            RecordFilter::NameMatch(f) => FilterSpec::NameMatch(f.pattern()),
            RecordFilter::SameName(f) => FilterSpec::SameName(f.reverse),
            RecordFilter::SequenceLength(f) => FilterSpec::SequenceLength(
                f.length_threshold,
                f.ordering,
            ),
        }
    }
}

impl Filter for RecordFilter {
    open spec fn spec_run(&self, r: Record) -> bool {
        kind_accepts(self@, r)
    }

    fn run(&self, r: &Record) -> (b: bool) {
        match self {
            RecordFilter::Containment(f) => f.run(r),
            RecordFilter::InternalMatch(f) => f.run(r),
            RecordFilter::Dovetails(f) => f.run(r),
            RecordFilter::Length(f) => f.run(r),
            RecordFilter::NameMatch(f) => f.run(r),
            RecordFilter::SameName(f) => f.run(r),
            RecordFilter::SequenceLength(f) => f.run(r),
        }
    }
}

/// The filters a user asked for, as plain values.
pub struct FilterOptions {
    pub containment: bool,
    pub internalmatch: bool,
    pub dovetail: bool,
    pub length_lower: Option<u64>,
    pub length_upper: Option<u64>,
    pub name_match: Option<String>,
    pub same_name: bool,
    pub sequence_length_lower: Option<u64>,
    pub sequence_length_upper: Option<u64>,
}

pub open spec fn push_if(s: Seq<FilterSpec>, c: bool, k: FilterSpec) -> Seq<FilterSpec> {
    if c {
        s.push(k)
    } else {
        s
    }
}

pub open spec fn push_some_u64(
    s: Seq<FilterSpec>,
    v: Option<u64>,
    length: bool,
    o: core::cmp::Ordering,
) -> Seq<FilterSpec> {
    match v {
        Some(n) => s.push(
            if length {
                FilterSpec::Length(n, o)
            } else {
                FilterSpec::SequenceLength(n, o)
            },
        ),
        None => s,
    }
}

/// The filters that `o` asks for, in order.
pub open spec fn option_filters(o: FilterOptions, t: Threshold) -> Seq<FilterSpec> {
    let s1 = push_if(Seq::empty(), o.containment, FilterSpec::Containment(t));
    let s2 = push_if(s1, o.internalmatch, FilterSpec::InternalMatch(t));
    let s3 = push_if(s2, o.dovetail, FilterSpec::Dovetails(t));
    let s4 = push_some_u64(s3, o.length_lower, true, core::cmp::Ordering::Less);
    let s5 = push_some_u64(s4, o.length_upper, true, core::cmp::Ordering::Greater);
    let s6 = match o.name_match {
        Some(p) => s5.push(FilterSpec::NameMatch(p@)),
        None => s5,
    };
    let s7 = push_if(s6, o.same_name, FilterSpec::SameName(false));
    let s8 = push_some_u64(s7, o.sequence_length_lower, false, core::cmp::Ordering::Less);
    push_some_u64(s8, o.sequence_length_upper, false, core::cmp::Ordering::Greater)
}

/// The options compile: a name pattern, if any, is a valid regex.
pub open spec fn options_compile(o: FilterOptions) -> bool {
    match o.name_match {
        Some(p) => crate::filter::regex_compiles(p@),
        None => true,
    }
}

pub open spec fn filters_view(fs: Seq<RecordFilter>) -> Seq<FilterSpec> {
    fs.map_values(|f: RecordFilter| f@)
}

fn push_filter(fs: &mut Vec<RecordFilter>, f: RecordFilter)
    ensures
        filters_view(final(fs)@) == filters_view(old(fs)@).push(f@),
{
    let ghost k = f@;
    fs.push(f);
    assert(filters_view(fs@) =~= filters_view(old(fs)@).push(k));
}

/// The filters that `options` asks for, with threshold `t` for the
/// geometric ones.
pub fn generate(options: &FilterOptions, t: Threshold) -> (r: Result<Vec<RecordFilter>, PatternError>)
    ensures
        r is Ok <==> options_compile(*options),
        r matches Ok(fs) ==> filters_view(fs@) == option_filters(*options, t),
{
    let mut fs: Vec<RecordFilter> = Vec::new();
    assert(filters_view(fs@) =~= Seq::<FilterSpec>::empty());
    if options.containment {
        push_filter(&mut fs, RecordFilter::Containment(Containment::new(t)));
    }
    if options.internalmatch {
        push_filter(&mut fs, RecordFilter::InternalMatch(InternalMatch::new(t)));
    }
    if options.dovetail {
        push_filter(&mut fs, RecordFilter::Dovetails(Dovetails::new(t)));
    }
    if let Some(n) = options.length_lower {
        push_filter(&mut fs, RecordFilter::Length(Length::new(n, core::cmp::Ordering::Less)));
    }
    if let Some(n) = options.length_upper {
        push_filter(&mut fs, RecordFilter::Length(Length::new(n, core::cmp::Ordering::Greater)));
    }
    match &options.name_match {
        Some(p) => {
            match NameMatch::new(p.as_str()) {
                Ok(f) => push_filter(&mut fs, RecordFilter::NameMatch(f)),
                Err(e) => {
                    return Err(e);
                },
            }
        },
        None => {},
    }
    if options.same_name {
        push_filter(&mut fs, RecordFilter::SameName(SameName::new(false)));
    }
    if let Some(n) = options.sequence_length_lower {
        push_filter(
            &mut fs,
            RecordFilter::SequenceLength(SequenceLength::new(n, core::cmp::Ordering::Less)),
        );
    }
    if let Some(n) = options.sequence_length_upper {
        push_filter(
            &mut fs,
            RecordFilter::SequenceLength(SequenceLength::new(n, core::cmp::Ordering::Greater)),
        );
    }
    Ok(fs)
}

/// Some filter of `fs` holds for `r`.
pub open spec fn any_accepts(fs: Seq<FilterSpec>, r: Record) -> bool {
    exists|i: int| 0 <= i < fs.len() && kind_accepts(#[trigger] fs[i], r)
}

/// Every filter of `fs` holds for `r`.
pub open spec fn all_accept(fs: Seq<FilterSpec>, r: Record) -> bool {
    forall|i: int| 0 <= i < fs.len() ==> kind_accepts(#[trigger] fs[i], r)
}

fn any_run(fs: &Vec<RecordFilter>, r: &Record) -> (b: bool)
    requires
        r.wf(),
    ensures
        b == any_accepts(filters_view(fs@), *r),
{
    let ghost v = filters_view(fs@);
    let mut i: usize = 0;
    while i < fs.len()
        invariant
            r.wf(),
            v == filters_view(fs@),
            0 <= i <= fs.len(),
            forall|j: int| 0 <= j < i ==> !kind_accepts(#[trigger] v[j], *r),
        decreases fs.len() - i,
    {
        if fs[i].run(r) {
            assert(kind_accepts(v[i as int], *r));
            return true;
        }
        i += 1;
    }
    false
}

fn all_run(fs: &Vec<RecordFilter>, r: &Record) -> (b: bool)
    requires
        r.wf(),
    ensures
        b == all_accept(filters_view(fs@), *r),
{
    let ghost v = filters_view(fs@);
    let mut i: usize = 0;
    while i < fs.len()
        invariant
            r.wf(),
            v == filters_view(fs@),
            0 <= i <= fs.len(),
            forall|j: int| 0 <= j < i ==> kind_accepts(#[trigger] v[j], *r),
        decreases fs.len() - i,
    {
        if !fs[i].run(r) {
            assert(!kind_accepts(v[i as int], *r));
            return false;
        }
        i += 1;
    }
    true
}

/// A policy: a list of filters and the threshold its geometric filters use.
pub trait Filters {
    spec fn filter_list(&self) -> Seq<FilterSpec>;

    spec fn spec_pass(&self, r: Record) -> bool;

    /// Whether the record goes on.
    fn pass(&self, r: &Record) -> (b: bool)
        requires
            r.wf(),
        ensures
            b == self.spec_pass(*r),
    ;

    /// The internal-match threshold of the policy.
    fn internal_match(&self) -> Threshold;

    /// Appends a filter.
    fn add_filter(&mut self, f: RecordFilter)
        ensures
            final(self).filter_list() == old(self).filter_list().push(f@),
    ;
}

/// Drops a record when any of its filters holds.
pub struct Drop {
    filters: Vec<RecordFilter>,
    internal_threshold: Threshold,
}

impl Drop {
    /// The drop policy that `options` asks for.
    pub fn new(internal_match: Threshold, options: &FilterOptions) -> (r: Result<Drop, PatternError>)
        ensures
            r is Ok <==> options_compile(*options),
            r matches Ok(d) ==> d.filter_list() == option_filters(*options, internal_match),
    {
        match generate(options, internal_match) {
            Ok(filters) => Ok(Drop { filters, internal_threshold: internal_match }),
            Err(e) => Err(e),
        }
    }
}

impl Filters for Drop {
    closed spec fn filter_list(&self) -> Seq<FilterSpec> {
        filters_view(self.filters@)
    }

    open spec fn spec_pass(&self, r: Record) -> bool {
        !any_accepts(self.filter_list(), r)
    }

    fn pass(&self, r: &Record) -> (b: bool) {
        !any_run(&self.filters, r)
    }

    fn internal_match(&self) -> Threshold {
        self.internal_threshold
    }

    fn add_filter(&mut self, f: RecordFilter) {
        push_filter(&mut self.filters, f);
    }
}

/// Keeps a record when it has no filters or all of them hold.
pub struct Keep {
    filters: Vec<RecordFilter>,
    internal_threshold: Threshold,
}

impl Keep {
    /// The keep policy that `options` asks for.
    pub fn new(internal_match: Threshold, options: &FilterOptions) -> (r: Result<Keep, PatternError>)
        ensures
            r is Ok <==> options_compile(*options),
            r matches Ok(k) ==> k.filter_list() == option_filters(*options, internal_match),
    {
        match generate(options, internal_match) {
            Ok(filters) => Ok(Keep { filters, internal_threshold: internal_match }),
            Err(e) => Err(e),
        }
    }
}

impl Filters for Keep {
    closed spec fn filter_list(&self) -> Seq<FilterSpec> {
        filters_view(self.filters@)
    }

    open spec fn spec_pass(&self, r: Record) -> bool {
        all_accept(self.filter_list(), r)
    }

    fn pass(&self, r: &Record) -> (b: bool) {
        all_run(&self.filters, r)
    }

    fn internal_match(&self) -> Threshold {
        self.internal_threshold
    }

    fn add_filter(&mut self, f: RecordFilter) {
        push_filter(&mut self.filters, f);
    }
}

} // verus!
