//! Record filters and the keep / drop policies built from them.

use vstd::prelude::*;

use crate::classify::{
    containment_spec, dovetail_spec, internal_match_spec, is_containment, is_dovetail,
    is_internal_match, Threshold,
};
use crate::record::Record;

verus! {

#[verifier::external_type_specification]
#[verifier::external_body]
pub struct ExRegex(regex::Regex);

#[verifier::external_type_specification]
#[verifier::external_body]
pub struct ExRegexError(regex::Error);

/// Whether `pattern` compiles to a regular expression.
pub uninterp spec fn regex_compiles(pattern: Seq<char>) -> bool;

/// Whether the regular expression `pattern` matches somewhere in `haystack`.
pub uninterp spec fn regex_finds(pattern: Seq<char>, haystack: Seq<char>) -> bool;

/// Relies on `regex::Regex::new`: whether it accepts a pattern depends on the
/// pattern alone.
#[verifier::external_body]
fn compile_regex(pattern: &str) -> (r: Result<regex::Regex, regex::Error>)
    ensures
        r is Ok <==> regex_compiles(pattern@),
{
    regex::Regex::new(pattern)
}

/// Relies on `regex::Regex::is_match`, on the regex that `NameMatch::new`
/// compiled from the pattern it keeps beside it: whether the pattern matches
/// somewhere in `haystack`.
#[verifier::external_body]
fn regex_is_match(filter: &NameMatch, haystack: &str) -> (r: bool)
    ensures
        r == regex_finds(filter.pattern(), haystack@),
{
    filter.regex.is_match(haystack)
}

/// A pattern that does not compile.
#[derive(Clone, Copy, Debug, PartialEq, Eq, Structural)]
pub enum PatternError {
    Invalid,
}

/// A test on one record.
pub trait Filter {
    spec fn spec_run(&self, r: Record) -> bool;

    fn run(&self, r: &Record) -> (b: bool)
        requires
            r.wf(),
        ensures
            b == self.spec_run(*r),
    ;
}

/// Holds for internal matches.
pub struct InternalMatch {
    pub internal_threshold: Threshold,
}

impl InternalMatch {
    pub fn new(internal_threshold: Threshold) -> (f: InternalMatch)
        ensures
            f.internal_threshold == internal_threshold,
    {
        InternalMatch { internal_threshold }
    }
}

impl Filter for InternalMatch {
    open spec fn spec_run(&self, r: Record) -> bool {
        internal_match_spec(r, self.internal_threshold)
    }

    fn run(&self, r: &Record) -> (b: bool) {
        is_internal_match(r, self.internal_threshold)
    }
}

/// Holds for containments.
pub struct Containment {
    pub internal_threshold: Threshold,
}

impl Containment {
    pub fn new(internal_threshold: Threshold) -> (f: Containment)
        ensures
            f.internal_threshold == internal_threshold,
    {
        Containment { internal_threshold }
    }
}

impl Filter for Containment {
    open spec fn spec_run(&self, r: Record) -> bool {
        containment_spec(r, self.internal_threshold)
    }

    fn run(&self, r: &Record) -> (b: bool) {
        is_containment(r, self.internal_threshold)
    }
}

/// Holds for dovetails.
pub struct Dovetails {
    pub internal_threshold: Threshold,
}

impl Dovetails {
    pub fn new(internal_threshold: Threshold) -> (f: Dovetails)
        ensures
            f.internal_threshold == internal_threshold,
    {
        Dovetails { internal_threshold }
    }
}

impl Filter for Dovetails {
    open spec fn spec_run(&self, r: Record) -> bool {
        dovetail_spec(r, self.internal_threshold)
    }

    fn run(&self, r: &Record) -> (b: bool) {
        is_dovetail(r, self.internal_threshold)
    }
}

/// Holds when both reads have the same identifier, or, with `reverse`, when
/// they differ.
pub struct SameName {
    pub reverse: bool,
}

impl SameName {
    pub fn new(reverse: bool) -> (f: SameName)
        ensures
            f.reverse == reverse,
    {
        SameName { reverse }
    }
}

impl Filter for SameName {
    open spec fn spec_run(&self, r: Record) -> bool {
        (r.read_a@ == r.read_b@) != self.reverse
    }

    fn run(&self, r: &Record) -> (b: bool) {
        let test = r.read_a == r.read_b;
        if self.reverse {
            !test
        } else {
            test
        }
    }
}

pub open spec fn compares_as(x: u64, y: u64, ordering: core::cmp::Ordering) -> bool {
    match ordering {
        core::cmp::Ordering::Less => x < y,
        core::cmp::Ordering::Equal => x == y,
        core::cmp::Ordering::Greater => x > y,
    }
}

fn compare_as(x: u64, y: u64, ordering: core::cmp::Ordering) -> (b: bool)
    ensures
        b == compares_as(x, y, ordering),
{
    match ordering {
        core::cmp::Ordering::Less => x < y,
        core::cmp::Ordering::Equal => x == y,
        core::cmp::Ordering::Greater => x > y,
    }
}

/// Holds when the length of read A or of read B compares to
/// `length_threshold` as `ordering` says.
pub struct SequenceLength {
    pub length_threshold: u64,
    pub ordering: core::cmp::Ordering,
}

impl SequenceLength {
    pub fn new(length_threshold: u64, ord: core::cmp::Ordering) -> (f: SequenceLength)
        ensures
            f.length_threshold == length_threshold,
            f.ordering == ord,
    {
        SequenceLength { length_threshold, ordering: ord }
    }
}

impl Filter for SequenceLength {
    open spec fn spec_run(&self, r: Record) -> bool {
        compares_as(r.length_a, self.length_threshold, self.ordering) || compares_as(
            r.length_b,
            self.length_threshold,
            self.ordering,
        )
    }

    fn run(&self, r: &Record) -> (b: bool) {
        compare_as(r.length_a, self.length_threshold, self.ordering) || compare_as(
            r.length_b,
            self.length_threshold,
            self.ordering,
        )
    }
}

/// Holds when the overlap length compares to `length_threshold` as
/// `ordering` says.
pub struct Length {
    pub length_threshold: u64,
    pub ordering: core::cmp::Ordering,
}

impl Length {
    pub fn new(length_threshold: u64, ord: core::cmp::Ordering) -> (f: Length)
        ensures
            f.length_threshold == length_threshold,
            f.ordering == ord,
    {
        Length { length_threshold, ordering: ord }
    }
}

impl Filter for Length {
    open spec fn spec_run(&self, r: Record) -> bool {
        compares_as(r.overlap_spec() as u64, self.length_threshold, self.ordering)
    }

    fn run(&self, r: &Record) -> (b: bool) {
        compare_as(r.length(), self.length_threshold, self.ordering)
    }
}

/// Holds when a regular expression matches somewhere in the identifier of
/// read A or of read B.
pub struct NameMatch {
    pattern: String,
    regex: regex::Regex,
}

impl NameMatch {
    /// The pattern the filter was built from.
    pub closed spec fn pattern(&self) -> Seq<char> {
        self.pattern@
    }

    /// A filter for `regex`, or `PatternError::Invalid` when it does not
    /// compile.
    pub fn new(regex: &str) -> (r: Result<NameMatch, PatternError>)
        ensures
            r is Ok <==> regex_compiles(regex@),
            r matches Ok(f) ==> f.pattern() == regex@,
    {
        match compile_regex(regex) {
            Ok(compiled) => Ok(NameMatch { pattern: regex.to_string(), regex: compiled }),
            Err(_) => Err(PatternError::Invalid),
        }
    }
}

impl Filter for NameMatch {
    open spec fn spec_run(&self, r: Record) -> bool {
        regex_finds(self.pattern(), r.read_a@) || regex_finds(self.pattern(), r.read_b@)
    }

    fn run(&self, r: &Record) -> (b: bool) {
        regex_is_match(self, r.read_a.as_str()) || regex_is_match(self, r.read_b.as_str())
    }
}

} // verus!
