//! From the fields of a PAF or M4 line to a record.

use vstd::prelude::*;
use vstd::string::StrSliceExecFns;

use crate::pipeline::MappingFormat;
use crate::record::Record;

verus! {

pub open spec fn is_digit(c: char) -> bool {
    48 <= (c as u32) <= 57
}

/// The value of a string of decimal digits.
pub open spec fn decimal_value(s: Seq<char>) -> int
    decreases s.len(),
{
    if s.len() == 0 {
        0
    } else {
        decimal_value(s.drop_last()) * 10 + ((s.last() as u32) - 48)
    }
}

pub open spec fn is_decimal(s: Seq<char>) -> bool {
    s.len() > 0 && forall|i: int| 0 <= i < s.len() ==> is_digit(#[trigger] s[i])
}

/// The unsigned integer that `s` writes in decimal, if it fits in 64 bits.
pub open spec fn u64_of(s: Seq<char>) -> Option<u64> {
    if is_decimal(s) && decimal_value(s) <= u64::MAX {
        Some(decimal_value(s) as u64)
    } else {
        None
    }
}

proof fn lemma_decimal_nonneg(s: Seq<char>)
    requires
        forall|i: int| 0 <= i < s.len() ==> is_digit(#[trigger] s[i]),
    ensures
        decimal_value(s) >= 0,
    decreases s.len(),
{
    if s.len() > 0 {
        let p = s.drop_last();
        assert forall|i: int| 0 <= i < p.len() implies is_digit(#[trigger] p[i]) by {
            assert(s[i] == p[i]);
        }
        lemma_decimal_nonneg(p);
        assert(is_digit(s[s.len() - 1]));
    }
}

proof fn lemma_decimal_grows(s: Seq<char>, j: int)
    requires
        0 <= j <= s.len(),
        forall|i: int| 0 <= i < s.len() ==> is_digit(#[trigger] s[i]),
    ensures
        decimal_value(s.take(j)) <= decimal_value(s),
    decreases s.len() - j,
{
    if j < s.len() {
        lemma_decimal_grows(s, j + 1);
        let t = s.take(j);
        assert(s.take(j + 1).drop_last() =~= t);
        assert(is_digit(s[j]));
        assert forall|i: int| 0 <= i < t.len() implies is_digit(#[trigger] t[i]) by {
            assert(s[i] == t[i]);
        }
        lemma_decimal_nonneg(t);
        let v = decimal_value(t);
        let d = (s[j] as u32) - 48;
        assert(decimal_value(s.take(j + 1)) == v * 10 + d);
        assert(v <= v * 10 + d) by (nonlinear_arith)
            requires
                v >= 0,
                d >= 0,
        ;
    } else {
        assert(s.take(j) =~= s);
    }
}

/// Parses an unsigned decimal integer: digits only, at least one, at most
/// `u64::MAX`.
pub fn parse_u64(s: &str) -> (r: Option<u64>)
    ensures
        r == u64_of(s@),
{
    let n = s.unicode_len();
    if n == 0 {
        return None;
    }
    let mut acc: u64 = 0;
    let mut i: usize = 0;
    while i < n
        invariant
            n == s@.len(),
            0 <= i <= n,
            forall|j: int| 0 <= j < i ==> is_digit(#[trigger] s@[j]),
            acc == decimal_value(s@.take(i as int)),
        decreases n - i,
    {
        let c = s.get_char(i);
        assert(s@.take(i + 1).drop_last() =~= s@.take(i as int));
        if !(48 <= (c as u32) && (c as u32) <= 57) {
            assert(!is_digit(s@[i as int]));
            return None;
        }
        let d = ((c as u32) - 48) as u64;
        if acc > 1844674407370955161 || (acc == 1844674407370955161 && d > 5) {
            proof {
                assert(decimal_value(s@.take(i + 1)) > u64::MAX) by (nonlinear_arith)
                    requires
                        decimal_value(s@.take(i + 1)) == acc * 10 + d,
                        acc > 1844674407370955161 || (acc == 1844674407370955161 && d > 5),
                ;
                if forall|j: int| 0 <= j < s@.len() ==> is_digit(#[trigger] s@[j]) {
                    lemma_decimal_grows(s@, i + 1);
                }
            }
            return None;
        }
        assert(acc * 10 + d <= u64::MAX) by (nonlinear_arith)
            requires
                d <= 9,
                !(acc > 1844674407370955161 || (acc == 1844674407370955161 && d > 5)),
        ;
        acc = acc * 10 + d;
        i += 1;
    }
    assert(s@.take(n as int) =~= s@);
    Some(acc)
}

/// Why a line's fields do not make a record.
#[derive(Clone, Copy, Debug, PartialEq, Eq, Structural)]
pub enum RecordError {
    /// Fewer than twelve fields.
    MissingField,
    /// The field at this column is not an unsigned decimal integer.
    NotANumber(usize),
    /// The field at this column is not a single character.
    NotAStrand(usize),
    /// An aligned interval is empty or does not lie inside its read.
    OutOfRead,
}

/// Columns of the read names, of the integer fields in the order they are
/// checked (length, begin and end of A, then of B), and of the strand fields.
pub open spec fn name_columns(f: MappingFormat) -> (int, int) {
    match f {
        MappingFormat::Paf => (0, 5),
        MappingFormat::M4 => (0, 1),
    }
}

pub open spec fn number_columns(f: MappingFormat) -> Seq<int> {
    match f {
        MappingFormat::Paf => seq![1, 2, 3, 6, 7, 8],
        MappingFormat::M4 => seq![7, 5, 6, 11, 9, 10],
    }
}

pub open spec fn strand_columns(f: MappingFormat) -> Seq<int> {
    match f {
        MappingFormat::Paf => seq![4],
        MappingFormat::M4 => seq![4, 8],
    }
}

pub open spec fn single_char(s: Seq<char>) -> bool {
    s.len() == 1
}

/// The value of the integer field `k` (in the order of `number_columns`).
pub open spec fn number(fs: Seq<String>, f: MappingFormat, k: int) -> u64 {
    u64_of(fs[number_columns(f)[k]]@).unwrap()
}

/// The relative strand: PAF writes it; M4 writes each read's strand, and the
/// pair is `'+'` when they agree.
pub open spec fn strand_of(fs: Seq<String>, f: MappingFormat) -> char {
    match f {
        MappingFormat::Paf => fs[4]@[0],
        MappingFormat::M4 => if fs[4]@[0] == fs[8]@[0] {
            '+'
        } else {
            '-'
        },
    }
}

/// The first integer field that does not parse, in checking order.
pub open spec fn first_bad_number(fs: Seq<String>, f: MappingFormat) -> Option<int> {
    if exists|k: int| 0 <= k < 6 && u64_of(fs[#[trigger] number_columns(f)[k]]@) is None {
        let k = choose|k: int|
            0 <= k < 6 && u64_of(fs[#[trigger] number_columns(f)[k]]@) is None && forall|j: int|
                0 <= j < k ==> u64_of(fs[#[trigger] number_columns(f)[j]]@) is Some;
        Some(number_columns(f)[k])
    } else {
        None
    }
}

/// The first strand field that is not one character.
pub open spec fn first_bad_strand(fs: Seq<String>, f: MappingFormat) -> Option<int> {
    if !single_char(fs[4]@) {
        Some(4)
    } else if f == MappingFormat::M4 && !single_char(fs[8]@) {
        Some(8)
    } else {
        None
    }
}

/// Both intervals lie inside their read and are not empty.
pub open spec fn numbers_fit(fs: Seq<String>, f: MappingFormat) -> bool {
    &&& number(fs, f, 1) < number(fs, f, 2) <= number(fs, f, 0)
    &&& number(fs, f, 4) < number(fs, f, 5) <= number(fs, f, 3)
}

/// The error that the fields give, if any: too few fields, then the first
/// integer that does not parse, then the first strand that is not one
/// character, then coordinates outside the reads.
pub open spec fn fields_error(fs: Seq<String>, f: MappingFormat) -> Option<RecordError> {
    if fs.len() < 12 {
        Some(RecordError::MissingField)
    } else {
        match first_bad_number(fs, f) {
            Some(c) => Some(RecordError::NotANumber(c as usize)),
            None => match first_bad_strand(fs, f) {
                Some(c) => Some(RecordError::NotAStrand(c as usize)),
                None => if !numbers_fit(fs, f) {
                    Some(RecordError::OutOfRead)
                } else {
                    None
                },
            },
        }
    }
}

fn number_column(f: MappingFormat, k: usize) -> (c: usize)
    requires
        k < 6,
    ensures
        c == number_columns(f)[k as int],
        c < 12,
{
    match f {
        MappingFormat::Paf => if k == 0 {
            1
        } else if k == 1 {
            2
        } else if k == 2 {
            3
        } else if k == 3 {
            6
        } else if k == 4 {
            7
        } else {
            8
        },
        MappingFormat::M4 => if k == 0 {
            7
        } else if k == 1 {
            5
        } else if k == 2 {
            6
        } else if k == 3 {
            11
        } else if k == 4 {
            9
        } else {
            10
        },
    }
}

impl Record {
    /// The record that a PAF or M4 line's fields give, or the first thing
    /// wrong with them. Its position is `(0, 0)`.
    pub fn from_fields(fields: &Vec<String>, format: MappingFormat) -> (r: Result<Record, RecordError>)
        ensures
            r is Err <==> fields_error(fields@, format) is Some,
            r matches Err(e) ==> fields_error(fields@, format) == Some(e),
            r matches Ok(rec) ==> {
                &&& rec.wf()
                &&& rec.read_a@ == fields@[name_columns(format).0]@
                &&& rec.read_b@ == fields@[name_columns(format).1]@
                &&& rec.length_a == number(fields@, format, 0)
                &&& rec.begin_a == number(fields@, format, 1)
                &&& rec.end_a == number(fields@, format, 2)
                &&& rec.length_b == number(fields@, format, 3)
                &&& rec.begin_b == number(fields@, format, 4)
                &&& rec.end_b == number(fields@, format, 5)
                &&& rec.strand == strand_of(fields@, format)
                &&& rec.position == (0u64, 0u64)
            },
    {
        if fields.len() < 12 {
            return Err(RecordError::MissingField);
        }
        let ghost fs = fields@;
        let mut values: Vec<u64> = Vec::new();
        let mut k: usize = 0;
        while k < 6
            invariant
                fs == fields@,
                fs.len() >= 12,
                0 <= k <= 6,
                values@.len() == k,
                forall|j: int|
                    0 <= j < k ==> u64_of(fs[#[trigger] number_columns(format)[j]]@) == Some(
                        values@[j],
                    ),
            decreases 6 - k,
        {
            let c = number_column(format, k);
            match parse_u64(fields[c].as_str()) {
                Some(v) => values.push(v),
                None => {
                    proof {
                        let w = choose|w: int|
                            0 <= w < 6 && u64_of(fs[#[trigger] number_columns(format)[w]]@) is None
                                && forall|j: int|
                                0 <= j < w ==> u64_of(fs[#[trigger] number_columns(format)[j]]@) is Some;
                        if w < k {
                            assert(u64_of(fs[number_columns(format)[w]]@) is Some);
                        } else if w > k {
                            assert(u64_of(fs[number_columns(format)[k as int]]@) is Some);
                        }
                    }
                    return Err(RecordError::NotANumber(c));
                },
            }
            k += 1;
        }
        assert(first_bad_number(fs, format) is None);
        let s4 = fields[4].as_str();
        if s4.unicode_len() != 1 {
            return Err(RecordError::NotAStrand(4));
        }
        let c4 = s4.get_char(0);
        let strand = match format {
            MappingFormat::Paf => c4,
            MappingFormat::M4 => {
                let s8 = fields[8].as_str();
                if s8.unicode_len() != 1 {
                    return Err(RecordError::NotAStrand(8));
                }
                if c4 == s8.get_char(0) {
                    '+'
                } else {
                    '-'
                }
            },
        };
        let (ca, cb) = match format {
            MappingFormat::Paf => (0usize, 5usize),
            MappingFormat::M4 => (0usize, 1usize),
        };
        let rec = Record {
            read_a: fields[ca].clone(),
            length_a: values[0],
            begin_a: values[1],
            end_a: values[2],
            strand,
            read_b: fields[cb].clone(),
            length_b: values[3],
            begin_b: values[4],
            end_b: values[5],
            position: (0, 0),
        };
        if !rec.is_valid() {
            return Err(RecordError::OutOfRead);
        }
        Ok(rec)
    }
}

/// The bytes of one tab-separated line holding `fields`, quoted where a
/// field needs it, ending with a newline.
pub uninterp spec fn csv_line(fields: Seq<Seq<char>>) -> Seq<u8>;

pub open spec fn fields_view(fs: Seq<String>) -> Seq<Seq<char>> {
    fs.map_values(|f: String| f@)
}

/// Relies on `csv::Writer` (tab delimiter, no header, flexible lengths)
/// writing one record into memory: the bytes depend on the fields alone.
#[verifier::external_body]
fn tab_line(fields: &Vec<String>) -> (r: Option<Vec<u8>>)
    ensures
        r matches Some(b) ==> b@ == csv_line(fields_view(fields@)),
{
    let mut w = csv::WriterBuilder::new().delimiter(b'\t').has_headers(false).flexible(true)
        .from_writer(Vec::new());
    w.write_record(fields).ok()?;
    w.into_inner().ok()
}

/// The line written for a record read from `fields`: the same fields, with
/// the read names of `r` in their columns.
pub fn record_line(fields: &Vec<String>, r: &Record, format: MappingFormat) -> (out: Option<
    Vec<u8>,
>)
    requires
        fields@.len() >= 12,
    ensures
        out matches Some(b) ==> b@ == csv_line(
            fields_view(fields@).update(name_columns(format).0, r.read_a@).update(
                name_columns(format).1,
                r.read_b@,
            ),
        ),
{
    let (ca, cb) = match format {
        MappingFormat::Paf => (0usize, 5usize),
        MappingFormat::M4 => (0usize, 1usize),
    };
    let mut fs: Vec<String> = Vec::new();
    let mut i: usize = 0;
    while i < fields.len()
        invariant
            0 <= i <= fields.len(),
            fs@.len() == i,
            ca == name_columns(format).0,
            cb == name_columns(format).1,
            forall|j: int|
                0 <= j < i ==> (#[trigger] fs@[j])@ == (if j == ca {
                    r.read_a@
                } else if j == cb {
                    r.read_b@
                } else {
                    fields@[j]@
                }),
        decreases fields.len() - i,
    {
        if i == ca {
            fs.push(r.read_a.clone());
        } else if i == cb {
            fs.push(r.read_b.clone());
        } else {
            fs.push(fields[i].clone());
        }
        i += 1;
    }
    assert(fields_view(fs@) =~= fields_view(fields@).update(ca as int, r.read_a@).update(
        cb as int,
        r.read_b@,
    ));
    tab_line(&fs)
}

} // verus!
