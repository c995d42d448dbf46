use fpa::codec::{parse_u64, RecordError};
use fpa::pipeline::MappingFormat;
use fpa::record::Record;

fn fields(line: &str) -> Vec<String> {
    line.split('\t').map(|f| f.to_string()).collect()
}

#[test]
fn parse_u64_values() {
    assert_eq!(parse_u64("0"), Some(0));
    assert_eq!(parse_u64("8000"), Some(8000));
    assert_eq!(parse_u64("007"), Some(7));
    assert_eq!(parse_u64("18446744073709551615"), Some(u64::MAX));
    assert_eq!(parse_u64("18446744073709551616"), None);
    assert_eq!(parse_u64("99999999999999999999x"), None);
    assert_eq!(parse_u64(""), None);
    assert_eq!(parse_u64("-1"), None);
    assert_eq!(parse_u64("12a"), None);
    assert_eq!(parse_u64("1 2"), None);
}

#[test]
fn paf_fields_make_a_record() {
    let f = fields("1\t12000\t20\t4500\t-\t2\t10000\t5500\t10000\t4500\t4500\t255\tam:I:5");
    let r = Record::from_fields(&f, MappingFormat::Paf).unwrap();
    assert_eq!(r.read_a, "1");
    assert_eq!((r.length_a, r.begin_a, r.end_a), (12000, 20, 4500));
    assert_eq!(r.strand, '-');
    assert_eq!(r.read_b, "2");
    assert_eq!((r.length_b, r.begin_b, r.end_b), (10000, 5500, 10000));
    assert_eq!(r.position, (0, 0));
    assert_eq!(r.length(), 4480);
}

#[test]
fn m4_fields_make_a_record() {
    let f = fields("1\t2\t0.1\t12\t0\t20\t4500\t12000\t1\t5500\t10000\t10000");
    let r = Record::from_fields(&f, MappingFormat::M4).unwrap();
    assert_eq!((r.read_a.as_str(), r.read_b.as_str()), ("1", "2"));
    assert_eq!((r.length_a, r.begin_a, r.end_a), (12000, 20, 4500));
    assert_eq!((r.length_b, r.begin_b, r.end_b), (10000, 5500, 10000));
    assert_eq!(r.strand, '-');
    let same = fields("1\t2\t0.1\t12\t1\t20\t4500\t12000\t1\t5500\t10000\t10000");
    assert_eq!(Record::from_fields(&same, MappingFormat::M4).unwrap().strand, '+');
}

#[test]
fn record_errors() {
    let short = fields("1\t12000\t20\t4500\t-\t2\t10000\t5500\t10000\t4500\t4500");
    assert_eq!(Record::from_fields(&short, MappingFormat::Paf).err(), Some(RecordError::MissingField));

    let bad_begin = fields("1\t12000\tx\t4500\t-\t2\t10000\tfoo\t10000\t4500\t4500\t255");
    assert_eq!(Record::from_fields(&bad_begin, MappingFormat::Paf).err(), Some(RecordError::NotANumber(2)));

    let bad_strand = fields("1\t12000\t20\t4500\t+-\t2\t10000\t5500\t10000\t4500\t4500\t255");
    assert_eq!(Record::from_fields(&bad_strand, MappingFormat::Paf).err(), Some(RecordError::NotAStrand(4)));

    let bad_m4_strand = fields("1\t2\t0.1\t12\t0\t20\t4500\t12000\t\t5500\t10000\t10000");
    assert_eq!(Record::from_fields(&bad_m4_strand, MappingFormat::M4).err(), Some(RecordError::NotAStrand(8)));

    let past_end = fields("1\t12000\t20\t12001\t-\t2\t10000\t5500\t10000\t4500\t4500\t255");
    assert_eq!(Record::from_fields(&past_end, MappingFormat::Paf).err(), Some(RecordError::OutOfRead));

    let empty = fields("1\t12000\t20\t20\t-\t2\t10000\t5500\t10000\t4500\t4500\t255");
    assert_eq!(Record::from_fields(&empty, MappingFormat::Paf).err(), Some(RecordError::OutOfRead));
}

#[test]
fn record_line_writes_renamed_fields() {
    let line = "1\t12000\t20\t4500\t-\t2\t10000\t5500\t10000\t4500\t4500\t255\tam:I:5";
    let f = fields(line);
    let mut r = Record::from_fields(&f, MappingFormat::Paf).unwrap();
    let same = fpa::codec::record_line(&f, &r, MappingFormat::Paf).unwrap();
    assert_eq!(same, format!("{}\n", line).into_bytes());

    r.read_a = "first".to_string();
    r.read_b = "second".to_string();
    let renamed = fpa::codec::record_line(&f, &r, MappingFormat::Paf).unwrap();
    assert_eq!(
        String::from_utf8(renamed).unwrap(),
        "first\t12000\t20\t4500\t-\tsecond\t10000\t5500\t10000\t4500\t4500\t255\tam:I:5\n"
    );

    let m4 = fields("1\t2\t0.1\t12\t0\t20\t4500\t12000\t1\t5500\t10000\t10000");
    let mut r = Record::from_fields(&m4, MappingFormat::M4).unwrap();
    r.read_b = "b".to_string();
    let out = fpa::codec::record_line(&m4, &r, MappingFormat::M4).unwrap();
    assert_eq!(String::from_utf8(out).unwrap(), "1\tb\t0.1\t12\t0\t20\t4500\t12000\t1\t5500\t10000\t10000\n");
}
