use std::collections::HashSet;

use fpa::classify::{is_containment, is_dovetail, is_internal_match, Threshold};
use fpa::filter::PatternError;
use fpa::gfa_text::push_decimal;
use fpa::graph::Gfa1;
use fpa::indexing::{merge, spans_line, Indexing, WorkOnWichPart};
use fpa::modifier::{self, Modifier};
use fpa::pipeline::Pipeline;
use fpa::policy::{Drop, FilterOptions, Filters, Keep};
use fpa::record::Record;
use fpa::renaming::Renaming;

fn rec(a: &str, la: u64, ba: u64, ea: u64, s: char, b: &str, lb: u64, bb: u64, eb: u64) -> Record {
    Record {
        read_a: a.to_string(),
        length_a: la,
        begin_a: ba,
        end_a: ea,
        strand: s,
        read_b: b.to_string(),
        length_b: lb,
        begin_b: bb,
        end_b: eb,
        position: (0, 0),
    }
}

fn swapped(r: &Record) -> Record {
    rec(&r.read_b, r.length_b, r.begin_b, r.end_b, r.strand, &r.read_a, r.length_a, r.begin_a, r.end_a)
}

fn t08() -> Threshold {
    Threshold::new(4, 5)
}

fn lines(s: &str) -> HashSet<String> {
    s.split('\n').filter(|l| !l.is_empty()).map(|l| l.to_string()).collect()
}

fn no_options() -> FilterOptions {
    FilterOptions {
        containment: false,
        internalmatch: false,
        dovetail: false,
        length_lower: None,
        length_upper: None,
        name_match: None,
        same_name: false,
        sequence_length_lower: None,
        sequence_length_upper: None,
    }
}

fn classes(r: &Record, t: Threshold) -> (bool, bool, bool) {
    (is_internal_match(r, t), is_containment(r, t), is_dovetail(r, t))
}

#[test]
fn every_record_has_exactly_one_class() {
    let records = vec![
        rec("1", 20000, 500, 1000, '+', "2", 20000, 5000, 5500),
        rec("1", 5000, 0, 5000, '+', "2", 20000, 5000, 10000),
        rec("1", 20000, 15000, 20000, '+', "2", 20000, 0, 15000),
        rec("1", 10000, 1999, 10000, '-', "2", 10000, 1999, 10000),
        rec("1", 100, 10, 60, '-', "2", 100, 30, 90),
        rec("1", 1000, 0, 1000, '+', "2", 1000, 0, 1000),
    ];
    for r in &records {
        let (i, c, d) = classes(r, t08());
        assert_eq!(i as u8 + c as u8 + d as u8, 1);
        assert!(!(c && d));
    }
}

#[test]
fn internal_threshold_is_exact() {
    // maplen 1000, threshold 4/5: the limit is 800.
    let at_limit = rec("a", 3000, 400, 1400, '+', "b", 3000, 1000, 2000);
    // overhang = min(400, 1000) + min(1600, 1000) = 1400: internal
    assert!(is_internal_match(&at_limit, t08()));
    let r800 = rec("a", 2000, 400, 1400, '+', "b", 2000, 500, 1500);
    // overhang = min(400, 500) + min(600, 500) = 900 > 800
    assert!(is_internal_match(&r800, t08()));
    let r = rec("a", 1800, 400, 1400, '+', "b", 2000, 500, 1500);
    // overhang = 400 + min(400, 500) = 800, not above 800
    assert!(!is_internal_match(&r, t08()));
    let r = rec("a", 1801, 400, 1400, '+', "b", 2000, 500, 1500);
    // overhang = 400 + 401 = 801
    assert!(is_internal_match(&r, t08()));
}

#[test]
fn swapping_sides_flips_containment() {
    let r = rec("1", 2000, 500, 1500, '+', "2", 1000, 0, 1000);
    let s = swapped(&r);
    assert_eq!(classes(&r, t08()), classes(&s, t08()));
    assert!(is_containment(&r, t08()));

    let mut g = Gfa1::new(true, true, t08());
    g.add(&r);
    let mut h = Gfa1::new(true, true, t08());
    h.add(&s);
    assert_eq!(lines(&g.write()), lines(&h.write()));
    assert!(g.write().contains("C\t1\t+\t2\t+\t500\t1000M"));
}

#[test]
fn swapping_sides_keeps_the_dovetail_link() {
    let r = rec("1", 10000, 2000, 10000, '+', "2", 10000, 0, 8000);
    let s = swapped(&r);
    assert_eq!(classes(&r, t08()), (false, false, true));
    assert_eq!(classes(&s, t08()), (false, false, true));
    let mut g = Gfa1::new(true, true, t08());
    g.add(&r);
    let mut h = Gfa1::new(true, true, t08());
    h.add(&s);
    assert_eq!(lines(&g.write()), lines(&h.write()));
}

#[test]
fn swapping_sides_on_reverse_boundary_changes_class() {
    // begin_a == length_b - end_b on the reverse strand: A contains B, but
    // the swapped record is a dovetail.
    let r = rec("1", 100, 10, 60, '-', "2", 100, 30, 90);
    assert_eq!(classes(&r, t08()), (false, true, false));
    assert_eq!(classes(&swapped(&r), t08()), (false, false, true));
}

#[test]
fn edge_dedup_keeps_longer_overlap_in_either_order() {
    // overlap 5, then overlap 10, between reads A and B
    let five = rec("A", 1000, 995, 1000, '+', "B", 1000, 0, 5);
    let ten = rec("B", 1000, 0, 10, '+', "A", 1000, 990, 1000);
    for order in [[&five, &ten], [&ten, &five]] {
        let mut g = Gfa1::new(true, true, t08());
        for r in order {
            assert!(is_dovetail(r, t08()));
            g.add(r);
        }
        let out = g.write();
        let links: Vec<&str> = out.split('\n').filter(|l| l.starts_with("L\t")).collect();
        assert_eq!(links, vec!["L\tA\t+\tB\t+\t10M"]);
    }
}

#[test]
fn edge_dedup_equal_overlap_keeps_first() {
    let ab = rec("A", 1000, 200, 1000, '+', "B", 1000, 0, 800);
    let ba = rec("A", 1000, 0, 800, '+', "B", 1000, 200, 1000);
    let mut g = Gfa1::new(true, true, t08());
    g.add(&ab);
    g.add(&ba);
    let out = g.write();
    let links: Vec<&str> = out.split('\n').filter(|l| l.starts_with("L\t")).collect();
    assert_eq!(links, vec!["L\tA\t+\tB\t+\t800M"]);
}

#[test]
fn containment_replace_last_wins() {
    // both records contain read C; the later one stays, whatever its overlap
    let first = rec("X", 5000, 100, 1100, '+', "C", 1000, 0, 1000);
    let second = rec("Y", 3000, 10, 1010, '+', "C", 1000, 0, 1000);
    assert!(is_containment(&first, t08()) && is_containment(&second, t08()));
    let mut g = Gfa1::new(true, true, t08());
    g.add(&first);
    g.add(&second);
    let out = g.write();
    let cs: Vec<&str> = out.split('\n').filter(|l| l.starts_with("C\t")).collect();
    assert_eq!(cs, vec!["C\tY\t+\tC\t+\t10\t1000M"]);
}

#[test]
fn dropping_containments_drops_contained_reads() {
    // B contains C, and C also has a dovetail with D
    let contain = rec("B", 8853, 5997, 8553, '-', "C", 2962, 80, 2901);
    let dove = rec("C", 2962, 962, 2962, '+', "D", 5000, 0, 2000);
    let mut g = Gfa1::new(true, false, t08());
    g.add(&contain);
    g.add(&dove);
    assert_eq!(lines(&g.write()), lines("H\tVN:Z:1.0\n"));

    let mut k = Gfa1::new(true, true, t08());
    k.add(&contain);
    k.add(&dove);
    let out = lines(&k.write());
    assert!(out.contains("S\tC\t*\tLN:i:2962"));
    assert!(out.contains("S\tD\t*\tLN:i:5000"));
    assert!(out.contains("L\tC\t+\tD\t+\t2000M"));
}

#[test]
fn mutual_containment_scenario() {
    let mut g = Gfa1::new(true, true, t08());
    g.add(&rec("A", 1000, 0, 1000, '+', "B", 1000, 1, 999));
    g.add(&rec("B", 1000, 0, 1000, '+', "A", 1000, 1, 999));
    assert_eq!(
        g.write(),
        "H\tVN:Z:1.0\nS\tB\t*\tLN:i:1000\nS\tA\t*\tLN:i:1000\nC\tB\t+\tA\t+\t1\t998M\nC\tA\t+\tB\t+\t1\t998M\n"
    );
}

#[test]
fn single_dovetail_scenario() {
    let r = rec("1", 10000, 2000, 10000, '+', "2", 10000, 0, 8000);
    assert!(is_dovetail(&r, t08()));
    let mut g = Gfa1::new(true, true, t08());
    g.add(&r);
    assert_eq!(
        g.write(),
        "H\tVN:Z:1.0\nS\t1\t*\tLN:i:10000\nS\t2\t*\tLN:i:10000\nL\t1\t+\t2\t+\t8000M\n"
    );
}

#[test]
fn empty_graph_is_header_only() {
    assert_eq!(Gfa1::new(true, true, t08()).write(), "H\tVN:Z:1.0\n");
}

#[test]
fn self_overlap_writes_one_segment() {
    let mut g = Gfa1::new(true, true, t08());
    g.add(&rec("A", 17472, 15493, 17472, '-', "A", 17472, 15493, 17472));
    assert_eq!(g.write(), "H\tVN:Z:1.0\nS\tA\t*\tLN:i:17472\nL\tA\t+\tA\t-\t1979M\n");
}

#[test]
fn decimal_text() {
    for (n, s) in [(0u64, "0"), (7, "7"), (10, "10"), (8000, "8000"), (u64::MAX, "18446744073709551615")] {
        let mut out = String::from("x");
        push_decimal(&mut out, n);
        assert_eq!(out, format!("x{}", s));
    }
}

#[test]
fn spans_merge_into_runs() {
    let spans = vec![(0u64, 100u64), (100, 150), (151, 200), (300, 400), (400, 450)];
    assert_eq!(merge(&spans), vec![(0, 200), (300, 450)]);
    assert_eq!(spans_line(&spans), "0:200;300:450");
    assert_eq!(spans_line(&vec![]), "");
    assert_eq!(spans_line(&vec![(5, 9)]), "5:9");
}

#[test]
fn indexing_records_spans_per_read() {
    let mut index = Indexing::new("index.csv", "both");
    let mut r = rec("a", 100, 0, 50, '+', "b", 100, 50, 100);
    r.position = (0, 10);
    index.run(&r);
    r.position = (10, 20);
    index.run(&r);
    let mut same = rec("a", 100, 0, 50, '+', "a", 100, 50, 100);
    same.position = (40, 50);
    index.run(&same);
    assert_eq!(
        index.write(),
        vec![
            ("a".to_string(), "0:20;40:50".to_string()),
            ("b".to_string(), "0:20".to_string()),
        ]
    );

    let mut query = Indexing::new("index.csv", "query");
    query.run(&r);
    assert_eq!(query.write(), vec![("a".to_string(), "10:20".to_string())]);
    let mut target = Indexing::new("index.csv", "target");
    target.run(&r);
    assert_eq!(target.write(), vec![("b".to_string(), "10:20".to_string())]);

    let mut none = Indexing::empty();
    none.run(&r);
    assert!(none.write().is_empty());
    assert_eq!(none.file_index_path(), "");
}

#[test]
fn index_side_names() {
    assert_eq!(WorkOnWichPart::from_name("query"), WorkOnWichPart::Query);
    assert_eq!(WorkOnWichPart::from_name("target"), WorkOnWichPart::Target);
    assert_eq!(WorkOnWichPart::from_name("both"), WorkOnWichPart::Both);
}

#[test]
fn renaming_numbers_reads_in_order() {
    let mut ren = Renaming::new("names.csv", false, &vec![]);
    let mut r = rec("alpha", 100, 0, 50, '+', "beta", 100, 50, 100);
    ren.run(&mut r);
    assert_eq!((r.read_a.as_str(), r.read_b.as_str()), ("1", "2"));
    let mut s = rec("beta", 100, 0, 50, '+', "gamma", 100, 50, 100);
    ren.run(&mut s);
    assert_eq!((s.read_a.as_str(), s.read_b.as_str()), ("2", "3"));
    assert_eq!(s.length_a, 100);
    assert_eq!(ren.counter_value(), 4);
    assert_eq!(
        ren.write(),
        Some(vec![
            ("alpha".to_string(), "1".to_string()),
            ("beta".to_string(), "2".to_string()),
            ("gamma".to_string(), "3".to_string()),
        ])
    );
}

#[test]
fn renaming_by_table() {
    let pairs = vec![
        ("alpha".to_string(), "x".to_string()),
        ("beta".to_string(), "y".to_string()),
        ("alpha".to_string(), "z".to_string()),
    ];
    let mut ren = Renaming::new("names.csv", true, &pairs);
    let mut r = rec("alpha", 100, 0, 50, '+', "delta", 100, 50, 100);
    ren.run(&mut r);
    assert_eq!((r.read_a.as_str(), r.read_b.as_str()), ("z", "delta"));
    assert_eq!(ren.write(), None);
}

#[test]
fn policies_from_options() {
    let r = rec("a", 20000, 500, 1000, '+', "b", 20000, 5000, 5500);
    let mut opts = no_options();
    let keep = Keep::new(t08(), &opts).unwrap();
    let drop = Drop::new(t08(), &opts).unwrap();
    assert!(keep.pass(&r) && drop.pass(&r));

    opts.internalmatch = true;
    let keep = Keep::new(t08(), &opts).unwrap();
    let drop = Drop::new(t08(), &opts).unwrap();
    assert!(keep.pass(&r));
    assert!(!drop.pass(&r));

    opts.same_name = true;
    let keep = Keep::new(t08(), &opts).unwrap();
    assert!(!keep.pass(&r));
    assert_eq!(keep.internal_match(), t08());

    opts.name_match = Some("[".to_string());
    assert_eq!(Drop::new(t08(), &opts).err(), Some(PatternError::Invalid));
}

#[test]
fn pipeline_filters_modifies_and_indexes() {
    let mut opts = no_options();
    opts.containment = true;
    let keep = Keep::new(t08(), &no_options()).unwrap();
    let drop = Drop::new(t08(), &opts).unwrap();
    let ren = Renaming::new("names.csv", false, &vec![]);
    let gfa = modifier::Gfa1::new("out.gfa".to_string(), true, true, t08());
    let m = Modifier::new(Some(ren), Some(gfa));
    let mut p = Pipeline::new(keep, drop, m, Indexing::new("index.csv", "both"));

    let mut contained = rec("X", 5000, 100, 1100, '+', "C", 1000, 0, 1000);
    assert!(!p.accept(&mut contained));
    assert_eq!(contained.read_a, "X");

    let mut dove = rec("P", 10000, 2000, 10000, '+', "Q", 10000, 0, 8000);
    assert!(p.accept(&mut dove));
    assert_eq!((dove.read_a.as_str(), dove.read_b.as_str()), ("1", "2"));
    p.written(&mut dove, 42);
    assert_eq!(dove.position, (0, 42));
    assert_eq!(p.position, 42);

    let out = p.modifier.write();
    let (gfa_path, text) = out.gfa.unwrap();
    assert_eq!(gfa_path, "out.gfa");
    assert_eq!(text, "H\tVN:Z:1.0\nS\t1\t*\tLN:i:10000\nS\t2\t*\tLN:i:10000\nL\t1\t+\t2\t+\t8000M\n");
    let (names_path, rows) = out.renaming.unwrap();
    assert_eq!(names_path, "names.csv");
    assert_eq!(rows.len(), 2);
    assert_eq!(
        p.index.write(),
        vec![("1".to_string(), "0:42".to_string()), ("2".to_string(), "0:42".to_string())]
    );
}

#[test]
fn swapping_sides_on_reverse_strand_reads_link_from_other_strand() {
    let r = rec("1", 10000, 1999, 10000, '-', "2", 10000, 1999, 10000);
    let mut g = Gfa1::new(true, true, t08());
    g.add(&r);
    assert!(g.write().contains("L\t1\t+\t2\t-\t8001M"));
    // the same overlap, 2+ then 1- being 1+ then 2- read from the other strand
    let mut h = Gfa1::new(true, true, t08());
    h.add(&swapped(&r));
    assert!(h.write().contains("L\t2\t+\t1\t-\t8001M"));
}
