use std::collections::HashSet;

use fpa::classify::Threshold;
use fpa::graph::Gfa1;
use fpa::record::Record;

/// Records of a PAF text: twelve tab-separated columns or more per line.
fn paf_records(text: &str) -> Vec<Record> {
    text.split('\n')
        .filter(|line| !line.trim().is_empty())
        .map(|line| {
            let f: Vec<&str> = line.split('\t').collect();
            Record {
                read_a: f[0].to_string(),
                length_a: f[1].parse().unwrap(),
                begin_a: f[2].parse().unwrap(),
                end_a: f[3].parse().unwrap(),
                strand: f[4].chars().next().unwrap(),
                read_b: f[5].to_string(),
                length_b: f[6].parse().unwrap(),
                begin_b: f[7].parse().unwrap(),
                end_b: f[8].parse().unwrap(),
                position: (0, 0),
            }
        })
        .collect()
}

fn new_gfa(keep_internal: bool, keep_containment: bool) -> Gfa1 {
    Gfa1::new(keep_internal, keep_containment, Threshold::new(4, 5))
}

fn run_test(paf: &str, truth: &str, mut gfa: Gfa1) {
    for r in paf_records(paf) {
        assert!(r.is_valid());
        gfa.add(&r);
    }

    let output = gfa.write();
    println!("Result\n{}", output);
    println!("True\n{}", truth);

    let truth = truth.split('\n').collect::<HashSet<&str>>();
    let output = output.split('\n').collect::<HashSet<&str>>();

    assert_eq!(truth, output);
}

#[test]
fn basic() {
    let paf = "1\t10000\t1999\t10000\t-\t2\t10000\t1999\t10000\t8001\t8001\t255
1\t10000\t0\t8000\t-\t5\t10000\t1\t8000\t7999\t7999\t255
2\t10000\t1\t8000\t-\t3\t10000\t0\t8000\t8000\t8000\t255
3\t10000\t2000\t10000\t+\t4\t10000\t0\t8000\t8000\t8000\t255
";

    let gfa = "H\tVN:Z:1.0
S\t1\t*\tLN:i:10000
S\t2\t*\tLN:i:10000
S\t5\t*\tLN:i:10000
S\t3\t*\tLN:i:10000
S\t4\t*\tLN:i:10000
L\t1\t+\t2\t-\t8001M
L\t1\t-\t5\t+\t7999M
L\t2\t-\t3\t+\t7999M
L\t3\t+\t4\t+\t8000M
";

    run_test(paf, gfa, new_gfa(false, false));
}

#[test]
fn two_repeat_strand_diff() {
    let paf = "1\t10000\t2000\t10000\t-\t2\t10000\t1999\t10000\t8001\t8001\t255
5\t10000\t1\t8000\t-\t1\t10000\t0\t8000\t8000\t8000\t255
2\t10000\t1\t8000\t-\t3\t10000\t0\t8000\t8000\t8000\t255
3\t10000\t2000\t10000\t+\t4\t10000\t0\t8000\t8000\t8000\t255
4\t10000\t2000\t10000\t+\t9\t10000\t0\t8000\t8000\t8000\t255
4\t10000\t2001\t10000\t-\t7\t10000\t2000\t10000\t8000\t8000\t255
8\t10000\t2000\t10000\t+\t7\t10000\t0\t8000\t8000\t8000\t255
7\t10000\t2000\t10000\t+\t6\t10000\t0\t8000\t8000\t8000\t255
6\t10000\t2001\t10000\t-\t5\t10000\t2000\t10000\t8000\t8000\t255
";

    let gfa = "H\tVN:Z:1.0
S\t1\t*\tLN:i:10000
S\t2\t*\tLN:i:10000
S\t5\t*\tLN:i:10000
S\t3\t*\tLN:i:10000
S\t4\t*\tLN:i:10000
S\t9\t*\tLN:i:10000
S\t7\t*\tLN:i:10000
S\t8\t*\tLN:i:10000
S\t6\t*\tLN:i:10000
L\t1\t+\t2\t-\t8000M
L\t5\t-\t1\t+\t7999M
L\t2\t-\t3\t+\t7999M
L\t3\t+\t4\t+\t8000M
L\t4\t+\t9\t+\t8000M
L\t4\t+\t7\t-\t7999M
L\t8\t+\t7\t+\t8000M
L\t7\t+\t6\t+\t8000M
L\t6\t+\t5\t-\t7999M
";

    run_test(paf, gfa, new_gfa(false, false));
}

// B is contained in A, same strand
#[test]
fn a_contain_b_keep_contain_strand_same() {
    let paf = "1\t2000\t500\t1500\t+\t2\t1000\t0\t1000\t30\t1000\t255";
    let gfa = "H\tVN:Z:1.0
S\t1\t*\tLN:i:2000
S\t2\t*\tLN:i:1000
C\t1\t+\t2\t+\t500\t1000M
";

    run_test(paf, gfa, new_gfa(true, true));
}

// B is contained in A, opposite strands
#[test]
fn a_contain_b_keep_contain_strand_diff() {
    let paf = "1\t2000\t500\t1500\t-\t2\t1000\t0\t1000\t30\t1000\t255";
    let gfa = "H\tVN:Z:1.0
S\t1\t*\tLN:i:2000
S\t2\t*\tLN:i:1000
C\t1\t+\t2\t-\t500\t1000M
";

    run_test(paf, gfa, new_gfa(true, true));
}

// A is contained in B, same strand
#[test]
fn b_contain_a_keep_contain_strand_same() {
    let paf = "2\t1000\t0\t1000\t+\t1\t2000\t500\t1500\t30\t1000\t255";
    let gfa = "H\tVN:Z:1.0
S\t1\t*\tLN:i:2000
S\t2\t*\tLN:i:1000
C\t1\t+\t2\t+\t500\t1000M
";

    run_test(paf, gfa, new_gfa(true, true));
}

// A is contained in B, opposite strands
#[test]
fn b_contain_a_keep_contain_strand_diff() {
    let paf = "2\t1000\t0\t1000\t-\t1\t2000\t500\t1500\t30\t1000\t255";
    let gfa = "H\tVN:Z:1.0
S\t1\t*\tLN:i:2000
S\t2\t*\tLN:i:1000
C\t1\t+\t2\t-\t500\t1000M
";

    run_test(paf, gfa, new_gfa(true, true));
}

#[test]
fn a_contain_b_leave_contain_strand_same() {
    let paf = "1\t2000\t500\t1500\t+\t2\t1000\t0\t1000\t30\t1000\t255";
    let gfa = "H\tVN:Z:1.0\n";

    run_test(paf, gfa, new_gfa(true, false));
}

#[test]
fn a_contain_b_leave_contain_strand_diff() {
    let paf = "1\t2000\t500\t1500\t-\t2\t1000\t0\t1000\t30\t1000\t255";
    let gfa = "H\tVN:Z:1.0\n";

    run_test(paf, gfa, new_gfa(true, false));
}

#[test]
fn b_contain_a_leave_contain_strand_same() {
    let paf = "2\t1000\t0\t1000\t+\t1\t2000\t500\t1500\t30\t1000\t255";
    let gfa = "H\tVN:Z:1.0\n";

    run_test(paf, gfa, new_gfa(true, false));
}

#[test]
fn b_contain_a_leave_contain_strand_diff() {
    let paf = "2\t1000\t0\t1000\t-\t1\t2000\t500\t1500\t30\t1000\t255";
    let gfa = "H\tVN:Z:1.0\n";

    run_test(paf, gfa, new_gfa(true, false));
}

// Mutual containment: each direction is kept, keyed by its contained read.
#[test]
fn a_contai_b_b_contain_a() {
    let paf = "A\t1000\t0\t1000\t+\tB\t1000\t1\t999\t0\t1000\t255
B\t1000\t0\t1000\t+\tA\t1000\t1\t999\t0\t1000\t255";
    let gfa = "H\tVN:Z:1.0
S\tA\t*\tLN:i:1000
S\tB\t*\tLN:i:1000
C\tB\t+\tA\t+\t1\t998M
C\tA\t+\tB\t+\t1\t998M
";

    run_test(paf, gfa, new_gfa(true, true));
}

#[test]
fn duplication() {
    let paf = "A\t1000\t200\t1000\t+\tB\t1000\t0\t800\t800\t800\t255
A\t1000\t200\t1000\t+\tB\t1000\t0\t800\t800\t800\t255
B\t1000\t0\t800\t+\tA\t1000\t200\t1000\t800\t800\t255
";

    let gfa = "H\tVN:Z:1.0
S\tA\t*\tLN:i:1000
S\tB\t*\tLN:i:1000
L\tA\t+\tB\t+\t800M
";

    run_test(paf, gfa, new_gfa(true, false));
}

#[test]
fn a_b_internal_match_keep_same() {
    let paf = "A\t10000\t200\t5100\t+\tB\t10000\t100\t5000\t30\t4900\t255";
    let resu = "
H\tVN:Z:1.0
S\tA\t*\tLN:i:10000
S\tB\t*\tLN:i:10000
L\tA\t+\tB\t+\t4900M
";

    run_test(paf, resu, new_gfa(true, true));
}

#[test]
fn a_b_internal_match_keep_diff() {
    let line = "A\t10000\t2200\t7100\t-\tB\t10000\t2100\t7000\t30\t4900\t255";
    let resu = "
H\tVN:Z:1.0
S\tA\t*\tLN:i:10000
S\tB\t*\tLN:i:10000
L\tA\t-\tB\t+\t4900M
";
    run_test(line, resu, new_gfa(true, true));
}

#[test]
fn a_b_internal_match_remove_same() {
    let line = "A\t10000\t200\t5100\t+\tB\t10000\t100\t5000\t30\t4900\t255";
    let resu = "
H\tVN:Z:1.0
";
    run_test(line, resu, new_gfa(false, true));
}

#[test]
fn a_b_internal_match_remove_diff() {
    let line = "A\t10000\t2200\t7100\t-\tB\t10000\t2100\t7000\t30\t4900\t255";
    let resu = "
H\tVN:Z:1.0
";
    run_test(line, resu, new_gfa(false, true));
}

#[test]
fn test_minimap_3contain() {
    let line = "56001\t3693\t79\t3329\t+\t63107\t23535\t5870\t9145\t350\t3275\t255\tcm:i:38
59727\t27255\t14393\t26854\t-\t63107\t23535\t11119\t23497\t1298\t12461\t255\tcm:i:145
59847\t18269\t51\t18268\t-\t63107\t23535\t4047\t22282\t2124\t18235\t255\tcm:i:247";

    let resu = "
H\tVN:Z:1.0
S\t63107\t*\tLN:i:23535
S\t56001\t*\tLN:i:3693
S\t59727\t*\tLN:i:27255
S\t59847\t*\tLN:i:18269
L\t59727\t+\t63107\t-\t12378M
C\t63107\t+\t56001\t+\t5870\t3250M
C\t63107\t+\t59847\t-\t4047\t18217M
";

    run_test(line, resu, new_gfa(true, true));
}

// overlap at A 3' same orientation
#[test]
fn test_a_3_same() {
    let line = "1\t1000\t20\t1000\t+\t2\t1000\t0\t980\t30\t980\t255";
    let resu = "H\tVN:Z:1.0\nS\t1\t*\tLN:i:1000\nS\t2\t*\tLN:i:1000\nL\t1\t+\t2\t+\t980M\n";

    run_test(line, resu, new_gfa(true, true));
}

// overlap at A 3' orientation is different
#[test]
fn test_a_3_diff() {
    let line = "1\t1000\t10\t1000\t-\t2\t1000\t10\t1000\t30\t980\t255";
    let resu = "H\tVN:Z:1.0\nS\t1\t*\tLN:i:1000\nS\t2\t*\tLN:i:1000\nL\t1\t+\t2\t-\t990M\n";

    run_test(line, resu, new_gfa(true, true));
}

// overlap at A 5' orientation is same
#[test]
fn test_a_5_same() {
    let line = "1\t1000\t0\t980\t+\t2\t1000\t20\t1000\t30\t980\t255";
    let resu = "H\tVN:Z:1.0\nS\t1\t*\tLN:i:1000\nS\t2\t*\tLN:i:1000\nL\t2\t+\t1\t+\t980M\n";

    run_test(line, resu, new_gfa(true, true));
}

// overlap at A 5' orientation is different
#[test]
fn test_a_5_diff() {
    let line = "1\t1000\t0\t980\t-\t2\t1000\t0\t980\t30\t960\t255";
    let resu = "H\tVN:Z:1.0\nS\t1\t*\tLN:i:1000\nS\t2\t*\tLN:i:1000\nL\t1\t-\t2\t+\t980M\n";

    run_test(line, resu, new_gfa(true, true));
}

#[test]
fn test_a_overlap_b_b_contained_c_keep_all() {
    let line = "
B\t8853\t7897\t8500\t-\tA\t25804\t24891\t25773\t150\t882\t255\tcm:i:16
B\t8853\t5997\t8553\t-\tC\t2962\t80\t2901\t511\t2821\t255\tcm:i:76
";

    let resu = "
H\tVN:Z:1.0
S\tB\t*\tLN:i:8853
S\tA\t*\tLN:i:25804
S\tC\t*\tLN:i:2962
L\tB\t+\tA\t-\t603M
C\tB\t+\tC\t-\t5997\t2556M
";

    run_test(line, resu, new_gfa(true, true));
}

#[test]
fn test_a_overlap_b_b_contained_c_leave_all() {
    let line = "
B\t8853\t7897\t8500\t-\tA\t25804\t24891\t25773\t150\t882\t255\tcm:i:16
B\t8853\t5997\t8553\t-\tC\t2962\t80\t2901\t511\t2821\t255\tcm:i:76
";

    let resu = "
H\tVN:Z:1.0
S\tB\t*\tLN:i:8853
S\tA\t*\tLN:i:25804
L\tB\t+\tA\t-\t603M
";
    run_test(line, resu, new_gfa(false, false));
}

#[test]
fn test_a_overlap_a() {
    let line = "A\t17472\t15493\t17472\t-\tA\t17472\t15493\t17472\t314\t197\t255\tcm:i:38\n";

    let resu = "H\tVN:Z:1.0
S\tA\t*\tLN:i:17472
L\tA\t+\tA\t-\t1979M
";
    run_test(line, resu, new_gfa(true, true));
}
