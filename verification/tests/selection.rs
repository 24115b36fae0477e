use cubemap_cycler::formats::{Compression, FormatSet};
use cubemap_cycler::select::select;
use cubemap_cycler::table::{Candidate, CandidateTable};

fn three_way_table() -> CandidateTable {
    CandidateTable::new(vec![
        Candidate::new("a.png", FormatSet::none()),
        Candidate::new("b.ktx2", FormatSet::single(Compression::AstcLdr)),
        Candidate::new("c.ktx2", FormatSet::single(Compression::Bc)),
    ])
    .expect("three candidates")
}

fn compressed_only_table() -> CandidateTable {
    CandidateTable::new(vec![
        Candidate::new("astc.ktx2", FormatSet::single(Compression::AstcLdr)),
        Candidate::new("bc.ktx2", FormatSet::single(Compression::Bc)),
        Candidate::new("etc2.ktx2", FormatSet::single(Compression::Etc2)),
    ])
    .expect("three candidates")
}

#[test]
fn scan_skips_unsupported_and_stops_on_first_supported() {
    let table = three_way_table();
    let r = select(&table, 0, FormatSet::single(Compression::Bc));
    assert_eq!(r.index, 2);
    assert_eq!(r.skipped, vec![1]);
}

#[test]
fn scan_wraps_around_the_end_of_the_table() {
    let table = three_way_table();
    let r = select(&table, 2, FormatSet::single(Compression::Bc));
    assert_eq!(r.index, 0);
    assert!(r.skipped.is_empty());
    let r = select(&table, 1, FormatSet::single(Compression::AstcLdr));
    assert_eq!(r.index, 0);
    assert_eq!(r.skipped, vec![2]);
}

#[test]
fn the_first_eligible_candidate_in_scan_order_wins() {
    let table = CandidateTable::standard();
    let all = FormatSet::from_bits_truncate(7);
    assert_eq!(select(&table, 0, all).index, 1);
    assert_eq!(select(&table, 1, all).index, 2);
    assert_eq!(select(&table, 2, all).index, 3);
    assert_eq!(select(&table, 3, all).index, 0);
    assert!(select(&table, 3, all).skipped.is_empty());
}

#[test]
fn the_result_is_always_supported_when_something_is() {
    let table = CandidateTable::standard();
    for bits in 0u32..8 {
        let supported = FormatSet::from_bits_truncate(bits);
        for current in 0..table.len() {
            let r = select(&table, current, supported);
            assert!(r.index < table.len());
            assert!(supported.contains(table.get(r.index).required));
            assert!(r.skipped.len() <= table.len());
            for &passed in &r.skipped {
                assert!(!supported.contains(table.get(passed).required));
            }
        }
    }
}

#[test]
fn nothing_eligible_returns_the_current_position() {
    let table = compressed_only_table();
    for current in 0..3 {
        let r = select(&table, current, FormatSet::none());
        assert_eq!(r.index, current);
        assert_eq!(r.skipped.len(), 3);
    }
    let r = select(&table, 1, FormatSet::none());
    assert_eq!(r.skipped, vec![2, 0, 1]);
}

#[test]
fn only_the_current_candidate_eligible_is_a_stable_no_op() {
    let table = compressed_only_table();
    let supported = FormatSet::single(Compression::Bc);
    let mut current = 1;
    for _ in 0..10 {
        let r = select(&table, current, supported);
        assert_eq!(r.index, 1);
        assert_eq!(r.skipped, vec![2, 0]);
        current = r.index;
    }
}

#[test]
fn a_scan_looks_at_no_candidate_twice() {
    let table = CandidateTable::standard();
    for current in 0..4 {
        let r = select(&table, current, FormatSet::none());
        // The uncompressed candidate is always eligible, so it is never
        // among the skipped ones, and the others appear at most once.
        let mut seen = [false; 4];
        for &passed in &r.skipped {
            assert!(!seen[passed]);
            seen[passed] = true;
        }
        assert!(!seen[0]);
        assert_eq!(r.index, 0);
    }
}

#[test]
fn a_table_of_one_candidate_always_selects_it() {
    let supported_table =
        CandidateTable::new(vec![Candidate::new("only", FormatSet::none())]).expect("one");
    let r = select(&supported_table, 0, FormatSet::none());
    assert_eq!(r.index, 0);
    assert!(r.skipped.is_empty());

    let unsupported_table =
        CandidateTable::new(vec![Candidate::new("only", FormatSet::single(Compression::Bc))])
            .expect("one");
    let r = select(&unsupported_table, 0, FormatSet::none());
    assert_eq!(r.index, 0);
    assert_eq!(r.skipped, vec![0]);
}

#[test]
fn a_candidate_that_needs_two_schemes_needs_both() {
    let both = FormatSet::single(Compression::Bc).union(FormatSet::single(Compression::Etc2));
    let table = CandidateTable::new(vec![
        Candidate::new("plain", FormatSet::none()),
        Candidate::new("both", both),
    ])
    .expect("two candidates");
    let r = select(&table, 0, FormatSet::single(Compression::Bc));
    assert_eq!(r.index, 0);
    assert_eq!(r.skipped, vec![1]);
    let r = select(&table, 0, both);
    assert_eq!(r.index, 1);
    assert!(r.skipped.is_empty());
}
