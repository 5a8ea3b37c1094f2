use blobstream::segment::{
    needs_probe, plan_download, plan_segments, Segment, MAX_SEGMENTS, OPEN_END, PARALLEL_MIN_SIZE,
    SEGMENT_TARGET,
};

const MIB: u64 = 1024 * 1024;

#[test]
fn plan_segments_covers_the_blob_exactly() {
    for total in [
        PARALLEL_MIN_SIZE + 1,
        SEGMENT_TARGET * 2,
        SEGMENT_TARGET * 7 + 12345,
        SEGMENT_TARGET * 64,
        u64::from(u32::MAX),
    ] {
        let plan = plan_segments(total);
        assert!(!plan.is_empty(), "total {total} produced no segments");
        assert!(
            plan.len() <= MAX_SEGMENTS,
            "total {total} produced {} segments, over the cap",
            plan.len()
        );
        assert_eq!(
            plan[0].start, 0,
            "total {total}: first segment must start at 0"
        );
        assert_eq!(
            plan.last().unwrap().end,
            total,
            "total {total}: last segment must end at the blob end"
        );
        for pair in plan.windows(2) {
            assert_eq!(
                pair[0].end, pair[1].start,
                "total {total}: segments must be contiguous, no gap and no overlap"
            );
        }
        let covered: u64 = plan.iter().map(|s| s.end - s.start).sum();
        assert_eq!(covered, total, "total {total}: coverage must be exact");
    }
}

#[test]
fn plan_of_forty_mib_is_two_halves() {
    let plan = plan_segments(40 * MIB);
    assert_eq!(
        plan,
        vec![
            Segment { start: 0, end: 20 * MIB },
            Segment { start: 20 * MIB, end: 40 * MIB },
        ]
    );
}

#[test]
fn plan_of_an_odd_size_has_a_short_tail() {
    let total = 3 * SEGMENT_TARGET + 1;
    let per = total.div_ceil(4);
    let plan = plan_segments(total);
    assert_eq!(plan.len(), 4);
    assert_eq!(plan[1], Segment { start: per, end: 2 * per });
    assert_eq!(plan[3], Segment { start: 3 * per, end: total });
}

#[test]
fn plan_of_nothing_is_empty() {
    assert!(plan_segments(0).is_empty());
}

#[test]
fn plan_of_one_byte_is_one_segment() {
    assert_eq!(plan_segments(1), vec![Segment { start: 0, end: 1 }]);
}

#[test]
fn plan_of_the_largest_size_covers_it() {
    let total = u64::MAX - 7;
    let plan = plan_segments(total);
    assert_eq!(plan.len(), MAX_SEGMENTS);
    assert_eq!(plan[7].end, total);
}

#[test]
fn only_large_blobs_are_probed() {
    assert!(!needs_probe(None));
    assert!(!needs_probe(Some(0)));
    assert!(!needs_probe(Some(PARALLEL_MIN_SIZE)));
    assert!(needs_probe(Some(PARALLEL_MIN_SIZE + 1)));
}

#[test]
fn one_connection_unless_large_and_ranged() {
    assert_eq!(plan_download(None, true), vec![Segment { start: 0, end: OPEN_END }]);
    assert_eq!(plan_download(Some(0), true), vec![Segment { start: 0, end: 0 }]);
    assert_eq!(
        plan_download(Some(PARALLEL_MIN_SIZE), true),
        vec![Segment { start: 0, end: PARALLEL_MIN_SIZE }]
    );
    assert_eq!(
        plan_download(Some(40 * MIB), false),
        vec![Segment { start: 0, end: 40 * MIB }]
    );
    assert_eq!(plan_download(Some(40 * MIB), true).len(), 2);
    assert_eq!(plan_download(Some(u64::MAX), false), vec![Segment { start: 0, end: u64::MAX }]);
}
