use blobstream::segment::Segment;
use blobstream::state::DownloadState;

fn state(plan: &[(u64, u64)], written: &[u64]) -> DownloadState {
    let mut st = DownloadState::new(
        plan.iter()
            .map(|&(start, end)| Segment { start, end })
            .collect(),
    );
    for (i, w) in written.iter().enumerate() {
        st.written[i] = *w;
    }
    st
}

/// The readable prefix is what tailing readers are handed. Segments land
/// out of order, so a finished tail must contribute NOTHING until every
/// byte before it exists, otherwise a reader is served sparse zeroes.
#[test]
fn contiguous_stops_at_the_first_hole() {
    let plan = [(0, 10), (10, 20), (20, 30)];

    assert_eq!(state(&plan, &[0, 0, 0]).contiguous(), 0);
    assert_eq!(state(&plan, &[4, 0, 0]).contiguous(), 4);
    // Segment 2 is complete but segment 0 is not: still 4 readable bytes.
    assert_eq!(state(&plan, &[4, 0, 10]).contiguous(), 4);
    assert_eq!(state(&plan, &[4, 10, 10]).contiguous(), 4);
    // Segment 0 completes and the prefix jumps across both finished ones.
    assert_eq!(state(&plan, &[10, 10, 10]).contiguous(), 30);
    // Middle segment partially done, tail done: prefix stops mid-segment.
    assert_eq!(state(&plan, &[10, 3, 10]).contiguous(), 13);
}

#[test]
fn contiguous_handles_the_unknown_length_segment() {
    // No Content-Length: one open-ended segment, never "complete", so the
    // prefix is simply what has been written.
    let st = state(&[(0, u64::MAX)], &[777]);
    assert_eq!(st.contiguous(), 777);
}

#[test]
fn contiguous_of_an_empty_plan_is_nothing() {
    assert_eq!(state(&[], &[]).contiguous(), 0);
}

#[test]
fn a_new_state_has_written_nothing() {
    let st = state(&[(0, 10), (10, 20)], &[]);
    assert_eq!(st.written, vec![0, 0]);
    assert_eq!(st.plan.len(), 2);
}

#[test]
fn advancing_moves_one_segment_only() {
    let mut st = state(&[(0, 10), (10, 20)], &[4, 5]);
    st.advance(1, 3);
    assert_eq!(st.written, vec![4, 8]);
    assert_eq!(st.position(1), 18);
    assert_eq!(st.room(1), 2);
    assert_eq!(st.position(0), 4);
    assert_eq!(st.room(0), 6);
    assert_eq!(st.contiguous(), 4);
}

#[test]
fn the_prefix_never_shrinks() {
    let mut st = state(&[(0, 4), (4, 8), (8, 12)], &[0, 0, 0]);
    let mut last = st.contiguous();
    for idx in [2, 1, 0, 2, 1, 0, 1, 0, 2, 0, 1, 2] {
        st.advance(idx, 1);
        let now = st.contiguous();
        assert!(now >= last);
        last = now;
    }
    assert_eq!(last, 12);
}

#[test]
fn a_full_segment_has_no_room() {
    let st = state(&[(0, 10)], &[10]);
    assert_eq!(st.room(0), 0);
}
