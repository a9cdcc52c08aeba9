use gripdl::planner::{plan_segments, Segment};
use gripdl::progress::{apply_chunk, set_segment_progress, total_progress, PROGRESS_STRIDE};

#[test]
fn chunks_accumulate() {
    let (n, emit) = apply_chunk(0, 500_000);
    assert_eq!(n, 500_000);
    assert!(!emit);
    let (n, emit) = apply_chunk(n, 400_000);
    assert_eq!(n, 900_000);
    assert!(!emit);
    let (n, emit) = apply_chunk(n, 200_000);
    assert_eq!(n, 1_100_000);
    assert!(emit);
}

#[test]
fn crossing_the_stride_publishes() {
    let (n, emit) = apply_chunk(PROGRESS_STRIDE - 1, 1);
    assert_eq!(n, PROGRESS_STRIDE);
    assert!(emit);
    let (_, emit) = apply_chunk(PROGRESS_STRIDE, 10);
    assert!(!emit);
    let (_, emit) = apply_chunk(PROGRESS_STRIDE, PROGRESS_STRIDE);
    assert!(emit);
}

#[test]
fn progress_sums_across_segments() {
    let total = 4 * 1024 * 1024u64;
    let mut plan = plan_segments(total, 4);
    assert_eq!(total_progress(&plan), 0);
    set_segment_progress(&mut plan, 0, 1024);
    set_segment_progress(&mut plan, 2, 2048);
    assert_eq!(total_progress(&plan), 3072);
    set_segment_progress(&mut plan, 2, 4096);
    assert_eq!(total_progress(&plan), 1024 + 4096);
    assert_eq!(plan[0].downloaded, 1024);
    assert_eq!(plan[1].downloaded, 0);
    assert_eq!(plan[2].downloaded, 4096);
}

#[test]
fn full_segments_sum_to_the_total() {
    let total = 4 * 1024 * 1024u64;
    let mut plan = plan_segments(total, 4);
    let lens: Vec<u64> = plan.iter().map(|s| s.end - s.start + 1).collect();
    for (i, len) in lens.iter().enumerate() {
        set_segment_progress(&mut plan, i, *len);
    }
    assert_eq!(total_progress(&plan), total);
}

#[test]
fn segments_are_plain_ranges() {
    let seg = Segment { index: 3, start: 10, end: 19, downloaded: 5 };
    assert_eq!(seg.end - seg.start + 1, 10);
    assert_eq!(seg, seg);
}
