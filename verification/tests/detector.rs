use bfbc::BFBCChunker;

/// Feeds `stream` to `det` in pieces of at most `piece` bytes, resetting
/// after every reported boundary, and returns the boundary offsets translated
/// to absolute stream positions.
fn collect_boundaries(det: &mut BFBCChunker, stream: &[u8], piece: usize) -> Vec<usize> {
    let mut found: Vec<usize> = Vec::new();
    let mut base: usize = 0;
    while base < stream.len() {
        let end: usize = if stream.len() - base < piece { stream.len() } else { base + piece };
        match det.find_boundary(&stream[base..end]) {
            Some(i) => {
                found.push(base + i);
                det.reset();
                base = base + i + 1;
            }
            None => {
                base = end;
            }
        }
    }
    found
}

#[test]
fn membership_match_reports_second_byte_index() {
    let mut det = BFBCChunker::new(vec![(0x41, 0x42)], 2);
    assert_eq!(det.find_boundary(&[0x41, 0x42]), Some(1));
}

#[test]
fn membership_mismatch_reports_no_boundary() {
    let mut det = BFBCChunker::new(vec![(0x41, 0x42)], 2);
    assert_eq!(det.find_boundary(&[0x41, 0x43]), None);
}

#[test]
fn boundaries_agree_across_feed_fragmentation() {
    let stream: Vec<u8> = vec![
        0x00, 0x41, 0x42, 0x07, 0x41, 0x41, 0x42, 0x42, 0x41, 0x42, 0x13, 0x37, 0x41, 0x42,
        0x41, 0x42, 0x00, 0x00, 0x41, 0x42,
    ];
    let mut whole = BFBCChunker::new(vec![(0x41, 0x42)], 3);
    let expected = collect_boundaries(&mut whole, &stream, stream.len());
    assert!(!expected.is_empty());
    for piece in [1, 2, 3, 5, 7] {
        let mut det = BFBCChunker::new(vec![(0x41, 0x42)], 3);
        assert_eq!(collect_boundaries(&mut det, &stream, piece), expected);
    }
}

#[test]
fn first_boundary_agrees_between_one_feed_and_two() {
    let stream: [u8; 10] = [0x10, 0x11, 0x41, 0x12, 0x13, 0x14, 0x41, 0x42, 0x15, 0x16];
    let mut one = BFBCChunker::new(vec![(0x41, 0x42)], 4);
    assert_eq!(one.find_boundary(&stream), Some(7));

    let mut two = BFBCChunker::new(vec![(0x41, 0x42)], 4);
    assert_eq!(two.find_boundary(&stream[..5]), None);
    assert_eq!(two.find_boundary(&stream[5..]), Some(2));
}

#[test]
fn no_boundary_before_min_chunk_size() {
    let mut det = BFBCChunker::new(vec![(0x41, 0x42)], 4);
    // The frequent pair ends at position 2 < 4, so it must be passed over;
    // its recurrence ending at position 4 is the first boundary.
    assert_eq!(det.find_boundary(&[0x41, 0x42, 0x41, 0x42]), Some(3));
}

#[test]
fn pair_inside_first_bytes_alone_gives_no_boundary() {
    let mut det = BFBCChunker::new(vec![(0x41, 0x42)], 4);
    assert_eq!(det.find_boundary(&[0x41, 0x42, 0x00]), None);
}

#[test]
fn reset_matches_fresh_detector() {
    let stream: [u8; 6] = [0x41, 0x42, 0x41, 0x41, 0x42, 0x00];
    let mut det = BFBCChunker::new(vec![(0x41, 0x42)], 2);
    assert_eq!(det.find_boundary(&stream), Some(1));
    det.reset();
    let rest = &stream[2..];

    let mut fresh = BFBCChunker::new(vec![(0x41, 0x42)], 2);
    assert_eq!(det.find_boundary(rest), fresh.find_boundary(rest));
    assert_eq!(det.find_boundary(&stream), fresh.find_boundary(&stream));
}

#[test]
fn reset_discards_partial_window() {
    let mut det = BFBCChunker::new(vec![(0x41, 0x42)], 2);
    assert_eq!(det.find_boundary(&[0x00, 0x41]), None);
    det.reset();
    // Were the window kept, 0x42 would complete the pair at position 1.
    assert_eq!(det.find_boundary(&[0x42, 0x00]), None);
}

#[test]
fn duplicate_pair_registration_is_idempotent() {
    let streams: [&[u8]; 4] = [
        &[0x00, 0x01],
        &[0x00, 0x00, 0x01, 0x02],
        &[0x01, 0x00, 0x02],
        &[],
    ];
    for stream in streams {
        let mut once = BFBCChunker::new(vec![(0x00, 0x01)], 2);
        let mut twice = BFBCChunker::new(vec![(0x00, 0x01), (0x00, 0x01)], 2);
        assert_eq!(once.find_boundary(stream), twice.find_boundary(stream));
    }
}

#[test]
fn each_sole_pair_matches_itself_and_no_other() {
    let mut samples: Vec<(u8, u8)> = vec![(0x00, 0x00), (0x00, 0xFF), (0xFF, 0x00), (0xFF, 0xFF)];
    for a in 0..=255u8 {
        samples.push((a, a ^ 0x5A));
    }
    for (a, b) in samples {
        let mut det = BFBCChunker::new(vec![(a, b)], 3);
        // One filler byte, then the registered pair: boundary at its second byte.
        assert_eq!(det.find_boundary(&[0x10, a, b]), Some(2));
        det.reset();
        // Any other pair in the same position finds nothing.
        let (x, y) = (a, !b);
        assert_ne!((x, y), (a, b));
        assert_eq!(det.find_boundary(&[0x10, x, y]), None);
    }
}

#[test]
fn empty_feed_finds_nothing_and_keeps_state() {
    let mut det = BFBCChunker::new(vec![(0x41, 0x42)], 2);
    assert_eq!(det.find_boundary(&[]), None);
    assert_eq!(det.find_boundary(&[0x41]), None);
    assert_eq!(det.find_boundary(&[]), None);
    // The window rolled before the empty feed survives it: 0x42 completes
    // the pair immediately.
    assert_eq!(det.find_boundary(&[0x42]), Some(0));
}

#[test]
fn state_carries_across_single_byte_feeds() {
    let mut det = BFBCChunker::new(vec![(0x41, 0x42)], 3);
    assert_eq!(det.find_boundary(&[0x00]), None);
    assert_eq!(det.find_boundary(&[0x41]), None);
    assert_eq!(det.find_boundary(&[0x42]), Some(0));
}

#[test]
fn multiple_pairs_first_match_wins() {
    let mut det = BFBCChunker::new(vec![(0x0A, 0x0B), (0x0C, 0x0D)], 2);
    assert_eq!(det.find_boundary(&[0x00, 0x0C, 0x0D, 0x0A, 0x0B]), Some(2));
    det.reset();
    assert_eq!(det.find_boundary(&[0x00, 0x0A, 0x0B, 0x0C, 0x0D]), Some(2));
}

#[test]
fn bytes_after_boundary_stay_unconsumed() {
    let mut det = BFBCChunker::new(vec![(0x41, 0x42)], 2);
    // The buffer holds a second pair after the first boundary; the scan
    // stops at the first, and the tail must be re-fed after the reset.
    assert_eq!(det.find_boundary(&[0x41, 0x42, 0x41, 0x42]), Some(1));
    det.reset();
    assert_eq!(det.find_boundary(&[0x41, 0x42]), Some(1));
}

#[test]
fn window_order_is_first_byte_then_second() {
    // The pair is ordered: (0x41, 0x42) registered must not match the bytes
    // arriving as 0x42 then 0x41.
    let mut det = BFBCChunker::new(vec![(0x41, 0x42)], 2);
    assert_eq!(det.find_boundary(&[0x42, 0x41, 0x00]), None);
}
