use overmax::detector::{compute_pixel_checksum, rate_inputs_changed, RateInputChecksums, ResultEventLatch};
use overmax::frame::{region_mean_bgr, Bgr, CapturedFrame, RoiRect};

#[test]
fn rate_checksum_cache_only_refreshes_on_meaningful_input_change() {
    let previous = RateInputChecksums { score: 2_000 };

    assert!(!rate_inputs_changed(Some(previous), RateInputChecksums { score: 2_049 }));
    assert!(rate_inputs_changed(Some(previous), RateInputChecksums { score: 2_051 }));
}

#[test]
fn rate_change_is_symmetric_and_first_read_always_runs() {
    let a = RateInputChecksums { score: 2_051 };
    let b = RateInputChecksums { score: 2_000 };
    assert_eq!(rate_inputs_changed(Some(a), b), rate_inputs_changed(Some(b), a));
    assert!(!rate_inputs_changed(Some(a), a));
    assert!(rate_inputs_changed(None, a));
    assert!(!rate_inputs_changed(Some(b), RateInputChecksums { score: 2_050 }));
}

#[test]
fn computes_region_mean_bgr() {
    let frame = CapturedFrame { width: 1, height: 2, bgra: vec![10, 20, 30, 0, 30, 40, 50, 0] };
    assert_eq!(region_mean_bgr(&frame, RoiRect { x1: 0, y1: 0, x2: 1, y2: 2 }), Bgr { b: 20, g: 30, r: 40 });
}

#[test]
fn region_mean_rounds_down_and_empty_is_black() {
    let frame = CapturedFrame { width: 2, height: 1, bgra: vec![1, 2, 3, 0, 2, 4, 250, 0] };
    assert_eq!(region_mean_bgr(&frame, RoiRect { x1: 0, y1: 0, x2: 2, y2: 1 }), Bgr { b: 1, g: 3, r: 126 });
    assert_eq!(region_mean_bgr(&frame, RoiRect { x1: 1, y1: 0, x2: 1, y2: 1 }), Bgr { b: 0, g: 0, r: 0 });
}

#[test]
fn pixel_checksum_samples_every_other_pixel() {
    // 3 x 3 frame; the sampled pixels are (0,0), (2,0), (0,2), (2,2).
    let mut bgra = vec![0u8; 3 * 3 * 4];
    for (i, px) in bgra.chunks_mut(4).enumerate() {
        px[0] = i as u8;
        px[1] = 1;
        px[2] = 2;
        px[3] = 200;
    }
    let frame = CapturedFrame { width: 3, height: 3, bgra };
    let sum = compute_pixel_checksum(&frame, RoiRect { x1: 0, y1: 0, x2: 3, y2: 3 });
    assert_eq!(sum, Some((0 + 2 + 6 + 8) + 4 * 3));
    assert_eq!(compute_pixel_checksum(&frame, RoiRect { x1: 2, y1: 0, x2: 2, y2: 3 }), None);
}

#[test]
fn result_screen_reports_its_play_once() {
    let mut latch = ResultEventLatch::new();
    // No stable context yet, then an invalid rate: nothing is reported.
    assert!(!latch.observe(true, None));
    assert!(!latch.observe(true, Some(false)));
    // The first stable, valid result frame reports; the following ones do not.
    assert!(latch.observe(true, Some(true)));
    assert!(latch.is_emitted());
    assert!(!latch.observe(true, Some(true)));
    assert!(!latch.observe(true, Some(true)));
    // Leaving the result screen re-arms the latch; a song-select frame never reports.
    assert!(!latch.observe(false, Some(true)));
    assert!(!latch.is_emitted());
    assert!(latch.observe(true, Some(true)));
    latch.clear();
    assert!(!latch.is_emitted());
    assert!(latch.observe(true, Some(true)));
}
