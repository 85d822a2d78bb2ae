use overmax::frame::{crop_roi, CapturedFrame, ImageRegion, RoiRect, WindowRect};

#[test]
fn crops_bgra_region() {
    let frame = CapturedFrame {
        width: 2,
        height: 2,
        bgra: vec![1, 2, 3, 0, 4, 5, 6, 0, 7, 8, 9, 0, 10, 11, 12, 0],
    };
    let crop = crop_roi(
        &frame,
        RoiRect {
            x1: 1,
            y1: 0,
            x2: 2,
            y2: 2,
        },
    )
    .unwrap();
    assert_eq!(crop.to_image_region().bgra, vec![4, 5, 6, 0, 10, 11, 12, 0]);
}

#[test]
fn test_window_rect_validity() {
    let valid_rect = WindowRect {
        left: 100,
        top: 50,
        width: 1920,
        height: 1080,
    };
    assert!(valid_rect.is_valid());

    let zero_rect = WindowRect {
        left: 0,
        top: 0,
        width: 0,
        height: 0,
    };
    assert!(!zero_rect.is_valid());
}

#[test]
fn crop_clamps_to_frame_and_rejects_empty_rectangles() {
    let frame = CapturedFrame { width: 3, height: 2, bgra: (0u8..24).collect() };
    let crop = crop_roi(&frame, RoiRect { x1: -5, y1: 1, x2: 99, y2: 99 }).unwrap();
    assert_eq!(crop.width, 3);
    assert_eq!(crop.height, 1);
    assert_eq!(crop.offset, 12);
    assert_eq!(crop.to_image_region().bgra, (12u8..24).collect::<Vec<u8>>());
    assert!(crop_roi(&frame, RoiRect { x1: 2, y1: 0, x2: 2, y2: 2 }).is_none());
    assert!(crop_roi(&frame, RoiRect { x1: 0, y1: 3, x2: 3, y2: 9 }).is_none());
}

#[test]
fn nested_crop_reads_source_pixels() {
    let frame = CapturedFrame { width: 4, height: 3, bgra: (0u8..48).collect() };
    let outer = crop_roi(&frame, RoiRect { x1: 1, y1: 1, x2: 4, y2: 3 }).unwrap();
    let inner = outer.crop(RoiRect { x1: 1, y1: 0, x2: 2, y2: 2 }).unwrap();
    // pixel (2,1) and (2,2) of the frame
    assert_eq!(inner.to_image_region().bgra, vec![24, 25, 26, 27, 40, 41, 42, 43]);
    assert_eq!(inner.row(1), &[40, 41, 42, 43]);
}

#[test]
fn region_view_covers_whole_region() {
    let region = ImageRegion { width: 1, height: 2, bgra: vec![1, 2, 3, 4, 5, 6, 7, 8] };
    let view = region.as_view();
    assert_eq!(view.stride, 4);
    assert_eq!(view.to_image_region().bgra, region.bgra);
}
