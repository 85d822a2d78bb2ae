use overmax::atlas::{atlas_slots, AtlasTranslator, RoiName, ATLAS_HEIGHT, ATLAS_SLOT_COUNT, ATLAS_WIDTH};
use overmax::frame::{CapturedFrame, RoiRect};
use overmax::model::{Difficulty, SceneType};

#[test]
fn test_all_slots_within_atlas_bounds() {
    let slots = atlas_slots();
    assert_eq!(slots.len(), ATLAS_SLOT_COUNT);
    for slot in &slots {
        assert!(slot.atlas_rect.x >= 0, "Slot {} ({:?}) negative atlas x", slot.name.as_str(), slot.scene);
        assert!(slot.atlas_rect.y >= 0, "Slot {} ({:?}) negative atlas y", slot.name.as_str(), slot.scene);
        assert!(slot.atlas_rect.x + slot.atlas_rect.width <= ATLAS_WIDTH as i32);
        assert!(slot.atlas_rect.y + slot.atlas_rect.height <= ATLAS_HEIGHT as i32);
    }
}

#[test]
fn test_no_overlapping_slots_in_atlas() {
    let slots = atlas_slots();
    for (i, s1) in slots.iter().enumerate() {
        let r1 = s1.atlas_rect;
        for s2 in slots.iter().skip(i + 1) {
            let r2 = s2.atlas_rect;
            let overlap = !(r1.x + r1.width <= r2.x
                || r2.x + r2.width <= r1.x
                || r1.y + r1.height <= r2.y
                || r2.y + r2.height <= r1.y);
            assert!(!overlap, "Overlap detected between slot {} ({:?}) at {:?} and slot {} ({:?}) at {:?}",
                s1.name.as_str(), s1.scene, r1, s2.name.as_str(), s2.scene, r2);
        }
    }
}

#[test]
fn test_positive_slot_dimensions() {
    for slot in &atlas_slots() {
        assert!(slot.src_rect.width > 0);
        assert!(slot.src_rect.height > 0);
        assert_eq!(slot.src_rect.width, slot.atlas_rect.width);
        assert_eq!(slot.src_rect.height, slot.atlas_rect.height);
    }
}

#[test]
fn test_all_atlas_slots_resolvable_via_translator() {
    for slot in &atlas_slots() {
        let translated = AtlasTranslator::get_roi_for_scene(slot.name.as_str(), slot.scene)
            .unwrap_or_else(|| panic!("Failed to resolve slot {} in {:?}", slot.name.as_str(), slot.scene));
        assert_eq!(translated.x1, slot.atlas_rect.x);
        assert_eq!(translated.y1, slot.atlas_rect.y);
        assert_eq!(translated.x2, slot.atlas_rect.x + slot.atlas_rect.width);
        assert_eq!(translated.y2, slot.atlas_rect.y + slot.atlas_rect.height);
    }
}

#[test]
fn test_diff_panel_translator_consistency() {
    for scene in [SceneType::Freestyle, SceneType::OpenMatch, SceneType::LadderMatch, SceneType::ResultFreestyle] {
        for diff in Difficulty::all() {
            let direct = AtlasTranslator::get_diff_panel_roi_for_scene(diff, scene)
                .unwrap_or_else(|| panic!("Diff {:?} missing for {:?}", diff, scene));
            let name = match diff {
                Difficulty::NM => "diff_panel_NM",
                Difficulty::HD => "diff_panel_HD",
                Difficulty::MX => "diff_panel_MX",
                Difficulty::SC => "diff_panel_SC",
            };
            let by_name = AtlasTranslator::get_roi_for_scene(name, scene)
                .unwrap_or_else(|| panic!("Named diff {} missing for {:?}", name, scene));
            assert_eq!(direct, by_name);
            assert!(direct.x1 >= 0 && direct.x2 <= ATLAS_WIDTH as i32);
            assert!(direct.y1 >= 0 && direct.y2 <= ATLAS_HEIGHT as i32);
        }
    }
}

#[test]
fn test_ladder_match_shares_open_match_atlas_coordinates() {
    for name in ["jacket", "rate", "score", "btn_mode", "max_combo_badge", "diff_panel_NM", "diff_panel_HD", "diff_panel_MX", "diff_panel_SC"] {
        let open_match_roi = AtlasTranslator::get_roi_for_scene(name, SceneType::OpenMatch).unwrap();
        let ladder_match_roi = AtlasTranslator::get_roi_for_scene(name, SceneType::LadderMatch).unwrap();
        assert_eq!(open_match_roi, ladder_match_roi, "LadderMatch ROI mismatch with OpenMatch for {}", name);
    }
}

#[test]
fn translator_exact_values_and_unknowns() {
    assert_eq!(
        AtlasTranslator::get_roi_for_scene("score", SceneType::ResultFreestyle),
        Some(RoiRect { x1: 0, y1: 0, x2: 407, y2: 94 })
    );
    assert_eq!(
        AtlasTranslator::get_roi_for_scene("diff_panel", SceneType::Freestyle),
        AtlasTranslator::get_roi_for_scene("diff_panel_NM", SceneType::Freestyle)
    );
    assert_eq!(AtlasTranslator::get_roi_for_scene("no_such_roi", SceneType::Freestyle), None);
    assert_eq!(AtlasTranslator::get_roi_for_scene("mode", SceneType::Freestyle), None);
    assert_eq!(AtlasTranslator::get_diff_panel_roi_for_scene(Difficulty::SC, SceneType::ResultOpen2), None);
    assert_eq!(RoiName::from_name("openmatch_mode"), Some(RoiName::OpenmatchMode));
    assert_eq!(RoiName::from_name("OPENMATCH_MODE"), None);
}

#[test]
fn crop_roi_cuts_translated_rectangle_from_atlas_frame() {
    let frame = CapturedFrame { width: 512, height: 512, bgra: vec![7; 512 * 512 * 4] };
    let view = AtlasTranslator::crop_roi(&frame, "btn_mode", SceneType::Freestyle).unwrap();
    assert_eq!((view.width, view.height), (5, 5));
    assert_eq!(view.offset, (507 * 512 + 337) * 4);
    assert!(AtlasTranslator::crop_roi(&frame, "btn_mode", SceneType::ResultOpen2).is_none());
    let panel = AtlasTranslator::crop_diff_panel_roi(&frame, Difficulty::HD, SceneType::OpenMatch).unwrap();
    assert_eq!((panel.width, panel.height), (116, 31));
}
