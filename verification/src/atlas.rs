//! Static placement of every region of interest inside the 512x512 capture atlas,
//! and the translator from (scene, name) to atlas coordinates.
use vstd::prelude::*;
use vstd::string::*;
use crate::frame::{CapturedFrame, ImageView, RoiRect, crop_roi as crop_frame_roi, clamped_roi};
use crate::model::{Difficulty, SceneType};
use crate::text::str_eq;

verus! {

/// Width of the atlas texture in pixels.
pub const ATLAS_WIDTH: u32 = 512;

/// Height of the atlas texture in pixels.
pub const ATLAS_HEIGHT: u32 = 512;

/// Number of slots packed into the atlas.
pub const ATLAS_SLOT_COUNT: usize = 43;

/// A rectangle given by its top-left corner and its size.
#[derive(Clone, Copy, Debug, PartialEq, Eq, Structural)]
pub struct RawRoiRect {
    pub x: i32,
    pub y: i32,
    pub width: i32,
    pub height: i32,
}

/// Names of the regions of interest on the game screens.
#[derive(Clone, Copy, Debug, PartialEq, Eq, Structural)]
pub enum RoiName {
    Score,
    Mode,
    PlayerPanel,
    MaxComboBadge,
    Rate,
    Jacket,
    ModeDigit,
    DiffPanel,
    DiffPanelNM,
    DiffPanelHD,
    DiffPanelMX,
    DiffPanelSC,
    ModeColorbar,
    OpenmatchDiff,
    OpenmatchMode,
    BtnMode,
}

/// One region of interest: where it is on a 1080p screen and where it is packed in the atlas.
#[derive(Clone, Copy, Debug, PartialEq, Eq, Structural)]
pub struct AtlasSlot {
    pub scene: SceneType,
    pub name: RoiName,
    pub src_rect: RawRoiRect,
    pub atlas_rect: RawRoiRect,
}

/// The text name of a region of interest.
pub open spec fn roi_name_label(n: RoiName) -> Seq<char> {
    match n {
        RoiName::Score => seq!['s', 'c', 'o', 'r', 'e'],
        RoiName::Mode => seq!['m', 'o', 'd', 'e'],
        RoiName::PlayerPanel => seq!['p', 'l', 'a', 'y', 'e', 'r', '_', 'p', 'a', 'n', 'e', 'l'],
        RoiName::MaxComboBadge => seq!['m', 'a', 'x', '_', 'c', 'o', 'm', 'b', 'o', '_', 'b', 'a', 'd', 'g', 'e'],
        RoiName::Rate => seq!['r', 'a', 't', 'e'],
        RoiName::Jacket => seq!['j', 'a', 'c', 'k', 'e', 't'],
        RoiName::ModeDigit => seq!['m', 'o', 'd', 'e', '_', 'd', 'i', 'g', 'i', 't'],
        RoiName::DiffPanel => seq!['d', 'i', 'f', 'f', '_', 'p', 'a', 'n', 'e', 'l'],
        RoiName::DiffPanelNM => seq!['d', 'i', 'f', 'f', '_', 'p', 'a', 'n', 'e', 'l', '_', 'N', 'M'],
        RoiName::DiffPanelHD => seq!['d', 'i', 'f', 'f', '_', 'p', 'a', 'n', 'e', 'l', '_', 'H', 'D'],
        RoiName::DiffPanelMX => seq!['d', 'i', 'f', 'f', '_', 'p', 'a', 'n', 'e', 'l', '_', 'M', 'X'],
        RoiName::DiffPanelSC => seq!['d', 'i', 'f', 'f', '_', 'p', 'a', 'n', 'e', 'l', '_', 'S', 'C'],
        RoiName::ModeColorbar => seq!['m', 'o', 'd', 'e', '_', 'c', 'o', 'l', 'o', 'r', 'b', 'a', 'r'],
        RoiName::OpenmatchDiff => seq!['o', 'p', 'e', 'n', 'm', 'a', 't', 'c', 'h', '_', 'd', 'i', 'f', 'f'],
        RoiName::OpenmatchMode => seq!['o', 'p', 'e', 'n', 'm', 'a', 't', 'c', 'h', '_', 'm', 'o', 'd', 'e'],
        RoiName::BtnMode => seq!['b', 't', 'n', '_', 'm', 'o', 'd', 'e'],
    }
}

/// The region of interest called `s`, if any.
pub open spec fn roi_name_from_label(s: Seq<char>) -> Option<RoiName> {
    if s == roi_name_label(RoiName::Score) {
        Some(RoiName::Score)
    } else if s == roi_name_label(RoiName::Mode) {
        Some(RoiName::Mode)
    } else if s == roi_name_label(RoiName::PlayerPanel) {
        Some(RoiName::PlayerPanel)
    } else if s == roi_name_label(RoiName::MaxComboBadge) {
        Some(RoiName::MaxComboBadge)
    } else if s == roi_name_label(RoiName::Rate) {
        Some(RoiName::Rate)
    } else if s == roi_name_label(RoiName::Jacket) {
        Some(RoiName::Jacket)
    } else if s == roi_name_label(RoiName::ModeDigit) {
        Some(RoiName::ModeDigit)
    } else if s == roi_name_label(RoiName::DiffPanel) {
        Some(RoiName::DiffPanel)
    } else if s == roi_name_label(RoiName::DiffPanelNM) {
        Some(RoiName::DiffPanelNM)
    } else if s == roi_name_label(RoiName::DiffPanelHD) {
        Some(RoiName::DiffPanelHD)
    } else if s == roi_name_label(RoiName::DiffPanelMX) {
        Some(RoiName::DiffPanelMX)
    } else if s == roi_name_label(RoiName::DiffPanelSC) {
        Some(RoiName::DiffPanelSC)
    } else if s == roi_name_label(RoiName::ModeColorbar) {
        Some(RoiName::ModeColorbar)
    } else if s == roi_name_label(RoiName::OpenmatchDiff) {
        Some(RoiName::OpenmatchDiff)
    } else if s == roi_name_label(RoiName::OpenmatchMode) {
        Some(RoiName::OpenmatchMode)
    } else if s == roi_name_label(RoiName::BtnMode) {
        Some(RoiName::BtnMode)
    } else {
        None
    }
}

impl RoiName {
    /// The region's name as the detector spells it.
    pub fn as_str(&self) -> (r: &'static str)
        ensures
            r@ == roi_name_label(*self),
    {
        match self {
            RoiName::Score => {
                proof {
                    reveal_strlit("score");
                }
                "score"
            },
            RoiName::Mode => {
                proof {
                    reveal_strlit("mode");
                }
                "mode"
            },
            RoiName::PlayerPanel => {
                proof {
                    reveal_strlit("player_panel");
                }
                "player_panel"
            },
            RoiName::MaxComboBadge => {
                proof {
                    reveal_strlit("max_combo_badge");
                }
                "max_combo_badge"
            },
            RoiName::Rate => {
                proof {
                    reveal_strlit("rate");
                }
                "rate"
            },
            RoiName::Jacket => {
                proof {
                    reveal_strlit("jacket");
                }
                "jacket"
            },
            RoiName::ModeDigit => {
                proof {
                    reveal_strlit("mode_digit");
                }
                "mode_digit"
            },
            RoiName::DiffPanel => {
                proof {
                    reveal_strlit("diff_panel");
                }
                "diff_panel"
            },
            RoiName::DiffPanelNM => {
                proof {
                    reveal_strlit("diff_panel_NM");
                }
                "diff_panel_NM"
            },
            RoiName::DiffPanelHD => {
                proof {
                    reveal_strlit("diff_panel_HD");
                }
                "diff_panel_HD"
            },
            RoiName::DiffPanelMX => {
                proof {
                    reveal_strlit("diff_panel_MX");
                }
                "diff_panel_MX"
            },
            RoiName::DiffPanelSC => {
                proof {
                    reveal_strlit("diff_panel_SC");
                }
                "diff_panel_SC"
            },
            RoiName::ModeColorbar => {
                proof {
                    reveal_strlit("mode_colorbar");
                }
                "mode_colorbar"
            },
            RoiName::OpenmatchDiff => {
                proof {
                    reveal_strlit("openmatch_diff");
                }
                "openmatch_diff"
            },
            RoiName::OpenmatchMode => {
                proof {
                    reveal_strlit("openmatch_mode");
                }
                "openmatch_mode"
            },
            RoiName::BtnMode => {
                proof {
                    reveal_strlit("btn_mode");
                }
                "btn_mode"
            },
        }
    }

    /// The region of interest with text name `s`.
    pub fn from_name(s: &str) -> (r: Option<RoiName>)
        ensures
            r == roi_name_from_label(s@),
    {
        if str_eq(s, RoiName::Score.as_str()) {
            Some(RoiName::Score)
        } else if str_eq(s, RoiName::Mode.as_str()) {
            Some(RoiName::Mode)
        } else if str_eq(s, RoiName::PlayerPanel.as_str()) {
            Some(RoiName::PlayerPanel)
        } else if str_eq(s, RoiName::MaxComboBadge.as_str()) {
            Some(RoiName::MaxComboBadge)
        } else if str_eq(s, RoiName::Rate.as_str()) {
            Some(RoiName::Rate)
        } else if str_eq(s, RoiName::Jacket.as_str()) {
            Some(RoiName::Jacket)
        } else if str_eq(s, RoiName::ModeDigit.as_str()) {
            Some(RoiName::ModeDigit)
        } else if str_eq(s, RoiName::DiffPanel.as_str()) {
            Some(RoiName::DiffPanel)
        } else if str_eq(s, RoiName::DiffPanelNM.as_str()) {
            Some(RoiName::DiffPanelNM)
        } else if str_eq(s, RoiName::DiffPanelHD.as_str()) {
            Some(RoiName::DiffPanelHD)
        } else if str_eq(s, RoiName::DiffPanelMX.as_str()) {
            Some(RoiName::DiffPanelMX)
        } else if str_eq(s, RoiName::DiffPanelSC.as_str()) {
            Some(RoiName::DiffPanelSC)
        } else if str_eq(s, RoiName::ModeColorbar.as_str()) {
            Some(RoiName::ModeColorbar)
        } else if str_eq(s, RoiName::OpenmatchDiff.as_str()) {
            Some(RoiName::OpenmatchDiff)
        } else if str_eq(s, RoiName::OpenmatchMode.as_str()) {
            Some(RoiName::OpenmatchMode)
        } else if str_eq(s, RoiName::BtnMode.as_str()) {
            Some(RoiName::BtnMode)
        } else {
            None
        }
    }
}

/// The slot table: 43 slots packed without overlap into the atlas.
pub open spec fn atlas_layout() -> Seq<AtlasSlot> {
    seq![
        AtlasSlot { scene: SceneType::ResultFreestyle, name: RoiName::Score, src_rect: RawRoiRect { x: 759, y: 710, width: 407, height: 94 }, atlas_rect: RawRoiRect { x: 0, y: 0, width: 407, height: 94 } },
        AtlasSlot { scene: SceneType::ResultFreestyle, name: RoiName::Mode, src_rect: RawRoiRect { x: 0, y: 18, width: 340, height: 75 }, atlas_rect: RawRoiRect { x: 0, y: 94, width: 340, height: 75 } },
        AtlasSlot { scene: SceneType::ResultOpen3, name: RoiName::Score, src_rect: RawRoiRect { x: 211, y: 753, width: 317, height: 74 }, atlas_rect: RawRoiRect { x: 0, y: 169, width: 317, height: 74 } },
        AtlasSlot { scene: SceneType::ResultOpen2, name: RoiName::Score, src_rect: RawRoiRect { x: 311, y: 753, width: 320, height: 72 }, atlas_rect: RawRoiRect { x: 0, y: 243, width: 320, height: 72 } },
        AtlasSlot { scene: SceneType::ResultOpen3, name: RoiName::PlayerPanel, src_rect: RawRoiRect { x: 212, y: 830, width: 316, height: 40 }, atlas_rect: RawRoiRect { x: 0, y: 315, width: 316, height: 40 } },
        AtlasSlot { scene: SceneType::ResultOpen2, name: RoiName::PlayerPanel, src_rect: RawRoiRect { x: 312, y: 830, width: 316, height: 40 }, atlas_rect: RawRoiRect { x: 0, y: 355, width: 316, height: 40 } },
        AtlasSlot { scene: SceneType::ResultFreestyle, name: RoiName::MaxComboBadge, src_rect: RawRoiRect { x: 1024, y: 521, width: 75, height: 75 }, atlas_rect: RawRoiRect { x: 407, y: 0, width: 75, height: 75 } },
        AtlasSlot { scene: SceneType::ResultOpen3, name: RoiName::MaxComboBadge, src_rect: RawRoiRect { x: 437, y: 591, width: 75, height: 75 }, atlas_rect: RawRoiRect { x: 407, y: 75, width: 75, height: 75 } },
        AtlasSlot { scene: SceneType::ResultOpen2, name: RoiName::MaxComboBadge, src_rect: RawRoiRect { x: 537, y: 591, width: 75, height: 75 }, atlas_rect: RawRoiRect { x: 0, y: 395, width: 75, height: 75 } },
        AtlasSlot { scene: SceneType::ResultFreestyle, name: RoiName::Rate, src_rect: RawRoiRect { x: 891, y: 608, width: 129, height: 32 }, atlas_rect: RawRoiRect { x: 0, y: 470, width: 129, height: 32 } },
        AtlasSlot { scene: SceneType::Freestyle, name: RoiName::Jacket, src_rect: RawRoiRect { x: 710, y: 533, width: 60, height: 60 }, atlas_rect: RawRoiRect { x: 340, y: 94, width: 60, height: 60 } },
        AtlasSlot { scene: SceneType::OpenMatch, name: RoiName::Jacket, src_rect: RawRoiRect { x: 664, y: 533, width: 60, height: 60 }, atlas_rect: RawRoiRect { x: 317, y: 169, width: 60, height: 60 } },
        AtlasSlot { scene: SceneType::ResultFreestyle, name: RoiName::Jacket, src_rect: RawRoiRect { x: 705, y: 14, width: 60, height: 60 }, atlas_rect: RawRoiRect { x: 75, y: 395, width: 60, height: 60 } },
        AtlasSlot { scene: SceneType::ResultOpen3, name: RoiName::Jacket, src_rect: RawRoiRect { x: 705, y: 14, width: 60, height: 60 }, atlas_rect: RawRoiRect { x: 400, y: 150, width: 60, height: 60 } },
        AtlasSlot { scene: SceneType::ResultOpen2, name: RoiName::Jacket, src_rect: RawRoiRect { x: 705, y: 14, width: 60, height: 60 }, atlas_rect: RawRoiRect { x: 135, y: 395, width: 60, height: 60 } },
        AtlasSlot { scene: SceneType::OpenMatch, name: RoiName::DiffPanelNM, src_rect: RawRoiRect { x: 82, y: 467, width: 116, height: 31 }, atlas_rect: RawRoiRect { x: 377, y: 210, width: 116, height: 31 } },
        AtlasSlot { scene: SceneType::OpenMatch, name: RoiName::DiffPanelHD, src_rect: RawRoiRect { x: 202, y: 467, width: 116, height: 31 }, atlas_rect: RawRoiRect { x: 129, y: 455, width: 116, height: 31 } },
        AtlasSlot { scene: SceneType::OpenMatch, name: RoiName::DiffPanelMX, src_rect: RawRoiRect { x: 322, y: 467, width: 116, height: 31 }, atlas_rect: RawRoiRect { x: 195, y: 395, width: 116, height: 31 } },
        AtlasSlot { scene: SceneType::OpenMatch, name: RoiName::DiffPanelSC, src_rect: RawRoiRect { x: 442, y: 467, width: 116, height: 31 }, atlas_rect: RawRoiRect { x: 245, y: 426, width: 116, height: 31 } },
        AtlasSlot { scene: SceneType::ResultFreestyle, name: RoiName::ModeDigit, src_rect: RawRoiRect { x: 78, y: 28, width: 50, height: 68 }, atlas_rect: RawRoiRect { x: 320, y: 229, width: 50, height: 68 } },
        AtlasSlot { scene: SceneType::ResultOpen2, name: RoiName::Rate, src_rect: RawRoiRect { x: 403, y: 673, width: 107, height: 31 }, atlas_rect: RawRoiRect { x: 311, y: 395, width: 107, height: 31 } },
        AtlasSlot { scene: SceneType::ResultOpen3, name: RoiName::Rate, src_rect: RawRoiRect { x: 293, y: 673, width: 107, height: 30 }, atlas_rect: RawRoiRect { x: 245, y: 457, width: 107, height: 30 } },
        AtlasSlot { scene: SceneType::Freestyle, name: RoiName::DiffPanelNM, src_rect: RawRoiRect { x: 98, y: 488, width: 110, height: 28 }, atlas_rect: RawRoiRect { x: 352, y: 457, width: 110, height: 28 } },
        AtlasSlot { scene: SceneType::Freestyle, name: RoiName::DiffPanelHD, src_rect: RawRoiRect { x: 218, y: 488, width: 110, height: 28 }, atlas_rect: RawRoiRect { x: 361, y: 426, width: 110, height: 28 } },
        AtlasSlot { scene: SceneType::Freestyle, name: RoiName::DiffPanelMX, src_rect: RawRoiRect { x: 338, y: 488, width: 110, height: 28 }, atlas_rect: RawRoiRect { x: 370, y: 241, width: 110, height: 28 } },
        AtlasSlot { scene: SceneType::Freestyle, name: RoiName::DiffPanelSC, src_rect: RawRoiRect { x: 458, y: 488, width: 110, height: 28 }, atlas_rect: RawRoiRect { x: 370, y: 269, width: 110, height: 28 } },
        AtlasSlot { scene: SceneType::Freestyle, name: RoiName::Score, src_rect: RawRoiRect { x: 173, y: 558, width: 104, height: 24 }, atlas_rect: RawRoiRect { x: 129, y: 487, width: 104, height: 24 } },
        AtlasSlot { scene: SceneType::Freestyle, name: RoiName::Rate, src_rect: RawRoiRect { x: 172, y: 583, width: 104, height: 22 }, atlas_rect: RawRoiRect { x: 233, y: 487, width: 104, height: 22 } },
        AtlasSlot { scene: SceneType::OpenMatch, name: RoiName::Score, src_rect: RawRoiRect { x: 77, y: 558, width: 106, height: 20 }, atlas_rect: RawRoiRect { x: 337, y: 487, width: 106, height: 20 } },
        AtlasSlot { scene: SceneType::OpenMatch, name: RoiName::Rate, src_rect: RawRoiRect { x: 197, y: 558, width: 103, height: 20 }, atlas_rect: RawRoiRect { x: 316, y: 315, width: 103, height: 20 } },
        AtlasSlot { scene: SceneType::ResultOpen3, name: RoiName::OpenmatchDiff, src_rect: RawRoiRect { x: 410, y: 841, width: 106, height: 18 }, atlas_rect: RawRoiRect { x: 320, y: 297, width: 106, height: 18 } },
        AtlasSlot { scene: SceneType::ResultOpen2, name: RoiName::OpenmatchDiff, src_rect: RawRoiRect { x: 510, y: 841, width: 106, height: 18 }, atlas_rect: RawRoiRect { x: 316, y: 335, width: 106, height: 18 } },
        AtlasSlot { scene: SceneType::ResultFreestyle, name: RoiName::DiffPanelNM, src_rect: RawRoiRect { x: 709, y: 86, width: 90, height: 18 }, atlas_rect: RawRoiRect { x: 422, y: 315, width: 90, height: 18 } },
        AtlasSlot { scene: SceneType::ResultFreestyle, name: RoiName::DiffPanelHD, src_rect: RawRoiRect { x: 829, y: 86, width: 90, height: 18 }, atlas_rect: RawRoiRect { x: 422, y: 333, width: 90, height: 18 } },
        AtlasSlot { scene: SceneType::ResultFreestyle, name: RoiName::DiffPanelMX, src_rect: RawRoiRect { x: 949, y: 86, width: 90, height: 18 }, atlas_rect: RawRoiRect { x: 422, y: 351, width: 90, height: 18 } },
        AtlasSlot { scene: SceneType::ResultFreestyle, name: RoiName::DiffPanelSC, src_rect: RawRoiRect { x: 1069, y: 86, width: 90, height: 18 }, atlas_rect: RawRoiRect { x: 418, y: 369, width: 90, height: 18 } },
        AtlasSlot { scene: SceneType::Freestyle, name: RoiName::MaxComboBadge, src_rect: RawRoiRect { x: 409, y: 585, width: 36, height: 36 }, atlas_rect: RawRoiRect { x: 418, y: 387, width: 36, height: 36 } },
        AtlasSlot { scene: SceneType::OpenMatch, name: RoiName::MaxComboBadge, src_rect: RawRoiRect { x: 398, y: 601, width: 36, height: 36 }, atlas_rect: RawRoiRect { x: 454, y: 387, width: 36, height: 36 } },
        AtlasSlot { scene: SceneType::ResultFreestyle, name: RoiName::ModeColorbar, src_rect: RawRoiRect { x: 60, y: 0, width: 6, height: 96 }, atlas_rect: RawRoiRect { x: 493, y: 0, width: 6, height: 96 } },
        AtlasSlot { scene: SceneType::Freestyle, name: RoiName::BtnMode, src_rect: RawRoiRect { x: 80, y: 130, width: 5, height: 5 }, atlas_rect: RawRoiRect { x: 337, y: 507, width: 5, height: 5 } },
        AtlasSlot { scene: SceneType::OpenMatch, name: RoiName::BtnMode, src_rect: RawRoiRect { x: 60, y: 130, width: 5, height: 5 }, atlas_rect: RawRoiRect { x: 342, y: 507, width: 5, height: 5 } },
        AtlasSlot { scene: SceneType::ResultOpen3, name: RoiName::OpenmatchMode, src_rect: RawRoiRect { x: 212, y: 830, width: 5, height: 5 }, atlas_rect: RawRoiRect { x: 347, y: 507, width: 5, height: 5 } },
        AtlasSlot { scene: SceneType::ResultOpen2, name: RoiName::OpenmatchMode, src_rect: RawRoiRect { x: 312, y: 830, width: 5, height: 5 }, atlas_rect: RawRoiRect { x: 352, y: 507, width: 5, height: 5 } },
    ]
}

/// The slot table, as a vector.
pub fn atlas_slots() -> (v: Vec<AtlasSlot>)
    ensures
        v@ == atlas_layout(),
{
    let v = vec![
        AtlasSlot { scene: SceneType::ResultFreestyle, name: RoiName::Score, src_rect: RawRoiRect { x: 759, y: 710, width: 407, height: 94 }, atlas_rect: RawRoiRect { x: 0, y: 0, width: 407, height: 94 } },
        AtlasSlot { scene: SceneType::ResultFreestyle, name: RoiName::Mode, src_rect: RawRoiRect { x: 0, y: 18, width: 340, height: 75 }, atlas_rect: RawRoiRect { x: 0, y: 94, width: 340, height: 75 } },
        AtlasSlot { scene: SceneType::ResultOpen3, name: RoiName::Score, src_rect: RawRoiRect { x: 211, y: 753, width: 317, height: 74 }, atlas_rect: RawRoiRect { x: 0, y: 169, width: 317, height: 74 } },
        AtlasSlot { scene: SceneType::ResultOpen2, name: RoiName::Score, src_rect: RawRoiRect { x: 311, y: 753, width: 320, height: 72 }, atlas_rect: RawRoiRect { x: 0, y: 243, width: 320, height: 72 } },
        AtlasSlot { scene: SceneType::ResultOpen3, name: RoiName::PlayerPanel, src_rect: RawRoiRect { x: 212, y: 830, width: 316, height: 40 }, atlas_rect: RawRoiRect { x: 0, y: 315, width: 316, height: 40 } },
        AtlasSlot { scene: SceneType::ResultOpen2, name: RoiName::PlayerPanel, src_rect: RawRoiRect { x: 312, y: 830, width: 316, height: 40 }, atlas_rect: RawRoiRect { x: 0, y: 355, width: 316, height: 40 } },
        AtlasSlot { scene: SceneType::ResultFreestyle, name: RoiName::MaxComboBadge, src_rect: RawRoiRect { x: 1024, y: 521, width: 75, height: 75 }, atlas_rect: RawRoiRect { x: 407, y: 0, width: 75, height: 75 } },
        AtlasSlot { scene: SceneType::ResultOpen3, name: RoiName::MaxComboBadge, src_rect: RawRoiRect { x: 437, y: 591, width: 75, height: 75 }, atlas_rect: RawRoiRect { x: 407, y: 75, width: 75, height: 75 } },
        AtlasSlot { scene: SceneType::ResultOpen2, name: RoiName::MaxComboBadge, src_rect: RawRoiRect { x: 537, y: 591, width: 75, height: 75 }, atlas_rect: RawRoiRect { x: 0, y: 395, width: 75, height: 75 } },
        AtlasSlot { scene: SceneType::ResultFreestyle, name: RoiName::Rate, src_rect: RawRoiRect { x: 891, y: 608, width: 129, height: 32 }, atlas_rect: RawRoiRect { x: 0, y: 470, width: 129, height: 32 } },
        AtlasSlot { scene: SceneType::Freestyle, name: RoiName::Jacket, src_rect: RawRoiRect { x: 710, y: 533, width: 60, height: 60 }, atlas_rect: RawRoiRect { x: 340, y: 94, width: 60, height: 60 } },
        AtlasSlot { scene: SceneType::OpenMatch, name: RoiName::Jacket, src_rect: RawRoiRect { x: 664, y: 533, width: 60, height: 60 }, atlas_rect: RawRoiRect { x: 317, y: 169, width: 60, height: 60 } },
        AtlasSlot { scene: SceneType::ResultFreestyle, name: RoiName::Jacket, src_rect: RawRoiRect { x: 705, y: 14, width: 60, height: 60 }, atlas_rect: RawRoiRect { x: 75, y: 395, width: 60, height: 60 } },
        AtlasSlot { scene: SceneType::ResultOpen3, name: RoiName::Jacket, src_rect: RawRoiRect { x: 705, y: 14, width: 60, height: 60 }, atlas_rect: RawRoiRect { x: 400, y: 150, width: 60, height: 60 } },
        AtlasSlot { scene: SceneType::ResultOpen2, name: RoiName::Jacket, src_rect: RawRoiRect { x: 705, y: 14, width: 60, height: 60 }, atlas_rect: RawRoiRect { x: 135, y: 395, width: 60, height: 60 } },
        AtlasSlot { scene: SceneType::OpenMatch, name: RoiName::DiffPanelNM, src_rect: RawRoiRect { x: 82, y: 467, width: 116, height: 31 }, atlas_rect: RawRoiRect { x: 377, y: 210, width: 116, height: 31 } },
        AtlasSlot { scene: SceneType::OpenMatch, name: RoiName::DiffPanelHD, src_rect: RawRoiRect { x: 202, y: 467, width: 116, height: 31 }, atlas_rect: RawRoiRect { x: 129, y: 455, width: 116, height: 31 } },
        AtlasSlot { scene: SceneType::OpenMatch, name: RoiName::DiffPanelMX, src_rect: RawRoiRect { x: 322, y: 467, width: 116, height: 31 }, atlas_rect: RawRoiRect { x: 195, y: 395, width: 116, height: 31 } },
        AtlasSlot { scene: SceneType::OpenMatch, name: RoiName::DiffPanelSC, src_rect: RawRoiRect { x: 442, y: 467, width: 116, height: 31 }, atlas_rect: RawRoiRect { x: 245, y: 426, width: 116, height: 31 } },
        AtlasSlot { scene: SceneType::ResultFreestyle, name: RoiName::ModeDigit, src_rect: RawRoiRect { x: 78, y: 28, width: 50, height: 68 }, atlas_rect: RawRoiRect { x: 320, y: 229, width: 50, height: 68 } },
        AtlasSlot { scene: SceneType::ResultOpen2, name: RoiName::Rate, src_rect: RawRoiRect { x: 403, y: 673, width: 107, height: 31 }, atlas_rect: RawRoiRect { x: 311, y: 395, width: 107, height: 31 } },
        AtlasSlot { scene: SceneType::ResultOpen3, name: RoiName::Rate, src_rect: RawRoiRect { x: 293, y: 673, width: 107, height: 30 }, atlas_rect: RawRoiRect { x: 245, y: 457, width: 107, height: 30 } },
        AtlasSlot { scene: SceneType::Freestyle, name: RoiName::DiffPanelNM, src_rect: RawRoiRect { x: 98, y: 488, width: 110, height: 28 }, atlas_rect: RawRoiRect { x: 352, y: 457, width: 110, height: 28 } },
        AtlasSlot { scene: SceneType::Freestyle, name: RoiName::DiffPanelHD, src_rect: RawRoiRect { x: 218, y: 488, width: 110, height: 28 }, atlas_rect: RawRoiRect { x: 361, y: 426, width: 110, height: 28 } },
        AtlasSlot { scene: SceneType::Freestyle, name: RoiName::DiffPanelMX, src_rect: RawRoiRect { x: 338, y: 488, width: 110, height: 28 }, atlas_rect: RawRoiRect { x: 370, y: 241, width: 110, height: 28 } },
        AtlasSlot { scene: SceneType::Freestyle, name: RoiName::DiffPanelSC, src_rect: RawRoiRect { x: 458, y: 488, width: 110, height: 28 }, atlas_rect: RawRoiRect { x: 370, y: 269, width: 110, height: 28 } },
        AtlasSlot { scene: SceneType::Freestyle, name: RoiName::Score, src_rect: RawRoiRect { x: 173, y: 558, width: 104, height: 24 }, atlas_rect: RawRoiRect { x: 129, y: 487, width: 104, height: 24 } },
        AtlasSlot { scene: SceneType::Freestyle, name: RoiName::Rate, src_rect: RawRoiRect { x: 172, y: 583, width: 104, height: 22 }, atlas_rect: RawRoiRect { x: 233, y: 487, width: 104, height: 22 } },
        AtlasSlot { scene: SceneType::OpenMatch, name: RoiName::Score, src_rect: RawRoiRect { x: 77, y: 558, width: 106, height: 20 }, atlas_rect: RawRoiRect { x: 337, y: 487, width: 106, height: 20 } },
        AtlasSlot { scene: SceneType::OpenMatch, name: RoiName::Rate, src_rect: RawRoiRect { x: 197, y: 558, width: 103, height: 20 }, atlas_rect: RawRoiRect { x: 316, y: 315, width: 103, height: 20 } },
        AtlasSlot { scene: SceneType::ResultOpen3, name: RoiName::OpenmatchDiff, src_rect: RawRoiRect { x: 410, y: 841, width: 106, height: 18 }, atlas_rect: RawRoiRect { x: 320, y: 297, width: 106, height: 18 } },
        AtlasSlot { scene: SceneType::ResultOpen2, name: RoiName::OpenmatchDiff, src_rect: RawRoiRect { x: 510, y: 841, width: 106, height: 18 }, atlas_rect: RawRoiRect { x: 316, y: 335, width: 106, height: 18 } },
        AtlasSlot { scene: SceneType::ResultFreestyle, name: RoiName::DiffPanelNM, src_rect: RawRoiRect { x: 709, y: 86, width: 90, height: 18 }, atlas_rect: RawRoiRect { x: 422, y: 315, width: 90, height: 18 } },
        AtlasSlot { scene: SceneType::ResultFreestyle, name: RoiName::DiffPanelHD, src_rect: RawRoiRect { x: 829, y: 86, width: 90, height: 18 }, atlas_rect: RawRoiRect { x: 422, y: 333, width: 90, height: 18 } },
        AtlasSlot { scene: SceneType::ResultFreestyle, name: RoiName::DiffPanelMX, src_rect: RawRoiRect { x: 949, y: 86, width: 90, height: 18 }, atlas_rect: RawRoiRect { x: 422, y: 351, width: 90, height: 18 } },
        AtlasSlot { scene: SceneType::ResultFreestyle, name: RoiName::DiffPanelSC, src_rect: RawRoiRect { x: 1069, y: 86, width: 90, height: 18 }, atlas_rect: RawRoiRect { x: 418, y: 369, width: 90, height: 18 } },
        AtlasSlot { scene: SceneType::Freestyle, name: RoiName::MaxComboBadge, src_rect: RawRoiRect { x: 409, y: 585, width: 36, height: 36 }, atlas_rect: RawRoiRect { x: 418, y: 387, width: 36, height: 36 } },
        AtlasSlot { scene: SceneType::OpenMatch, name: RoiName::MaxComboBadge, src_rect: RawRoiRect { x: 398, y: 601, width: 36, height: 36 }, atlas_rect: RawRoiRect { x: 454, y: 387, width: 36, height: 36 } },
        AtlasSlot { scene: SceneType::ResultFreestyle, name: RoiName::ModeColorbar, src_rect: RawRoiRect { x: 60, y: 0, width: 6, height: 96 }, atlas_rect: RawRoiRect { x: 493, y: 0, width: 6, height: 96 } },
        AtlasSlot { scene: SceneType::Freestyle, name: RoiName::BtnMode, src_rect: RawRoiRect { x: 80, y: 130, width: 5, height: 5 }, atlas_rect: RawRoiRect { x: 337, y: 507, width: 5, height: 5 } },
        AtlasSlot { scene: SceneType::OpenMatch, name: RoiName::BtnMode, src_rect: RawRoiRect { x: 60, y: 130, width: 5, height: 5 }, atlas_rect: RawRoiRect { x: 342, y: 507, width: 5, height: 5 } },
        AtlasSlot { scene: SceneType::ResultOpen3, name: RoiName::OpenmatchMode, src_rect: RawRoiRect { x: 212, y: 830, width: 5, height: 5 }, atlas_rect: RawRoiRect { x: 347, y: 507, width: 5, height: 5 } },
        AtlasSlot { scene: SceneType::ResultOpen2, name: RoiName::OpenmatchMode, src_rect: RawRoiRect { x: 312, y: 830, width: 5, height: 5 }, atlas_rect: RawRoiRect { x: 352, y: 507, width: 5, height: 5 } },
    ];
    assert(v@ =~= atlas_layout());
    v
}

/// The corners of a rectangle given by corner and size.
pub open spec fn corners(r: RawRoiRect) -> RoiRect {
    RoiRect { x1: r.x, y1: r.y, x2: (r.x + r.width) as i32, y2: (r.y + r.height) as i32 }
}

/// The region with corners (`x1`, `y1`) and (`x2`, `y2`).
pub open spec fn roi(x1: i32, y1: i32, x2: i32, y2: i32) -> RoiRect {
    RoiRect { x1, y1, x2, y2 }
}

/// Atlas rectangle of region `name` on screen `scene`.
pub open spec fn atlas_roi(name: RoiName, scene: SceneType) -> Option<RoiRect> {
    match (scene, name) {
        (SceneType::ResultFreestyle, RoiName::Score) => Some(roi(0, 0, 407, 94)),
        (SceneType::ResultFreestyle, RoiName::Mode) => Some(roi(0, 94, 340, 169)),
        (SceneType::ResultFreestyle, RoiName::MaxComboBadge) => Some(roi(407, 0, 482, 75)),
        (SceneType::ResultFreestyle, RoiName::Rate) => Some(roi(0, 470, 129, 502)),
        (SceneType::ResultFreestyle, RoiName::Jacket) => Some(roi(75, 395, 135, 455)),
        (SceneType::ResultFreestyle, RoiName::ModeDigit) => Some(roi(320, 229, 370, 297)),
        (SceneType::ResultFreestyle, RoiName::DiffPanel | RoiName::DiffPanelNM) => Some(roi(422, 315, 512, 333)),
        (SceneType::ResultFreestyle, RoiName::DiffPanelHD) => Some(roi(422, 333, 512, 351)),
        (SceneType::ResultFreestyle, RoiName::DiffPanelMX) => Some(roi(422, 351, 512, 369)),
        (SceneType::ResultFreestyle, RoiName::DiffPanelSC) => Some(roi(418, 369, 508, 387)),
        (SceneType::ResultFreestyle, RoiName::ModeColorbar) => Some(roi(493, 0, 499, 96)),
        (SceneType::ResultOpen3, RoiName::Score) => Some(roi(0, 169, 317, 243)),
        (SceneType::ResultOpen3, RoiName::PlayerPanel) => Some(roi(0, 315, 316, 355)),
        (SceneType::ResultOpen3, RoiName::MaxComboBadge) => Some(roi(407, 75, 482, 150)),
        (SceneType::ResultOpen3, RoiName::Jacket) => Some(roi(400, 150, 460, 210)),
        (SceneType::ResultOpen3, RoiName::Rate) => Some(roi(245, 457, 352, 487)),
        (SceneType::ResultOpen3, RoiName::OpenmatchDiff) => Some(roi(320, 297, 426, 315)),
        (SceneType::ResultOpen3, RoiName::OpenmatchMode) => Some(roi(347, 507, 352, 512)),
        (SceneType::ResultOpen2, RoiName::Score) => Some(roi(0, 243, 320, 315)),
        (SceneType::ResultOpen2, RoiName::PlayerPanel) => Some(roi(0, 355, 316, 395)),
        (SceneType::ResultOpen2, RoiName::MaxComboBadge) => Some(roi(0, 395, 75, 470)),
        (SceneType::ResultOpen2, RoiName::Jacket) => Some(roi(135, 395, 195, 455)),
        (SceneType::ResultOpen2, RoiName::Rate) => Some(roi(311, 395, 418, 426)),
        (SceneType::ResultOpen2, RoiName::OpenmatchDiff) => Some(roi(316, 335, 422, 353)),
        (SceneType::ResultOpen2, RoiName::OpenmatchMode) => Some(roi(352, 507, 357, 512)),
        (SceneType::Freestyle, RoiName::Jacket) => Some(roi(340, 94, 400, 154)),
        (SceneType::Freestyle, RoiName::DiffPanel | RoiName::DiffPanelNM) => Some(roi(352, 457, 462, 485)),
        (SceneType::Freestyle, RoiName::DiffPanelHD) => Some(roi(361, 426, 471, 454)),
        (SceneType::Freestyle, RoiName::DiffPanelMX) => Some(roi(370, 241, 480, 269)),
        (SceneType::Freestyle, RoiName::DiffPanelSC) => Some(roi(370, 269, 480, 297)),
        (SceneType::Freestyle, RoiName::Score) => Some(roi(129, 487, 233, 511)),
        (SceneType::Freestyle, RoiName::Rate) => Some(roi(233, 487, 337, 509)),
        (SceneType::Freestyle, RoiName::MaxComboBadge) => Some(roi(418, 387, 454, 423)),
        (SceneType::Freestyle, RoiName::BtnMode) => Some(roi(337, 507, 342, 512)),
        (SceneType::OpenMatch | SceneType::LadderMatch, RoiName::Jacket) => Some(roi(317, 169, 377, 229)),
        (SceneType::OpenMatch | SceneType::LadderMatch, RoiName::DiffPanel | RoiName::DiffPanelNM) => Some(roi(377, 210, 493, 241)),
        (SceneType::OpenMatch | SceneType::LadderMatch, RoiName::DiffPanelHD) => Some(roi(129, 455, 245, 486)),
        (SceneType::OpenMatch | SceneType::LadderMatch, RoiName::DiffPanelMX) => Some(roi(195, 395, 311, 426)),
        (SceneType::OpenMatch | SceneType::LadderMatch, RoiName::DiffPanelSC) => Some(roi(245, 426, 361, 457)),
        (SceneType::OpenMatch | SceneType::LadderMatch, RoiName::Score) => Some(roi(337, 487, 443, 507)),
        (SceneType::OpenMatch | SceneType::LadderMatch, RoiName::Rate) => Some(roi(316, 315, 419, 335)),
        (SceneType::OpenMatch | SceneType::LadderMatch, RoiName::MaxComboBadge) => Some(roi(454, 387, 490, 423)),
        (SceneType::OpenMatch | SceneType::LadderMatch, RoiName::BtnMode) => Some(roi(342, 507, 347, 512)),
        _ => None,
    }
}

/// Atlas rectangle of the difficulty panel `diff` on screen `scene`.
pub open spec fn atlas_diff_panel_roi(diff: Difficulty, scene: SceneType) -> Option<RoiRect> {
    match (scene, diff) {
        (SceneType::Freestyle, Difficulty::NM) => Some(roi(352, 457, 462, 485)),
        (SceneType::Freestyle, Difficulty::HD) => Some(roi(361, 426, 471, 454)),
        (SceneType::Freestyle, Difficulty::MX) => Some(roi(370, 241, 480, 269)),
        (SceneType::Freestyle, Difficulty::SC) => Some(roi(370, 269, 480, 297)),
        (SceneType::OpenMatch | SceneType::LadderMatch, Difficulty::NM) => Some(roi(377, 210, 493, 241)),
        (SceneType::OpenMatch | SceneType::LadderMatch, Difficulty::HD) => Some(roi(129, 455, 245, 486)),
        (SceneType::OpenMatch | SceneType::LadderMatch, Difficulty::MX) => Some(roi(195, 395, 311, 426)),
        (SceneType::OpenMatch | SceneType::LadderMatch, Difficulty::SC) => Some(roi(245, 426, 361, 457)),
        (SceneType::ResultFreestyle, Difficulty::NM) => Some(roi(422, 315, 512, 333)),
        (SceneType::ResultFreestyle, Difficulty::HD) => Some(roi(422, 333, 512, 351)),
        (SceneType::ResultFreestyle, Difficulty::MX) => Some(roi(422, 351, 512, 369)),
        (SceneType::ResultFreestyle, Difficulty::SC) => Some(roi(418, 369, 508, 387)),
        _ => None,
    }
}

/// Name of the slot holding the panel of difficulty `d`.
pub open spec fn diff_panel_name(d: Difficulty) -> RoiName {
    match d {
        Difficulty::NM => RoiName::DiffPanelNM,
        Difficulty::HD => RoiName::DiffPanelHD,
        Difficulty::MX => RoiName::DiffPanelMX,
        Difficulty::SC => RoiName::DiffPanelSC,
    }
}

/// Translates (scene, name) pairs into atlas coordinates.
pub struct AtlasTranslator;

impl AtlasTranslator {
    /// Atlas rectangle of region `name` on screen `scene`.
    pub fn roi_for(name: RoiName, scene: SceneType) -> (r: Option<RoiRect>)
        ensures
            r == atlas_roi(name, scene),
    {
        match (scene, name) {
            (SceneType::ResultFreestyle, RoiName::Score) => Some(RoiRect { x1: 0, y1: 0, x2: 407, y2: 94 }),
            (SceneType::ResultFreestyle, RoiName::Mode) => Some(RoiRect { x1: 0, y1: 94, x2: 340, y2: 169 }),
            (SceneType::ResultFreestyle, RoiName::MaxComboBadge) => Some(RoiRect { x1: 407, y1: 0, x2: 482, y2: 75 }),
            (SceneType::ResultFreestyle, RoiName::Rate) => Some(RoiRect { x1: 0, y1: 470, x2: 129, y2: 502 }),
            (SceneType::ResultFreestyle, RoiName::Jacket) => Some(RoiRect { x1: 75, y1: 395, x2: 135, y2: 455 }),
            (SceneType::ResultFreestyle, RoiName::ModeDigit) => Some(RoiRect { x1: 320, y1: 229, x2: 370, y2: 297 }),
            (SceneType::ResultFreestyle, RoiName::DiffPanel | RoiName::DiffPanelNM) => Some(RoiRect { x1: 422, y1: 315, x2: 512, y2: 333 }),
            (SceneType::ResultFreestyle, RoiName::DiffPanelHD) => Some(RoiRect { x1: 422, y1: 333, x2: 512, y2: 351 }),
            (SceneType::ResultFreestyle, RoiName::DiffPanelMX) => Some(RoiRect { x1: 422, y1: 351, x2: 512, y2: 369 }),
            (SceneType::ResultFreestyle, RoiName::DiffPanelSC) => Some(RoiRect { x1: 418, y1: 369, x2: 508, y2: 387 }),
            (SceneType::ResultFreestyle, RoiName::ModeColorbar) => Some(RoiRect { x1: 493, y1: 0, x2: 499, y2: 96 }),
            (SceneType::ResultOpen3, RoiName::Score) => Some(RoiRect { x1: 0, y1: 169, x2: 317, y2: 243 }),
            (SceneType::ResultOpen3, RoiName::PlayerPanel) => Some(RoiRect { x1: 0, y1: 315, x2: 316, y2: 355 }),
            (SceneType::ResultOpen3, RoiName::MaxComboBadge) => Some(RoiRect { x1: 407, y1: 75, x2: 482, y2: 150 }),
            (SceneType::ResultOpen3, RoiName::Jacket) => Some(RoiRect { x1: 400, y1: 150, x2: 460, y2: 210 }),
            (SceneType::ResultOpen3, RoiName::Rate) => Some(RoiRect { x1: 245, y1: 457, x2: 352, y2: 487 }),
            (SceneType::ResultOpen3, RoiName::OpenmatchDiff) => Some(RoiRect { x1: 320, y1: 297, x2: 426, y2: 315 }),
            (SceneType::ResultOpen3, RoiName::OpenmatchMode) => Some(RoiRect { x1: 347, y1: 507, x2: 352, y2: 512 }),
            (SceneType::ResultOpen2, RoiName::Score) => Some(RoiRect { x1: 0, y1: 243, x2: 320, y2: 315 }),
            (SceneType::ResultOpen2, RoiName::PlayerPanel) => Some(RoiRect { x1: 0, y1: 355, x2: 316, y2: 395 }),
            (SceneType::ResultOpen2, RoiName::MaxComboBadge) => Some(RoiRect { x1: 0, y1: 395, x2: 75, y2: 470 }),
            (SceneType::ResultOpen2, RoiName::Jacket) => Some(RoiRect { x1: 135, y1: 395, x2: 195, y2: 455 }),
            (SceneType::ResultOpen2, RoiName::Rate) => Some(RoiRect { x1: 311, y1: 395, x2: 418, y2: 426 }),
            (SceneType::ResultOpen2, RoiName::OpenmatchDiff) => Some(RoiRect { x1: 316, y1: 335, x2: 422, y2: 353 }),
            (SceneType::ResultOpen2, RoiName::OpenmatchMode) => Some(RoiRect { x1: 352, y1: 507, x2: 357, y2: 512 }),
            (SceneType::Freestyle, RoiName::Jacket) => Some(RoiRect { x1: 340, y1: 94, x2: 400, y2: 154 }),
            (SceneType::Freestyle, RoiName::DiffPanel | RoiName::DiffPanelNM) => Some(RoiRect { x1: 352, y1: 457, x2: 462, y2: 485 }),
            (SceneType::Freestyle, RoiName::DiffPanelHD) => Some(RoiRect { x1: 361, y1: 426, x2: 471, y2: 454 }),
            (SceneType::Freestyle, RoiName::DiffPanelMX) => Some(RoiRect { x1: 370, y1: 241, x2: 480, y2: 269 }),
            (SceneType::Freestyle, RoiName::DiffPanelSC) => Some(RoiRect { x1: 370, y1: 269, x2: 480, y2: 297 }),
            (SceneType::Freestyle, RoiName::Score) => Some(RoiRect { x1: 129, y1: 487, x2: 233, y2: 511 }),
            (SceneType::Freestyle, RoiName::Rate) => Some(RoiRect { x1: 233, y1: 487, x2: 337, y2: 509 }),
            (SceneType::Freestyle, RoiName::MaxComboBadge) => Some(RoiRect { x1: 418, y1: 387, x2: 454, y2: 423 }),
            (SceneType::Freestyle, RoiName::BtnMode) => Some(RoiRect { x1: 337, y1: 507, x2: 342, y2: 512 }),
            (SceneType::OpenMatch | SceneType::LadderMatch, RoiName::Jacket) => Some(RoiRect { x1: 317, y1: 169, x2: 377, y2: 229 }),
            (SceneType::OpenMatch | SceneType::LadderMatch, RoiName::DiffPanel | RoiName::DiffPanelNM) => Some(RoiRect { x1: 377, y1: 210, x2: 493, y2: 241 }),
            (SceneType::OpenMatch | SceneType::LadderMatch, RoiName::DiffPanelHD) => Some(RoiRect { x1: 129, y1: 455, x2: 245, y2: 486 }),
            (SceneType::OpenMatch | SceneType::LadderMatch, RoiName::DiffPanelMX) => Some(RoiRect { x1: 195, y1: 395, x2: 311, y2: 426 }),
            (SceneType::OpenMatch | SceneType::LadderMatch, RoiName::DiffPanelSC) => Some(RoiRect { x1: 245, y1: 426, x2: 361, y2: 457 }),
            (SceneType::OpenMatch | SceneType::LadderMatch, RoiName::Score) => Some(RoiRect { x1: 337, y1: 487, x2: 443, y2: 507 }),
            (SceneType::OpenMatch | SceneType::LadderMatch, RoiName::Rate) => Some(RoiRect { x1: 316, y1: 315, x2: 419, y2: 335 }),
            (SceneType::OpenMatch | SceneType::LadderMatch, RoiName::MaxComboBadge) => Some(RoiRect { x1: 454, y1: 387, x2: 490, y2: 423 }),
            (SceneType::OpenMatch | SceneType::LadderMatch, RoiName::BtnMode) => Some(RoiRect { x1: 342, y1: 507, x2: 347, y2: 512 }),
            _ => None,
        }
    }

    /// Atlas rectangle of the region called `name` on screen `scene`; `None` for
    /// unknown names and for regions that the scene does not have.
    pub fn get_roi_for_scene(name: &str, scene: SceneType) -> (r: Option<RoiRect>)
        ensures
            r == (match roi_name_from_label(name@) {
                Some(n) => atlas_roi(n, scene),
                None => None,
            }),
    {
        match RoiName::from_name(name) {
            Some(n) => Self::roi_for(n, scene),
            None => None,
        }
    }

    /// Atlas rectangle of the difficulty panel `diff` on screen `scene`.
    pub fn get_diff_panel_roi_for_scene(diff: Difficulty, scene: SceneType) -> (r: Option<RoiRect>)
        ensures
            r == atlas_diff_panel_roi(diff, scene),
    {
        match (scene, diff) {
            (SceneType::Freestyle, Difficulty::NM) => Some(RoiRect { x1: 352, y1: 457, x2: 462, y2: 485 }),
            (SceneType::Freestyle, Difficulty::HD) => Some(RoiRect { x1: 361, y1: 426, x2: 471, y2: 454 }),
            (SceneType::Freestyle, Difficulty::MX) => Some(RoiRect { x1: 370, y1: 241, x2: 480, y2: 269 }),
            (SceneType::Freestyle, Difficulty::SC) => Some(RoiRect { x1: 370, y1: 269, x2: 480, y2: 297 }),
            (SceneType::OpenMatch | SceneType::LadderMatch, Difficulty::NM) => Some(RoiRect { x1: 377, y1: 210, x2: 493, y2: 241 }),
            (SceneType::OpenMatch | SceneType::LadderMatch, Difficulty::HD) => Some(RoiRect { x1: 129, y1: 455, x2: 245, y2: 486 }),
            (SceneType::OpenMatch | SceneType::LadderMatch, Difficulty::MX) => Some(RoiRect { x1: 195, y1: 395, x2: 311, y2: 426 }),
            (SceneType::OpenMatch | SceneType::LadderMatch, Difficulty::SC) => Some(RoiRect { x1: 245, y1: 426, x2: 361, y2: 457 }),
            (SceneType::ResultFreestyle, Difficulty::NM) => Some(RoiRect { x1: 422, y1: 315, x2: 512, y2: 333 }),
            (SceneType::ResultFreestyle, Difficulty::HD) => Some(RoiRect { x1: 422, y1: 333, x2: 512, y2: 351 }),
            (SceneType::ResultFreestyle, Difficulty::MX) => Some(RoiRect { x1: 422, y1: 351, x2: 512, y2: 369 }),
            (SceneType::ResultFreestyle, Difficulty::SC) => Some(RoiRect { x1: 418, y1: 369, x2: 508, y2: 387 }),
            _ => None,
        }
    }

    /// Crops the region called `name` of screen `scene` out of an atlas frame.
    pub fn crop_roi<'a>(atlas_frame: &'a CapturedFrame, name: &str, scene: SceneType) -> (r: Option<ImageView<'a>>)
        requires
            crate::frame::frame_viewable(atlas_frame),
        ensures
            match roi_name_from_label(name@) {
                Some(n) => match atlas_roi(n, scene) {
                    Some(rect) => crate::frame::frame_crop(atlas_frame, rect, r),
                    None => r is None,
                },
                None => r is None,
            },
    {
        match Self::get_roi_for_scene(name, scene) {
            Some(rect) => crop_frame_roi(atlas_frame, rect),
            None => None,
        }
    }

    /// Crops the panel of difficulty `diff` on screen `scene` out of an atlas frame.
    pub fn crop_diff_panel_roi<'a>(atlas_frame: &'a CapturedFrame, diff: Difficulty, scene: SceneType) -> (r: Option<ImageView<'a>>)
        requires
            crate::frame::frame_viewable(atlas_frame),
        ensures
            match atlas_diff_panel_roi(diff, scene) {
                Some(rect) => crate::frame::frame_crop(atlas_frame, rect, r),
                None => r is None,
            },
    {
        match Self::get_diff_panel_roi_for_scene(diff, scene) {
            Some(rect) => crop_frame_roi(atlas_frame, rect),
            None => None,
        }
    }
}

/// Two rectangles share at least one pixel.
pub open spec fn rects_overlap(r1: RawRoiRect, r2: RawRoiRect) -> bool {
    !(r1.x + r1.width <= r2.x || r2.x + r2.width <= r1.x || r1.y + r1.height <= r2.y || r2.y
        + r2.height <= r1.y)
}

/// Every slot lies inside the atlas texture.
pub proof fn lemma_atlas_slots_within_bounds(i: int)
    requires
        0 <= i < ATLAS_SLOT_COUNT,
    ensures
        atlas_layout().len() == ATLAS_SLOT_COUNT,
        atlas_layout()[i].atlas_rect.x >= 0,
        atlas_layout()[i].atlas_rect.y >= 0,
        atlas_layout()[i].atlas_rect.x + atlas_layout()[i].atlas_rect.width <= ATLAS_WIDTH,
        atlas_layout()[i].atlas_rect.y + atlas_layout()[i].atlas_rect.height <= ATLAS_HEIGHT,
{
}

/// No two slots of the atlas overlap.
#[verifier::rlimit(100)]
pub proof fn lemma_atlas_slots_disjoint(i: int, j: int)
    requires
        0 <= i < j < ATLAS_SLOT_COUNT,
    ensures
        !rects_overlap(atlas_layout()[i].atlas_rect, atlas_layout()[j].atlas_rect),
{
}

/// Every slot has a positive size, and it is packed at the size it has on screen.
pub proof fn lemma_atlas_slot_dimensions(i: int)
    requires
        0 <= i < ATLAS_SLOT_COUNT,
    ensures
        atlas_layout()[i].src_rect.width > 0,
        atlas_layout()[i].src_rect.height > 0,
        atlas_layout()[i].src_rect.width == atlas_layout()[i].atlas_rect.width,
        atlas_layout()[i].src_rect.height == atlas_layout()[i].atlas_rect.height,
{
}

/// The translator resolves every slot of the layout to the slot's atlas rectangle.
pub proof fn lemma_translator_resolves_slots(i: int)
    requires
        0 <= i < ATLAS_SLOT_COUNT,
    ensures
        atlas_roi(atlas_layout()[i].name, atlas_layout()[i].scene) == Some(
            corners(atlas_layout()[i].atlas_rect),
        ),
{
}

/// The ladder match screen shares every atlas rectangle with the open match screen.
pub proof fn lemma_ladder_match_shares_open_match(n: RoiName)
    ensures
        atlas_roi(n, SceneType::LadderMatch) == atlas_roi(n, SceneType::OpenMatch),
{
}

/// The plain "diff_panel" name is an alias of the normal-difficulty panel.
pub proof fn lemma_diff_panel_alias(s: SceneType)
    ensures
        atlas_roi(RoiName::DiffPanel, s) == atlas_roi(RoiName::DiffPanelNM, s),
{
}

/// On the song select and free-style result screens, the panel of each difficulty is
/// available both by difficulty and by name, at the same place inside the atlas.
pub proof fn lemma_diff_panel_translator_consistency(d: Difficulty, s: SceneType)
    requires
        s == SceneType::Freestyle || s == SceneType::OpenMatch || s == SceneType::LadderMatch || s
            == SceneType::ResultFreestyle,
    ensures
        atlas_diff_panel_roi(d, s) is Some,
        atlas_diff_panel_roi(d, s) == atlas_roi(diff_panel_name(d), s),
        0 <= atlas_diff_panel_roi(d, s).unwrap().x1,
        atlas_diff_panel_roi(d, s).unwrap().x2 <= ATLAS_WIDTH,
        0 <= atlas_diff_panel_roi(d, s).unwrap().y1,
        atlas_diff_panel_roi(d, s).unwrap().y2 <= ATLAS_HEIGHT,
{
}

/// Reading a region name back from its text gives the region.
pub proof fn lemma_roi_name_round_trip(n: RoiName)
    ensures
        roi_name_from_label(roi_name_label(n)) == Some(n),
{
    match n {
        RoiName::Score => {
        },
        RoiName::Mode => {
            assert(roi_name_label(RoiName::Score).len() != roi_name_label(RoiName::Mode).len());
        },
        RoiName::PlayerPanel => {
            assert(roi_name_label(RoiName::Score).len() != roi_name_label(RoiName::PlayerPanel).len());
            assert(roi_name_label(RoiName::Mode).len() != roi_name_label(RoiName::PlayerPanel).len());
        },
        RoiName::MaxComboBadge => {
            assert(roi_name_label(RoiName::Score).len() != roi_name_label(RoiName::MaxComboBadge).len());
            assert(roi_name_label(RoiName::Mode).len() != roi_name_label(RoiName::MaxComboBadge).len());
            assert(roi_name_label(RoiName::PlayerPanel).len() != roi_name_label(RoiName::MaxComboBadge).len());
        },
        RoiName::Rate => {
            assert(roi_name_label(RoiName::Score).len() != roi_name_label(RoiName::Rate).len());
            assert(roi_name_label(RoiName::Mode)[0] != roi_name_label(RoiName::Rate)[0]);
            assert(roi_name_label(RoiName::PlayerPanel).len() != roi_name_label(RoiName::Rate).len());
            assert(roi_name_label(RoiName::MaxComboBadge).len() != roi_name_label(RoiName::Rate).len());
        },
        RoiName::Jacket => {
            assert(roi_name_label(RoiName::Score).len() != roi_name_label(RoiName::Jacket).len());
            assert(roi_name_label(RoiName::Mode).len() != roi_name_label(RoiName::Jacket).len());
            assert(roi_name_label(RoiName::PlayerPanel).len() != roi_name_label(RoiName::Jacket).len());
            assert(roi_name_label(RoiName::MaxComboBadge).len() != roi_name_label(RoiName::Jacket).len());
            assert(roi_name_label(RoiName::Rate).len() != roi_name_label(RoiName::Jacket).len());
        },
        RoiName::ModeDigit => {
            assert(roi_name_label(RoiName::Score).len() != roi_name_label(RoiName::ModeDigit).len());
            assert(roi_name_label(RoiName::Mode).len() != roi_name_label(RoiName::ModeDigit).len());
            assert(roi_name_label(RoiName::PlayerPanel).len() != roi_name_label(RoiName::ModeDigit).len());
            assert(roi_name_label(RoiName::MaxComboBadge).len() != roi_name_label(RoiName::ModeDigit).len());
            assert(roi_name_label(RoiName::Rate).len() != roi_name_label(RoiName::ModeDigit).len());
            assert(roi_name_label(RoiName::Jacket).len() != roi_name_label(RoiName::ModeDigit).len());
        },
        RoiName::DiffPanel => {
            assert(roi_name_label(RoiName::Score).len() != roi_name_label(RoiName::DiffPanel).len());
            assert(roi_name_label(RoiName::Mode).len() != roi_name_label(RoiName::DiffPanel).len());
            assert(roi_name_label(RoiName::PlayerPanel).len() != roi_name_label(RoiName::DiffPanel).len());
            assert(roi_name_label(RoiName::MaxComboBadge).len() != roi_name_label(RoiName::DiffPanel).len());
            assert(roi_name_label(RoiName::Rate).len() != roi_name_label(RoiName::DiffPanel).len());
            assert(roi_name_label(RoiName::Jacket).len() != roi_name_label(RoiName::DiffPanel).len());
            assert(roi_name_label(RoiName::ModeDigit)[0] != roi_name_label(RoiName::DiffPanel)[0]);
        },
        RoiName::DiffPanelNM => {
            assert(roi_name_label(RoiName::Score).len() != roi_name_label(RoiName::DiffPanelNM).len());
            assert(roi_name_label(RoiName::Mode).len() != roi_name_label(RoiName::DiffPanelNM).len());
            assert(roi_name_label(RoiName::PlayerPanel).len() != roi_name_label(RoiName::DiffPanelNM).len());
            assert(roi_name_label(RoiName::MaxComboBadge).len() != roi_name_label(RoiName::DiffPanelNM).len());
            assert(roi_name_label(RoiName::Rate).len() != roi_name_label(RoiName::DiffPanelNM).len());
            assert(roi_name_label(RoiName::Jacket).len() != roi_name_label(RoiName::DiffPanelNM).len());
            assert(roi_name_label(RoiName::ModeDigit).len() != roi_name_label(RoiName::DiffPanelNM).len());
            assert(roi_name_label(RoiName::DiffPanel).len() != roi_name_label(RoiName::DiffPanelNM).len());
        },
        RoiName::DiffPanelHD => {
            assert(roi_name_label(RoiName::Score).len() != roi_name_label(RoiName::DiffPanelHD).len());
            assert(roi_name_label(RoiName::Mode).len() != roi_name_label(RoiName::DiffPanelHD).len());
            assert(roi_name_label(RoiName::PlayerPanel).len() != roi_name_label(RoiName::DiffPanelHD).len());
            assert(roi_name_label(RoiName::MaxComboBadge).len() != roi_name_label(RoiName::DiffPanelHD).len());
            assert(roi_name_label(RoiName::Rate).len() != roi_name_label(RoiName::DiffPanelHD).len());
            assert(roi_name_label(RoiName::Jacket).len() != roi_name_label(RoiName::DiffPanelHD).len());
            assert(roi_name_label(RoiName::ModeDigit).len() != roi_name_label(RoiName::DiffPanelHD).len());
            assert(roi_name_label(RoiName::DiffPanel).len() != roi_name_label(RoiName::DiffPanelHD).len());
            assert(roi_name_label(RoiName::DiffPanelNM)[11] != roi_name_label(RoiName::DiffPanelHD)[11]);
        },
        RoiName::DiffPanelMX => {
            assert(roi_name_label(RoiName::Score).len() != roi_name_label(RoiName::DiffPanelMX).len());
            assert(roi_name_label(RoiName::Mode).len() != roi_name_label(RoiName::DiffPanelMX).len());
            assert(roi_name_label(RoiName::PlayerPanel).len() != roi_name_label(RoiName::DiffPanelMX).len());
            assert(roi_name_label(RoiName::MaxComboBadge).len() != roi_name_label(RoiName::DiffPanelMX).len());
            assert(roi_name_label(RoiName::Rate).len() != roi_name_label(RoiName::DiffPanelMX).len());
            assert(roi_name_label(RoiName::Jacket).len() != roi_name_label(RoiName::DiffPanelMX).len());
            assert(roi_name_label(RoiName::ModeDigit).len() != roi_name_label(RoiName::DiffPanelMX).len());
            assert(roi_name_label(RoiName::DiffPanel).len() != roi_name_label(RoiName::DiffPanelMX).len());
            assert(roi_name_label(RoiName::DiffPanelNM)[11] != roi_name_label(RoiName::DiffPanelMX)[11]);
            assert(roi_name_label(RoiName::DiffPanelHD)[11] != roi_name_label(RoiName::DiffPanelMX)[11]);
        },
        RoiName::DiffPanelSC => {
            assert(roi_name_label(RoiName::Score).len() != roi_name_label(RoiName::DiffPanelSC).len());
            assert(roi_name_label(RoiName::Mode).len() != roi_name_label(RoiName::DiffPanelSC).len());
            assert(roi_name_label(RoiName::PlayerPanel).len() != roi_name_label(RoiName::DiffPanelSC).len());
            assert(roi_name_label(RoiName::MaxComboBadge).len() != roi_name_label(RoiName::DiffPanelSC).len());
            assert(roi_name_label(RoiName::Rate).len() != roi_name_label(RoiName::DiffPanelSC).len());
            assert(roi_name_label(RoiName::Jacket).len() != roi_name_label(RoiName::DiffPanelSC).len());
            assert(roi_name_label(RoiName::ModeDigit).len() != roi_name_label(RoiName::DiffPanelSC).len());
            assert(roi_name_label(RoiName::DiffPanel).len() != roi_name_label(RoiName::DiffPanelSC).len());
            assert(roi_name_label(RoiName::DiffPanelNM)[11] != roi_name_label(RoiName::DiffPanelSC)[11]);
            assert(roi_name_label(RoiName::DiffPanelHD)[11] != roi_name_label(RoiName::DiffPanelSC)[11]);
            assert(roi_name_label(RoiName::DiffPanelMX)[11] != roi_name_label(RoiName::DiffPanelSC)[11]);
        },
        RoiName::ModeColorbar => {
            assert(roi_name_label(RoiName::Score).len() != roi_name_label(RoiName::ModeColorbar).len());
            assert(roi_name_label(RoiName::Mode).len() != roi_name_label(RoiName::ModeColorbar).len());
            assert(roi_name_label(RoiName::PlayerPanel).len() != roi_name_label(RoiName::ModeColorbar).len());
            assert(roi_name_label(RoiName::MaxComboBadge).len() != roi_name_label(RoiName::ModeColorbar).len());
            assert(roi_name_label(RoiName::Rate).len() != roi_name_label(RoiName::ModeColorbar).len());
            assert(roi_name_label(RoiName::Jacket).len() != roi_name_label(RoiName::ModeColorbar).len());
            assert(roi_name_label(RoiName::ModeDigit).len() != roi_name_label(RoiName::ModeColorbar).len());
            assert(roi_name_label(RoiName::DiffPanel).len() != roi_name_label(RoiName::ModeColorbar).len());
            assert(roi_name_label(RoiName::DiffPanelNM)[0] != roi_name_label(RoiName::ModeColorbar)[0]);
            assert(roi_name_label(RoiName::DiffPanelHD)[0] != roi_name_label(RoiName::ModeColorbar)[0]);
            assert(roi_name_label(RoiName::DiffPanelMX)[0] != roi_name_label(RoiName::ModeColorbar)[0]);
            assert(roi_name_label(RoiName::DiffPanelSC)[0] != roi_name_label(RoiName::ModeColorbar)[0]);
        },
        RoiName::OpenmatchDiff => {
            assert(roi_name_label(RoiName::Score).len() != roi_name_label(RoiName::OpenmatchDiff).len());
            assert(roi_name_label(RoiName::Mode).len() != roi_name_label(RoiName::OpenmatchDiff).len());
            assert(roi_name_label(RoiName::PlayerPanel).len() != roi_name_label(RoiName::OpenmatchDiff).len());
            assert(roi_name_label(RoiName::MaxComboBadge).len() != roi_name_label(RoiName::OpenmatchDiff).len());
            assert(roi_name_label(RoiName::Rate).len() != roi_name_label(RoiName::OpenmatchDiff).len());
            assert(roi_name_label(RoiName::Jacket).len() != roi_name_label(RoiName::OpenmatchDiff).len());
            assert(roi_name_label(RoiName::ModeDigit).len() != roi_name_label(RoiName::OpenmatchDiff).len());
            assert(roi_name_label(RoiName::DiffPanel).len() != roi_name_label(RoiName::OpenmatchDiff).len());
            assert(roi_name_label(RoiName::DiffPanelNM).len() != roi_name_label(RoiName::OpenmatchDiff).len());
            assert(roi_name_label(RoiName::DiffPanelHD).len() != roi_name_label(RoiName::OpenmatchDiff).len());
            assert(roi_name_label(RoiName::DiffPanelMX).len() != roi_name_label(RoiName::OpenmatchDiff).len());
            assert(roi_name_label(RoiName::DiffPanelSC).len() != roi_name_label(RoiName::OpenmatchDiff).len());
            assert(roi_name_label(RoiName::ModeColorbar).len() != roi_name_label(RoiName::OpenmatchDiff).len());
        },
        RoiName::OpenmatchMode => {
            assert(roi_name_label(RoiName::Score).len() != roi_name_label(RoiName::OpenmatchMode).len());
            assert(roi_name_label(RoiName::Mode).len() != roi_name_label(RoiName::OpenmatchMode).len());
            assert(roi_name_label(RoiName::PlayerPanel).len() != roi_name_label(RoiName::OpenmatchMode).len());
            assert(roi_name_label(RoiName::MaxComboBadge).len() != roi_name_label(RoiName::OpenmatchMode).len());
            assert(roi_name_label(RoiName::Rate).len() != roi_name_label(RoiName::OpenmatchMode).len());
            assert(roi_name_label(RoiName::Jacket).len() != roi_name_label(RoiName::OpenmatchMode).len());
            assert(roi_name_label(RoiName::ModeDigit).len() != roi_name_label(RoiName::OpenmatchMode).len());
            assert(roi_name_label(RoiName::DiffPanel).len() != roi_name_label(RoiName::OpenmatchMode).len());
            assert(roi_name_label(RoiName::DiffPanelNM).len() != roi_name_label(RoiName::OpenmatchMode).len());
            assert(roi_name_label(RoiName::DiffPanelHD).len() != roi_name_label(RoiName::OpenmatchMode).len());
            assert(roi_name_label(RoiName::DiffPanelMX).len() != roi_name_label(RoiName::OpenmatchMode).len());
            assert(roi_name_label(RoiName::DiffPanelSC).len() != roi_name_label(RoiName::OpenmatchMode).len());
            assert(roi_name_label(RoiName::ModeColorbar).len() != roi_name_label(RoiName::OpenmatchMode).len());
            assert(roi_name_label(RoiName::OpenmatchDiff)[10] != roi_name_label(RoiName::OpenmatchMode)[10]);
        },
        RoiName::BtnMode => {
            assert(roi_name_label(RoiName::Score).len() != roi_name_label(RoiName::BtnMode).len());
            assert(roi_name_label(RoiName::Mode).len() != roi_name_label(RoiName::BtnMode).len());
            assert(roi_name_label(RoiName::PlayerPanel).len() != roi_name_label(RoiName::BtnMode).len());
            assert(roi_name_label(RoiName::MaxComboBadge).len() != roi_name_label(RoiName::BtnMode).len());
            assert(roi_name_label(RoiName::Rate).len() != roi_name_label(RoiName::BtnMode).len());
            assert(roi_name_label(RoiName::Jacket).len() != roi_name_label(RoiName::BtnMode).len());
            assert(roi_name_label(RoiName::ModeDigit).len() != roi_name_label(RoiName::BtnMode).len());
            assert(roi_name_label(RoiName::DiffPanel).len() != roi_name_label(RoiName::BtnMode).len());
            assert(roi_name_label(RoiName::DiffPanelNM).len() != roi_name_label(RoiName::BtnMode).len());
            assert(roi_name_label(RoiName::DiffPanelHD).len() != roi_name_label(RoiName::BtnMode).len());
            assert(roi_name_label(RoiName::DiffPanelMX).len() != roi_name_label(RoiName::BtnMode).len());
            assert(roi_name_label(RoiName::DiffPanelSC).len() != roi_name_label(RoiName::BtnMode).len());
            assert(roi_name_label(RoiName::ModeColorbar).len() != roi_name_label(RoiName::BtnMode).len());
            assert(roi_name_label(RoiName::OpenmatchDiff).len() != roi_name_label(RoiName::BtnMode).len());
            assert(roi_name_label(RoiName::OpenmatchMode).len() != roi_name_label(RoiName::BtnMode).len());
        },
    }
}

} // verus!
