//! Regions of interest of a scene, named and given by origin and size.
use vstd::prelude::*;
use std::collections::HashMap;

verus! {

/// A region given by its top-left corner and its size.
#[derive(Clone, Copy, Debug, PartialEq, Eq, Structural)]
pub struct RoiRect {
    pub x: i32,
    pub y: i32,
    pub width: i32,
    pub height: i32,
}

/// The named regions of one scene.
#[derive(Clone, Debug)]
pub struct SceneRoiConfig {
    pub rois: HashMap<String, RoiRect>,
}

} // verus!
