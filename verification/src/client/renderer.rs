//! What an animation frame says about its picture.

use vstd::prelude::*;
use vstd::string::StringExecFns;
use crate::base::vector2::{Vector2, UNIT};

verus! {

/// Where the picture of a frame is found: an image file, the region of it
/// that is shown, and how the region is placed and scaled on screen. Offset
/// and scale count hundredths; region and size count pixels.
#[derive(Clone, Debug)]
pub struct Texture {
    pub path: String,
    pub offset: Vector2,
    pub scale: i64,
    pub position: [u32; 2],
    pub dimensions: [u32; 2],
}

/// The image that stands for every frame without a picture of its own.
pub open spec fn placeholder_path() -> Seq<char> {
    "./assets/opengl.png"@
}

impl Texture {
    /// The placeholder picture: unscaled, not shifted, 600 by 300 pixels from
    /// the corner of the image.
    pub fn new() -> (t: Texture)
        ensures
            t.path@ == placeholder_path(),
            t.offset == (Vector2 { x: 0, y: 0 }),
            t.scale == UNIT,
            t.position@ == seq![0u32, 0u32],
            t.dimensions@ == seq![600u32, 300u32],
    {
        let t = Texture {
            path: String::from_str("./assets/opengl.png"),
            offset: Vector2 { x: 0, y: 0 },
            scale: UNIT,
            position: [0, 0],
            dimensions: [600, 300],
        };
        assert(t.position@ =~= seq![0u32, 0u32]);
        assert(t.dimensions@ =~= seq![600u32, 300u32]);
        t
    }
}

} // verus!
