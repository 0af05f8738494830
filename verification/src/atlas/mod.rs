//! The libGDX texture atlas format, as the editor imports it into sprite frames.
//!
//! An atlas is a text of pages. A page starts with the name of its texture
//! file; lines that start with a tab before its first frame are page settings
//! and are skipped. Each frame starts with a line `name_index`, followed by
//! tab-indented attributes `key: a, b, c, d` where the key is `bounds` or
//! `offsets`. An empty line ends a page.
pub mod text;
pub mod values;
pub mod reader;
pub mod plan;
pub mod paths;
pub mod laws;
pub mod encoding;

use vstd::prelude::*;

verus! {

/// Why an atlas, or the path of an atlas file, cannot be imported.
#[derive(Clone, Copy, Debug, PartialEq, Eq, Structural)]
pub enum AtlasError {
    /// The path of the atlas does not end in `.atlas`.
    NotAnAtlasPath,
    /// The path of the atlas has no directory part.
    NoDirectory,
    /// A line is read by its first character, but it is empty or its first
    /// character takes more than one byte.
    BadLineStart,
    /// A frame name has no `_` before its index.
    MissingUnderscore,
    /// The index after the last `_` of a frame name is not an `i32`.
    BadFrameIndex,
    /// A frame name has nothing before its last `_`.
    EmptyAnimationName,
    /// A frame index is negative, or too large to count the frames up to it.
    FrameIndexOutOfRange,
    /// An attribute line has no `": "` after its key.
    MissingKeySeparator,
    /// An attribute has more than four values.
    TooManyValues,
    /// An attribute has fewer than four values.
    TooFewValues,
    /// An attribute key is neither `bounds` nor `offsets`.
    UnknownKey,
    /// A frame ends without a `bounds` attribute.
    MissingBounds,
    /// A frame ends without an `offsets` attribute.
    MissingOffsets,
    /// The atlas ends where no frame is open.
    UnfinishedFrame,
}

/// The key of a frame attribute.
#[derive(Clone, Copy, Debug, PartialEq, Eq, Structural)]
pub enum AttrKey {
    /// The region of the frame in the texture: `x, y, width, height`.
    Bounds,
    /// The placement of the region in the untrimmed image: `x, y, width, height`.
    Offsets,
}

/// One attribute line of a frame, with the text of its four numbers.
pub struct FrameAttr {
    pub key: AttrKey,
    pub values: [Vec<u8>; 4],
}

/// One frame of an animation: its page, the animation it belongs to, its
/// index there, and its attributes in the order of the file.
pub struct AtlasFrame {
    pub page: usize,
    pub anim_name: Vec<u8>,
    pub index: i32,
    pub attrs: Vec<FrameAttr>,
}

/// An atlas: the texture file name of each page, and the frames in the order
/// of the file.
pub struct Atlas {
    pub textures: Vec<Vec<u8>>,
    pub frames: Vec<AtlasFrame>,
}

/// The model of a frame attribute.
pub struct AttrView {
    pub key: AttrKey,
    pub values: Seq<Seq<u8>>,
}

/// The model of a frame.
pub struct FrameView {
    pub page: int,
    pub anim_name: Seq<u8>,
    pub index: int,
    pub attrs: Seq<AttrView>,
}

/// The model of an atlas.
pub struct AtlasView {
    pub textures: Seq<Seq<u8>>,
    pub frames: Seq<FrameView>,
}

impl View for FrameAttr {
    type V = AttrView;

    open spec fn view(&self) -> AttrView {
        AttrView { key: self.key, values: self.values@.map_values(|v: Vec<u8>| v@) }
    }
}

impl View for AtlasFrame {
    type V = FrameView;

    open spec fn view(&self) -> FrameView {
        FrameView {
            page: self.page as int,
            anim_name: self.anim_name@,
            index: self.index as int,
            attrs: self.attrs@.map_values(|a: FrameAttr| a@),
        }
    }
}

impl View for Atlas {
    type V = AtlasView;

    open spec fn view(&self) -> AtlasView {
        AtlasView {
            textures: self.textures@.map_values(|t: Vec<u8>| t@),
            frames: self.frames@.map_values(|f: AtlasFrame| f@),
        }
    }
}

} // verus!
