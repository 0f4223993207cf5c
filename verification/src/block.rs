//! Block identifiers, opacity and per-face texture assignments.

use vstd::prelude::*;

verus! {

/// Name of a kind of block. Air is the absence of an id.
#[derive(Clone, Debug, PartialEq, Eq, Hash)]
pub struct BlockId(pub String);

impl View for BlockId {
    type V = Seq<char>;

    open spec fn view(&self) -> Seq<char> {
        self.0@
    }
}

impl BlockId {
    /// The id with the given name.
    pub fn named(name: &str) -> (id: BlockId)
        ensures
            id@ == name@,
    {
        BlockId(name.to_string())
    }

    /// A copy of this id.
    pub fn clone_id(&self) -> (copy: BlockId)
        ensures
            copy@ == self@,
    {
        BlockId(self.0.clone())
    }

    /// Whether two ids have the same name.
    pub fn same_as(&self, other: &BlockId) -> (same: bool)
        ensures
            same == (self@ == other@),
    {
        self.0 == other.0
    }
}

impl From<String> for BlockId {
    fn from(value: String) -> (id: BlockId) {
        BlockId(value)
    }
}

impl vstd::std_specs::convert::FromSpecImpl<String> for BlockId {
    open spec fn obeys_from_spec() -> bool {
        true
    }

    open spec fn from_spec(value: String) -> BlockId {
        BlockId(value)
    }
}

/// How much light a block lets through. Only `Opaque` hides the faces of its
/// neighbours.
#[derive(Clone, Copy, Debug, PartialEq, Eq, Structural)]
pub enum Opacity {
    /// Lets nothing through.
    Opaque,
    /// Lets light through; a larger level is more transparent.
    Transparent(u8),
}

impl Opacity {
    /// The opacity that a stored byte stands for: zero is opaque, any other
    /// value is that level of transparency.
    pub open spec fn of_byte(value: u8) -> Opacity {
        if value == 0 {
            Opacity::Opaque
        } else {
            Opacity::Transparent(value)
        }
    }

    /// Whether a face that looks at a block of this opacity is hidden.
    pub fn is_opaque(&self) -> (opaque: bool)
        ensures
            opaque == (*self == Opacity::Opaque),
    {
        match self {
            Opacity::Opaque => true,
            Opacity::Transparent(_) => false,
        }
    }
}

impl From<u8> for Opacity {
    fn from(value: u8) -> (opacity: Opacity) {
        match value {
            0 => Opacity::Opaque,
            v => Opacity::Transparent(v),
        }
    }
}

impl vstd::std_specs::convert::FromSpecImpl<u8> for Opacity {
    open spec fn obeys_from_spec() -> bool {
        true
    }

    open spec fn from_spec(value: u8) -> Opacity {
        Opacity::of_byte(value)
    }
}

/// The textures of a block's six faces, in one of four shapes.
#[derive(Clone, Copy, Debug)]
pub enum BlockTextures<T> {
    /// A texture of its own for every face.
    All { top: T, bottom: T, front: T, back: T, left: T, right: T },
    /// One for the top, one for the bottom, one for the four sides.
    TopBottomAndSide { top: T, bottom: T, side: T },
    /// One for top and bottom, one for the four sides.
    TopAndSide { top: T, side: T },
    /// One for all six faces.
    Single(T),
}

/// The named textures found in a stored block definition. A field that the
/// definition does not have is `None`.
#[derive(Clone, Debug)]
pub struct TextureFields<T> {
    pub top: Option<T>,
    pub bottom: Option<T>,
    pub front: Option<T>,
    pub back: Option<T>,
    pub left: Option<T>,
    pub right: Option<T>,
    pub side: Option<T>,
}

/// The stored form of a block's textures: one bare texture, or named fields.
#[derive(Clone, Debug)]
pub enum TextureSource<T> {
    Name(T),
    Fields(TextureFields<T>),
}

impl<T> TextureFields<T> {
    /// All six faces are named.
    pub open spec fn names_all(self) -> bool {
        &&& self.top.is_some()
        &&& self.bottom.is_some()
        &&& self.front.is_some()
        &&& self.back.is_some()
        &&& self.left.is_some()
        &&& self.right.is_some()
    }

    /// Top, bottom and side are named.
    pub open spec fn names_top_bottom_side(self) -> bool {
        &&& self.top.is_some()
        &&& self.bottom.is_some()
        &&& self.side.is_some()
    }

    /// Top and side are named.
    pub open spec fn names_top_side(self) -> bool {
        &&& self.top.is_some()
        &&& self.side.is_some()
    }
}

impl<T> BlockTextures<T> {
    /// The shape that a stored form has. The shapes are tried from the most
    /// specific to the least specific and the first that fits is taken: all
    /// six faces; top, bottom and side; top and side; a bare texture. Fields
    /// that the chosen shape does not use are ignored.
    pub open spec fn parsed(source: TextureSource<T>) -> Option<BlockTextures<T>> {
        match source {
            TextureSource::Name(v) => Some(BlockTextures::Single(v)),
            TextureSource::Fields(f) => if f.names_all() {
                Some(
                    BlockTextures::All {
                        top: f.top.unwrap(),
                        bottom: f.bottom.unwrap(),
                        front: f.front.unwrap(),
                        back: f.back.unwrap(),
                        left: f.left.unwrap(),
                        right: f.right.unwrap(),
                    },
                )
            } else if f.names_top_bottom_side() {
                Some(
                    BlockTextures::TopBottomAndSide {
                        top: f.top.unwrap(),
                        bottom: f.bottom.unwrap(),
                        side: f.side.unwrap(),
                    },
                )
            } else if f.names_top_side() {
                Some(BlockTextures::TopAndSide { top: f.top.unwrap(), side: f.side.unwrap() })
            } else {
                None
            },
        }
    }

    /// Chooses the shape of a stored form, or `None` if no shape fits.
    pub fn from_source(source: TextureSource<T>) -> (textures: Option<BlockTextures<T>>)
        ensures
            textures == BlockTextures::parsed(source),
    {
        match source {
            TextureSource::Name(v) => Some(BlockTextures::Single(v)),
            TextureSource::Fields(f) => {
                let TextureFields { top, bottom, front, back, left, right, side } = f;
                match (top, bottom, front, back, left, right, side) {
                    (
                        Some(top),
                        Some(bottom),
                        Some(front),
                        Some(back),
                        Some(left),
                        Some(right),
                        _,
                    ) => Some(BlockTextures::All { top, bottom, front, back, left, right }),
                    (Some(top), Some(bottom), _, _, _, _, Some(side)) => Some(
                        BlockTextures::TopBottomAndSide { top, bottom, side },
                    ),
                    (Some(top), _, _, _, _, _, Some(side)) => Some(
                        BlockTextures::TopAndSide { top, side },
                    ),
                    _ => None,
                }
            },
        }
    }

    /// Texture of the face that looks up.
    pub open spec fn top_of(self) -> T {
        match self {
            BlockTextures::All { top, .. } => top,
            BlockTextures::TopBottomAndSide { top, .. } => top,
            BlockTextures::TopAndSide { top, .. } => top,
            BlockTextures::Single(v) => v,
        }
    }

    /// Texture of the face that looks down.
    pub open spec fn bottom_of(self) -> T {
        match self {
            BlockTextures::All { bottom, .. } => bottom,
            BlockTextures::TopBottomAndSide { bottom, .. } => bottom,
            BlockTextures::TopAndSide { top, .. } => top,
            BlockTextures::Single(v) => v,
        }
    }

    /// Texture named for the front.
    pub open spec fn front_of(self) -> T {
        match self {
            BlockTextures::All { front, .. } => front,
            BlockTextures::TopBottomAndSide { side, .. } => side,
            BlockTextures::TopAndSide { side, .. } => side,
            BlockTextures::Single(v) => v,
        }
    }

    /// Texture named for the back.
    pub open spec fn back_of(self) -> T {
        match self {
            BlockTextures::All { back, .. } => back,
            BlockTextures::TopBottomAndSide { side, .. } => side,
            BlockTextures::TopAndSide { side, .. } => side,
            BlockTextures::Single(v) => v,
        }
    }

    /// Texture named for the left.
    pub open spec fn left_of(self) -> T {
        match self {
            BlockTextures::All { left, .. } => left,
            BlockTextures::TopBottomAndSide { side, .. } => side,
            BlockTextures::TopAndSide { side, .. } => side,
            BlockTextures::Single(v) => v,
        }
    }

    /// Texture named for the right.
    pub open spec fn right_of(self) -> T {
        match self {
            BlockTextures::All { right, .. } => right,
            BlockTextures::TopBottomAndSide { side, .. } => side,
            BlockTextures::TopAndSide { side, .. } => side,
            BlockTextures::Single(v) => v,
        }
    }

    /// Texture of the face that looks up.
    pub fn top(&self) -> (texture: &T)
        ensures
            *texture == self.top_of(),
    {
        match self {
            BlockTextures::All { top, .. } => top,
            BlockTextures::TopBottomAndSide { top, .. } => top,
            BlockTextures::TopAndSide { top, .. } => top,
            BlockTextures::Single(v) => v,
        }
    }

    /// Texture of the face that looks down.
    pub fn bottom(&self) -> (texture: &T)
        ensures
            *texture == self.bottom_of(),
    {
        match self {
            BlockTextures::All { bottom, .. } => bottom,
            BlockTextures::TopBottomAndSide { bottom, .. } => bottom,
            BlockTextures::TopAndSide { top, .. } => top,
            BlockTextures::Single(v) => v,
        }
    }

    /// Texture named for the front.
    pub fn front(&self) -> (texture: &T)
        ensures
            *texture == self.front_of(),
    {
        match self {
            BlockTextures::All { front, .. } => front,
            BlockTextures::TopBottomAndSide { side, .. } => side,
            BlockTextures::TopAndSide { side, .. } => side,
            BlockTextures::Single(v) => v,
        }
    }

    /// Texture named for the back.
    pub fn back(&self) -> (texture: &T)
        ensures
            *texture == self.back_of(),
    {
        match self {
            BlockTextures::All { back, .. } => back,
            BlockTextures::TopBottomAndSide { side, .. } => side,
            BlockTextures::TopAndSide { side, .. } => side,
            BlockTextures::Single(v) => v,
        }
    }

    /// Texture named for the left.
    pub fn left(&self) -> (texture: &T)
        ensures
            *texture == self.left_of(),
    {
        match self {
            BlockTextures::All { left, .. } => left,
            BlockTextures::TopBottomAndSide { side, .. } => side,
            BlockTextures::TopAndSide { side, .. } => side,
            BlockTextures::Single(v) => v,
        }
    }

    /// Texture named for the right.
    pub fn right(&self) -> (texture: &T)
        ensures
            *texture == self.right_of(),
    {
        match self {
            BlockTextures::All { right, .. } => right,
            BlockTextures::TopBottomAndSide { side, .. } => side,
            BlockTextures::TopAndSide { side, .. } => side,
            BlockTextures::Single(v) => v,
        }
    }

    /// Whether `other` has the shape of `self` and each of its textures is
    /// what `f` may return for the texture of `self` in the same place.
    pub open spec fn mapped_to<U, F: Fn(T) -> U>(self, f: F, other: BlockTextures<U>) -> bool {
        match (self, other) {
            (
                BlockTextures::All { top, bottom, front, back, left, right },
                BlockTextures::All {
                    top: top2,
                    bottom: bottom2,
                    front: front2,
                    back: back2,
                    left: left2,
                    right: right2,
                },
            ) => {
                &&& call_ensures(f, (top,), top2)
                &&& call_ensures(f, (bottom,), bottom2)
                &&& call_ensures(f, (front,), front2)
                &&& call_ensures(f, (back,), back2)
                &&& call_ensures(f, (left,), left2)
                &&& call_ensures(f, (right,), right2)
            },
            (
                BlockTextures::TopBottomAndSide { top, bottom, side },
                BlockTextures::TopBottomAndSide { top: top2, bottom: bottom2, side: side2 },
            ) => {
                &&& call_ensures(f, (top,), top2)
                &&& call_ensures(f, (bottom,), bottom2)
                &&& call_ensures(f, (side,), side2)
            },
            (
                BlockTextures::TopAndSide { top, side },
                BlockTextures::TopAndSide { top: top2, side: side2 },
            ) => {
                &&& call_ensures(f, (top,), top2)
                &&& call_ensures(f, (side,), side2)
            },
            (BlockTextures::Single(v), BlockTextures::Single(v2)) => call_ensures(f, (v,), v2),
            _ => false,
        }
    }

    /// Applies `f` to every texture and keeps the shape.
    pub fn map<F, U>(self, f: F) -> (mapped: BlockTextures<U>) where F: Fn(T) -> U
        requires
            forall|t: T| call_requires(f, (t,)),
        ensures
            self.mapped_to(f, mapped),
    {
        match self {
            BlockTextures::All { top, bottom, front, back, left, right } => BlockTextures::All {
                top: f(top),
                bottom: f(bottom),
                front: f(front),
                back: f(back),
                left: f(left),
                right: f(right),
            },
            BlockTextures::TopBottomAndSide { top, bottom, side } => {
                BlockTextures::TopBottomAndSide { top: f(top), bottom: f(bottom), side: f(side) }
            },
            BlockTextures::TopAndSide { top, side } => BlockTextures::TopAndSide {
                top: f(top),
                side: f(side),
            },
            BlockTextures::Single(v) => BlockTextures::Single(f(v)),
        }
    }
}

/// A texture's place in the atlas image: the pixel coordinates of two
/// opposite corners.
#[derive(Clone, Copy, Debug, PartialEq, Eq, Structural)]
pub struct AtlasRect {
    pub min_x: u32,
    pub min_y: u32,
    pub max_x: u32,
    pub max_y: u32,
}

/// Width and height of the atlas image in pixels.
#[derive(Clone, Copy, Debug, PartialEq, Eq, Structural)]
pub struct AtlasSize {
    pub width: u32,
    pub height: u32,
}

/// What meshing needs to know of a block: its opacity and where each of its
/// textures lies in the atlas.
#[derive(Clone, Copy, Debug)]
pub struct BlockMesh {
    pub opacity: Opacity,
    pub textures: BlockTextures<AtlasRect>,
}

/// A block definition with textures of type `T`.
#[derive(Clone, Debug)]
pub struct Block<T> {
    pub id: BlockId,
    pub name: String,
    pub textures: BlockTextures<T>,
    pub opacity: Opacity,
}

/// A block definition as it is stored: texture paths and an opacity byte.
#[derive(Clone, Debug)]
pub struct BlockJson {
    pub id: String,
    pub name: String,
    pub textures: BlockTextures<String>,
    pub opacity: u8,
}

impl BlockJson {
    /// Turns a stored definition into a block: the id and name are kept, the
    /// opacity byte is read as an opacity, and each texture path is replaced by
    /// what `load` returns for it.
    pub fn into_block<T, F>(self, load: F) -> (block: Block<T>) where F: Fn(String) -> T
        requires
            forall|path: String| call_requires(load, (path,)),
        ensures
            block.id@ == self.id@,
            block.name == self.name,
            block.opacity == Opacity::of_byte(self.opacity),
            self.textures.mapped_to(load, block.textures),
    {
        let BlockJson { id, name, textures, opacity } = self;
        let opacity = if opacity == 0 {
            Opacity::Opaque
        } else {
            Opacity::Transparent(opacity)
        };
        Block { id: BlockId(id), name, textures: textures.map(load), opacity }
    }
}

} // verus!
