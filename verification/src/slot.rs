//! A square of fixed size that shows a thumbnail, or an icon in its place.
use vstd::prelude::*;

verus! {

/// What a slot shows. Textures are known by a number.
#[derive(Debug)]
pub struct ThumbnailSlot {
    slot: i32,
    texture: Option<u64>,
    fallback: Option<u64>,
    fallback_icon: Option<String>,
}

/// A slot as a value.
pub ghost struct SlotView {
    pub size: i32,
    pub texture: Option<u64>,
    pub fallback: Option<u64>,
    pub fallback_icon: Option<Seq<char>>,
}

impl View for ThumbnailSlot {
    type V = SlotView;

    closed spec fn view(&self) -> SlotView {
        SlotView {
            size: self.slot,
            texture: self.texture,
            fallback: self.fallback,
            fallback_icon: match self.fallback_icon {
                Some(icon) => Some(icon@),
                None => None,
            },
        }
    }
}

/// A size of at least one.
pub open spec fn at_least_one(size: i32) -> i32 {
    if size < 1 {
        1
    } else {
        size
    }
}

/// Whether two slots' textures are the same one.
pub fn same_texture(left: Option<u64>, right: Option<u64>) -> (same: bool)
    ensures
        same == (left == right),
{
    match (left, right) {
        (None, None) => true,
        (Some(left), Some(right)) => left == right,
        _ => false,
    }
}

impl ThumbnailSlot {
    /// An empty slot.
    pub fn new(slot: i32) -> (made: Self)
        ensures
            made@ == (SlotView {
                size: at_least_one(slot),
                texture: None,
                fallback: None,
                fallback_icon: None,
            }),
    {
        ThumbnailSlot {
            slot: if slot < 1 {
                1
            } else {
                slot
            },
            texture: None,
            fallback: None,
            fallback_icon: None,
        }
    }

    pub fn slot_size(&self) -> (size: i32)
        ensures
            size == at_least_one(self@.size),
    {
        if self.slot < 1 {
            1
        } else {
            self.slot
        }
    }

    /// What the slot asks for in either direction: minimum and natural size, no baselines.
    pub fn measure(&self) -> (measure: (i32, i32, i32, i32))
        ensures
            measure == (at_least_one(self@.size), at_least_one(self@.size), -1i32, -1i32),
    {
        let size: i32 = self.slot_size();
        (size, size, -1, -1)
    }

    /// Changes the size; `true` if the slot has to be laid out again.
    pub fn set_slot(&mut self, size: i32) -> (resize: bool)
        ensures
            resize == (old(self)@.size != at_least_one(size)),
            final(self)@ == (SlotView { size: at_least_one(size), ..old(self)@ }),
    {
        let size: i32 = if size < 1 {
            1
        } else {
            size
        };
        if self.slot == size {
            return false;
        }
        self.slot = size;
        true
    }

    /// Shows a thumbnail; `true` if the slot has to be drawn again.
    pub fn set_texture(&mut self, texture: u64) -> (draw: bool)
        ensures
            draw == (old(self)@.texture != Some(texture)),
            final(self)@ == (SlotView { texture: Some(texture), ..old(self)@ }),
    {
        if same_texture(self.texture, Some(texture)) {
            return false;
        }
        self.texture = Some(texture);
        true
    }

    /// Shows an icon in place of a thumbnail; `true` if the slot has to be drawn again.
    pub fn set_fallback(&mut self, icon: &str, texture: Option<u64>) -> (draw: bool)
        ensures
            draw == !(old(self)@.texture is None && old(self)@.fallback_icon == Some(icon@)
                && old(self)@.fallback == texture),
            final(self)@ == (SlotView {
                texture: None,
                fallback_icon: Some(icon@),
                fallback: texture,
                ..old(self)@
            }),
    {
        let icon: String = icon.to_owned();
        let same_icon: bool = match &self.fallback_icon {
            Some(current) => *current == icon,
            None => false,
        };
        if self.texture.is_none() && same_icon && same_texture(self.fallback, texture) {
            return false;
        }
        self.texture = None;
        self.fallback_icon = Some(icon);
        self.fallback = texture;
        true
    }

    /// The thumbnail.
    pub fn texture(&self) -> (texture: Option<u64>)
        ensures
            texture == self@.texture,
    {
        self.texture
    }

    /// What is drawn in a slot of this size: the thumbnail, or else the icon; nothing where
    /// there is no room.
    pub fn drawn(&self, width: i32, height: i32) -> (texture: Option<u64>)
        ensures
            texture == if width <= 0 || height <= 0 {
                None
            } else if self@.texture is Some {
                self@.texture
            } else {
                self@.fallback
            },
    {
        if width <= 0 || height <= 0 {
            None
        } else if self.texture.is_some() {
            self.texture
        } else {
            self.fallback
        }
    }
}

/// A slot has the size it is given, and is never smaller than one pixel.
pub proof fn slots_have_a_size(size: i32)
    ensures
        at_least_one(size) == vstd::math::max(size as int, 1),
{
}

} // verus!
