//! Sizes of the cards in the icon view.
use vstd::prelude::*;

verus! {

pub const MIN_ICONS_THUMBNAIL_SIZE: i32 = 64;

pub const MAX_ICONS_THUMBNAIL_SIZE: i32 = 256;

/// Width of a column where nothing else sets it.
pub const FALLBACK_ICONS_COLUMN_WIDTH: i32 = 160;

/// Space between two cards.
pub const ICONS_CARD_SPACING: i32 = 4;

/// Characters in a line of a card's label.
pub const ICONS_CARD_LABEL_CHARS: i32 = 16;

/// Lines of a card's label.
pub const ICONS_CARD_LABEL_LINES: i32 = 2;

/// Height of a line of a card's label.
pub const ICONS_CARD_LABEL_LINE_PX: i32 = 18;

/// Vertical padding of a card.
pub const ICONS_CARD_PAD_Y: i32 = 4;

/// Space between the icon of a card and its label.
pub const ICONS_CARD_GAP: i32 = 3;

/// A thumbnail size within its bounds.
pub open spec fn icon_slot(size: int) -> int {
    if size < MIN_ICONS_THUMBNAIL_SIZE {
        MIN_ICONS_THUMBNAIL_SIZE as int
    } else if size > MAX_ICONS_THUMBNAIL_SIZE {
        MAX_ICONS_THUMBNAIL_SIZE as int
    } else {
        size
    }
}

/// Brings a thumbnail size within its bounds.
pub fn icons_card_icon_slot(thumbnail_size: i32) -> (slot: i32)
    ensures
        slot == icon_slot(thumbnail_size as int),
{
    if thumbnail_size < MIN_ICONS_THUMBNAIL_SIZE {
        MIN_ICONS_THUMBNAIL_SIZE
    } else if thumbnail_size > MAX_ICONS_THUMBNAIL_SIZE {
        MAX_ICONS_THUMBNAIL_SIZE
    } else {
        thumbnail_size
    }
}

/// Height of a card's label.
pub fn label_height() -> (height: i32)
    ensures
        height == ICONS_CARD_LABEL_LINE_PX * ICONS_CARD_LABEL_LINES,
{
    ICONS_CARD_LABEL_LINE_PX * ICONS_CARD_LABEL_LINES
}

/// Width and height of a card: as wide as its icon or a column without its spacing, as
/// high as its icon and its label.
pub fn icons_card_extent(thumbnail_size: i32) -> (extent: (i32, i32))
    ensures
        extent.0 == if icon_slot(thumbnail_size as int) > FALLBACK_ICONS_COLUMN_WIDTH
            - ICONS_CARD_SPACING {
            icon_slot(thumbnail_size as int)
        } else {
            FALLBACK_ICONS_COLUMN_WIDTH - ICONS_CARD_SPACING
        },
        extent.1 == icon_slot(thumbnail_size as int) + ICONS_CARD_LABEL_LINE_PX
            * ICONS_CARD_LABEL_LINES + ICONS_CARD_PAD_Y + ICONS_CARD_GAP,
{
    let slot: i32 = icons_card_icon_slot(thumbnail_size);
    let column: i32 = FALLBACK_ICONS_COLUMN_WIDTH - ICONS_CARD_SPACING;
    let width: i32 = if slot > column {
        slot
    } else {
        column
    };
    (width, slot + label_height() + ICONS_CARD_PAD_Y + ICONS_CARD_GAP)
}

/// What setting the size of a card changes: the size to ask for, if it differs from what
/// is asked for now, and the size of its icon.
pub fn set_slot(current: (i32, i32), thumbnail_size: i32) -> (change: (Option<(i32, i32)>, i32))
    ensures
        change.1 == icon_slot(thumbnail_size as int),
        ({
            let width = if change.1 > FALLBACK_ICONS_COLUMN_WIDTH - ICONS_CARD_SPACING {
                change.1 as int
            } else {
                FALLBACK_ICONS_COLUMN_WIDTH - ICONS_CARD_SPACING
            };
            let height = change.1 + ICONS_CARD_LABEL_LINE_PX * ICONS_CARD_LABEL_LINES
                + ICONS_CARD_PAD_Y + ICONS_CARD_GAP;
            match change.0 {
                Some(extent) => extent.0 == width && extent.1 == height && extent != current,
                None => current.0 == width && current.1 == height,
            }
        }),
{
    let slot: i32 = icons_card_icon_slot(thumbnail_size);
    let (width, height) = icons_card_extent(slot);
    if current.0 != width || current.1 != height {
        (Some((width, height)), slot)
    } else {
        (None, slot)
    }
}

/// A thumbnail size stays as it is between 64 and 256 pixels, and else becomes the nearer of the
/// two.
pub proof fn icon_sizes_are_kept_within_bounds(size: int)
    ensures
        64 <= icon_slot(size) <= 256,
        64 <= size <= 256 ==> icon_slot(size) == size,
        size < 64 ==> icon_slot(size) == 64,
        size > 256 ==> icon_slot(size) == 256,
{
}

/// The sizes that cards go by.
pub proof fn card_sizes()
    ensures
        FALLBACK_ICONS_COLUMN_WIDTH == 160,
        ICONS_CARD_SPACING == 4,
        ICONS_CARD_LABEL_CHARS == 16,
        ICONS_CARD_LABEL_LINES == 2,
        ICONS_CARD_LABEL_LINE_PX == 18,
        ICONS_CARD_PAD_Y == 4,
        ICONS_CARD_GAP == 3,
{
}

} // verus!
