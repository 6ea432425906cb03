//! Where things are in the game's shop window.
//!
//! The shop is a fixed grid, so every position follows from the window's size.
//! All values are thousandths of the client area.

use vstd::prelude::*;
use vstd::string::*;

verus! {

/// A rectangle as its left edge, top edge, width and height, in thousandths of
/// the window.
pub type RectRatio = [u32; 4];

/// The Refresh button, bottom left.
pub const REFRESH: RectRatio = [50, 880, 220, 100];

/// The confirm pill of the refresh dialog.
pub const REFRESH_CONFIRM: RectRatio = [529, 621, 121, 57];

/// The cancel pill of the refresh dialog: where to click when a confirm missed
/// and the dialog stays up.
pub const REFRESH_CANCEL: RectRatio = [350, 621, 121, 57];

/// The buy pill of the purchase dialog.
pub const BUY_CONFIRM: RectRatio = [488, 686, 198, 59];

/// The cancel pill of the purchase dialog.
pub const BUY_CANCEL: RectRatio = [310, 686, 130, 59];

/// The item's icon in the purchase dialog.
pub const BUY_MODAL_ICON: RectRatio = [245, 420, 80, 145];

/// Left edge of the column of buy buttons.
pub const BUY_COLUMN_X: u32 = 830;

/// Width of the column of buy buttons.
pub const BUY_COLUMN_W: u32 = 142;

/// The column of items.
pub const SHOP_GRID: RectRatio = [425, 85, 90, 915];

/// How much higher an item's icon sits than its buy button.
pub const ROW_ICON_Y_OFFSET: u32 = 23;

/// Left edge of the column of item icons.
pub const ICON_COLUMN_X: u32 = 405;

/// Width of the column of item icons.
pub const ICON_COLUMN_W: u32 = 130;

/// Whether a place is looked at or clicked.
#[derive(Debug, Clone, Copy, PartialEq, Eq, Structural)]
pub enum OverlayKind {
    Search,
    Click,
}

/// A rectangle with some extent, inside the window.
pub open spec fn is_valid(rect: Seq<u32>) -> bool {
    &&& rect.len() == 4
    &&& rect[2] > 0 && rect[0] + rect[2] <= 1000
    &&& rect[3] > 0 && rect[1] + rect[3] <= 1000
}

/// The strip of buy buttons: their column, over the items' vertical range.
pub fn buy_column_overlay_rect() -> (rect: RectRatio)
    ensures
        rect@ == seq![BUY_COLUMN_X, SHOP_GRID@[1], BUY_COLUMN_W, SHOP_GRID@[3]],
{
    let rect: [u32; 4] = [BUY_COLUMN_X, SHOP_GRID[1], BUY_COLUMN_W, SHOP_GRID[3]];
    assert(rect@ =~= seq![BUY_COLUMN_X, SHOP_GRID@[1], BUY_COLUMN_W, SHOP_GRID@[3]]);
    rect
}

/// A place, by its label, its rectangle and its use.
pub struct Labelled {
    pub label: Seq<char>,
    pub rect: Seq<u32>,
    pub kind: OverlayKind,
}

/// Every place that is looked at or clicked.
pub open spec fn places() -> Seq<Labelled> {
    seq![
        Labelled { label: "shop_grid"@, rect: SHOP_GRID@, kind: OverlayKind::Search },
        Labelled { label: "refresh"@, rect: REFRESH@, kind: OverlayKind::Click },
        Labelled { label: "refresh_confirm"@, rect: REFRESH_CONFIRM@, kind: OverlayKind::Click },
        Labelled { label: "buy_confirm"@, rect: BUY_CONFIRM@, kind: OverlayKind::Click },
        Labelled { label: "refresh_cancel"@, rect: REFRESH_CANCEL@, kind: OverlayKind::Click },
        Labelled { label: "buy_cancel"@, rect: BUY_CANCEL@, kind: OverlayKind::Click },
        Labelled { label: "buy_modal_icon"@, rect: BUY_MODAL_ICON@, kind: OverlayKind::Search },
        Labelled {
            label: "buy_column"@,
            rect: seq![BUY_COLUMN_X, SHOP_GRID@[1], BUY_COLUMN_W, SHOP_GRID@[3]],
            kind: OverlayKind::Click,
        },
    ]
}

/// An overlay entry by its label, its rectangle and its use.
pub open spec fn labelled(entry: (String, RectRatio, OverlayKind)) -> Labelled {
    Labelled { label: entry.0@, rect: entry.1@, kind: entry.2 }
}

/// Every place, with its label and its use, for the debug overlay.
pub fn overlay_rects() -> (rects: Vec<(String, RectRatio, OverlayKind)>)
    ensures
        rects@.map_values(|entry: (String, RectRatio, OverlayKind)| labelled(entry)) == places(),
{
    let mut rects: Vec<(String, RectRatio, OverlayKind)> = Vec::new();
    rects.push(("shop_grid".to_owned(), SHOP_GRID, OverlayKind::Search));
    rects.push(("refresh".to_owned(), REFRESH, OverlayKind::Click));
    rects.push(("refresh_confirm".to_owned(), REFRESH_CONFIRM, OverlayKind::Click));
    rects.push(("buy_confirm".to_owned(), BUY_CONFIRM, OverlayKind::Click));
    rects.push(("refresh_cancel".to_owned(), REFRESH_CANCEL, OverlayKind::Click));
    rects.push(("buy_cancel".to_owned(), BUY_CANCEL, OverlayKind::Click));
    rects.push(("buy_modal_icon".to_owned(), BUY_MODAL_ICON, OverlayKind::Search));
    rects.push(("buy_column".to_owned(), buy_column_overlay_rect(), OverlayKind::Click));
    assert(rects@.map_values(|entry: (String, RectRatio, OverlayKind)| labelled(entry))
        =~= places());
    rects
}

/// Every place lies inside the window and has some extent.
pub proof fn every_place_is_in_the_window()
    ensures
        forall|i: int| 0 <= i < places().len() ==> is_valid(#[trigger] places()[i].rect),
{
}

/// The strip of buy buttons spans exactly the items' vertical range.
pub proof fn the_buy_column_aligns_with_the_items()
    ensures
        places().last().label == "buy_column"@,
        places().last().rect[1] == SHOP_GRID@[1],
        places().last().rect[3] == SHOP_GRID@[3],
{
}

} // verus!
