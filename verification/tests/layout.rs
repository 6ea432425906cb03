//! Where things are in the shop window.

use arkyve_refresh_shop::layout::{
    buy_column_overlay_rect, overlay_rects, OverlayKind, RectRatio, BUY_CANCEL, BUY_CONFIRM,
    BUY_MODAL_ICON, ICON_COLUMN_W, ICON_COLUMN_X, REFRESH, REFRESH_CANCEL, REFRESH_CONFIRM,
    ROW_ICON_Y_OFFSET, SHOP_GRID,
};

fn ratio(thousandths: u32) -> f32 {
    thousandths as f32 / 1000.0
}

fn rect_in_unit_square(r: RectRatio) {
    let [x, y, w, h] = r.map(ratio);
    assert!((0.0..=1.0).contains(&x), "x out of range: {x}");
    assert!((0.0..=1.0).contains(&y), "y out of range: {y}");
    assert!(w > 0.0 && x + w <= 1.0 + 0.01, "w out of range: {w}");
    assert!(h > 0.0 && y + h <= 1.0 + 0.01, "h out of range: {h}");
}

#[test]
fn all_constants_are_valid_rects() {
    rect_in_unit_square(REFRESH);
    rect_in_unit_square(REFRESH_CONFIRM);
    rect_in_unit_square(REFRESH_CANCEL);
    rect_in_unit_square(BUY_CONFIRM);
    rect_in_unit_square(BUY_CANCEL);
    rect_in_unit_square(BUY_MODAL_ICON);
    rect_in_unit_square(SHOP_GRID);
    rect_in_unit_square(buy_column_overlay_rect());
}

#[test]
fn buy_column_strip_aligns_with_shop_grid_y_range() {
    let overlays = overlay_rects();
    let buy = overlays
        .iter()
        .find(|(n, _, _)| n == "buy_column")
        .expect("buy_column overlay exists");
    assert_eq!(buy.1[1], SHOP_GRID[1]);
    assert_eq!(buy.1[3], SHOP_GRID[3]);
}

#[test]
fn the_places_are_where_they_were_measured() {
    assert_eq!(REFRESH.map(ratio), [0.05, 0.88, 0.22, 0.10]);
    assert_eq!(REFRESH_CONFIRM.map(ratio), [0.529, 0.621, 0.121, 0.057]);
    assert_eq!(SHOP_GRID.map(ratio), [0.425, 0.085, 0.09, 0.915]);
    assert_eq!(ratio(ICON_COLUMN_X), 0.405);
    assert_eq!(ratio(ICON_COLUMN_W), 0.13);
    assert_eq!(ratio(ROW_ICON_Y_OFFSET), 0.023);
    let searched: Vec<String> = overlay_rects()
        .into_iter()
        .filter(|(_, _, kind)| *kind == OverlayKind::Search)
        .map(|(name, _, _)| name)
        .collect();
    assert_eq!(searched, ["shop_grid", "buy_modal_icon"]);
}
