use sh1106::buffer::{ActiveArea, PackedBuffer, Rect};

fn pixels(buf: &PackedBuffer, w: u32, h: u32) -> Vec<bool> {
    let mut v = Vec::new();
    for y in 0..h {
        for x in 0..w {
            v.push(buf.get_pixel(x, y).unwrap());
        }
    }
    v
}

#[test]
fn set_pixel_roundtrip() {
    let mut buf = PackedBuffer::new(128, 64);
    assert_eq!(buf.get_pixel(5, 13), Some(false));
    buf.set_pixel(5, 13, true);
    assert_eq!(buf.get_pixel(5, 13), Some(true));
    // neighbours within the same byte stay untouched
    assert_eq!(buf.get_pixel(5, 12), Some(false));
    assert_eq!(buf.get_pixel(5, 14), Some(false));
    assert_eq!(buf.get_pixel(4, 13), Some(false));
    assert_eq!(buf.get_pixel(6, 13), Some(false));
    buf.set_pixel(5, 13, false);
    assert_eq!(buf.get_pixel(5, 13), Some(false));
}

#[test]
fn set_pixel_out_of_bounds_is_noop() {
    let mut buf = PackedBuffer::new(128, 64);
    buf.set_pixel(128, 0, true);
    buf.set_pixel(0, 64, true);
    buf.set_pixel(4000, 4000, true);
    assert_eq!(buf.active_area(), None);
    assert_eq!(buf.get_pixel(128, 0), None);
    assert_eq!(buf.get_pixel(0, 64), None);
}

#[test]
fn fill_solid_matches_individual_set_pixel() {
    let rect = Rect { x: 2, y: 3, width: 10, height: 21 };

    let mut filled = PackedBuffer::new(64, 32);
    filled.fill_solid(rect, true);

    let mut pointwise = PackedBuffer::new(64, 32);
    for y in rect.y..rect.y + rect.height {
        for x in rect.x..rect.x + rect.width {
            pointwise.set_pixel(x, y, true);
        }
    }

    assert_eq!(pixels(&filled, 64, 32), pixels(&pointwise, 64, 32));
    assert_eq!(filled.active_area(), pointwise.active_area());
}

#[test]
fn fill_solid_clips_to_panel() {
    let mut buf = PackedBuffer::new(16, 16);
    buf.fill_solid(Rect { x: 10, y: 10, width: 100, height: 100 }, true);
    for y in 0..16 {
        for x in 0..16 {
            assert_eq!(buf.get_pixel(x, y), Some(x >= 10 && y >= 10));
        }
    }
}

#[test]
fn fill_contiguous_row_major_stops_at_colors_end() {
    let mut buf = PackedBuffer::new(16, 16);
    // five colors into a 3-wide rectangle: one full row and two pixels more
    let colors = [true, false, true, true, true];
    buf.fill_contiguous(Rect { x: 0, y: 0, width: 3, height: 4 }, &colors);
    assert_eq!(buf.get_pixel(0, 0), Some(true));
    assert_eq!(buf.get_pixel(1, 0), Some(false));
    assert_eq!(buf.get_pixel(2, 0), Some(true));
    assert_eq!(buf.get_pixel(0, 1), Some(true));
    assert_eq!(buf.get_pixel(1, 1), Some(true));
    assert_eq!(buf.get_pixel(2, 1), Some(false));
    assert_eq!(buf.get_pixel(0, 2), Some(false));
}

#[test]
fn active_area_empty_after_clear() {
    let mut buf = PackedBuffer::new(128, 64);
    buf.set_pixel(10, 20, true);
    assert!(buf.active_area().is_some());
    buf.clear();
    assert_eq!(buf.active_area(), None);
    assert_eq!(buf.get_pixel(10, 20), Some(false));
}

#[test]
fn active_area_single_pixel() {
    let mut buf = PackedBuffer::new(128, 64);
    buf.set_pixel(3, 4, true);
    assert_eq!(
        buf.active_area(),
        Some(ActiveArea { min_x: 3, min_y: 4, max_x: 3, max_y: 4 })
    );
}

#[test]
fn active_area_bounding_rectangle() {
    let mut buf = PackedBuffer::new(128, 64);
    buf.set_pixel(0, 0, true);
    buf.set_pixel(10, 20, true);
    assert_eq!(
        buf.active_area(),
        Some(ActiveArea { min_x: 0, min_y: 0, max_x: 10, max_y: 20 })
    );
}

#[test]
fn active_area_tracks_touches_even_when_clearing_pixels() {
    let mut buf = PackedBuffer::new(128, 64);
    buf.set_pixel(7, 9, false);
    assert_eq!(
        buf.active_area(),
        Some(ActiveArea { min_x: 7, min_y: 9, max_x: 7, max_y: 9 })
    );
}

#[test]
fn active_blocks_cover_touched_pages() {
    let mut buf = PackedBuffer::new(128, 64);
    buf.set_pixel(2, 6, true);
    buf.set_pixel(5, 9, true);
    // rows 6..=9 touch pages 0 and 1, columns 2..=5
    let blocks = buf.active_blocks();
    assert_eq!(blocks.len(), 2);
    assert_eq!(blocks[0].len(), 4);
    assert_eq!(blocks[1].len(), 4);
    // page 0, column 2: bit 6 set
    assert_eq!(blocks[0][0], 1 << 6);
    // page 1, column 5: bit 1 set (row 9)
    assert_eq!(blocks[1][3], 1 << 1);
    assert_eq!(blocks[0][1], 0);
}

#[test]
fn active_blocks_empty_when_untouched() {
    let buf = PackedBuffer::new(128, 64);
    assert_eq!(buf.active_blocks().len(), 0);
}

#[test]
fn page_block_reads_packed_bytes() {
    let mut buf = PackedBuffer::new(128, 64);
    buf.set_pixel(0, 0, true);
    buf.set_pixel(0, 7, true);
    let block = buf.page_block(0, 0, 0);
    assert_eq!(block, vec![0x81]);
}
