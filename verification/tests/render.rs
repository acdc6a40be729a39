use swype_kbd::render::{Canvas, Color};

#[test]
fn fill_rect_clips_and_writes_bgra() {
    let mut buf = vec![0u8; 4 * 4 * 4]; // 4x4 px
    {
        let mut cv = Canvas::new(&mut buf, 4, 4);
        cv.fill_rect(-1, -1, 3, 3, Color::rgb(0x12, 0x34, 0x56));
    }
    assert_eq!(&buf[0..4], &[0x56, 0x34, 0x12, 0xFF]);
    let i = (1 * 4 + 1) * 4;
    assert_eq!(&buf[i..i + 4], &[0x56, 0x34, 0x12, 0xFF]);
    let i = (2 * 4 + 2) * 4;
    assert_eq!(&buf[i..i + 4], &[0, 0, 0, 0]);
}

#[test]
fn rgb_packs_argb_and_parts_unpacks_it() {
    let c = Color::rgb(0x12, 0x34, 0x56);
    assert_eq!(c.0, 0xFF12_3456);
    assert_eq!(c.parts(), (0xFF, 0x12, 0x34, 0x56));
    assert_eq!(Color(0x8001_0203).parts(), (0x80, 0x01, 0x02, 0x03));
}

#[test]
fn clear_fills_every_whole_pixel() {
    let mut buf = vec![7u8; 2 * 2 * 4 + 3];
    {
        let mut cv = Canvas::new(&mut buf, 2, 2);
        assert_eq!((cv.width(), cv.height()), (2, 2));
        cv.clear(Color(0x11223344));
    }
    for px in buf[..16].chunks(4) {
        assert_eq!(px, &[0x44, 0x33, 0x22, 0x11]);
    }
    // the trailing partial pixel is untouched
    assert_eq!(&buf[16..], &[7, 7, 7]);
}

#[test]
fn fill_rect_off_canvas_or_empty_writes_nothing() {
    let mut buf = vec![0u8; 3 * 3 * 4];
    {
        let mut cv = Canvas::new(&mut buf, 3, 3);
        cv.fill_rect(5, 0, 2, 2, Color::rgb(1, 2, 3));
        cv.fill_rect(0, 0, 0, 3, Color::rgb(1, 2, 3));
        cv.fill_rect(1, 1, -4, 2, Color::rgb(1, 2, 3));
    }
    assert!(buf.iter().all(|b| *b == 0));
}

#[test]
fn fill_rect_interior_only() {
    let mut buf = vec![0u8; 4 * 3 * 4];
    {
        let mut cv = Canvas::new(&mut buf, 4, 3);
        cv.fill_rect(1, 1, 2, 5, Color::rgb(9, 8, 7));
    }
    for y in 0..3 {
        for x in 0..4 {
            let i = (y * 4 + x) * 4;
            let inside = (1..3).contains(&x) && y >= 1;
            let want: [u8; 4] = if inside { [7, 8, 9, 0xFF] } else { [0; 4] };
            assert_eq!(&buf[i..i + 4], &want, "pixel {x},{y}");
        }
    }
}

#[test]
fn set_pixel_is_clipped_and_opaque() {
    let mut buf = vec![0u8; 2 * 2 * 4];
    {
        let mut cv = Canvas::new(&mut buf, 2, 2);
        cv.set_pixel(1, 0, 10, 20, 30);
        cv.set_pixel(2, 0, 99, 99, 99);
        cv.set_pixel(-1, 1, 99, 99, 99);
        assert_eq!(cv.pixel(1, 0), Some((10, 20, 30)));
        assert_eq!(cv.pixel(0, 2), None);
    }
    assert_eq!(&buf[4..8], &[10, 20, 30, 0xFF]);
    assert_eq!(buf.iter().filter(|b| **b != 0).count(), 4);
}
