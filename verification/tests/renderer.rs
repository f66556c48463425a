use notch::renderer::{frame_layout, scale, write_canvas, FrameLayout, Rgba8};

#[test]
fn write_canvas_orders_bgra_and_scales() {
    let pixels = [
        Rgba8 { red: 10, green: 20, blue: 30, alpha: 255 },
        Rgba8 { red: 200, green: 100, blue: 50, alpha: 128 },
        Rgba8 { red: 9, green: 9, blue: 9, alpha: 0 },
    ];
    let mut canvas = [0xaau8; 14];
    write_canvas(&pixels, &mut canvas);
    assert_eq!(&canvas[0..4], &[30, 20, 10, 255]);
    assert_eq!(&canvas[4..8], &[25, 50, 100, 128]);
    assert_eq!(&canvas[8..12], &[0, 0, 0, 0]);
    assert_eq!(&canvas[12..14], &[0xaa, 0xaa]);
}

#[test]
fn scale_stays_below_alpha() {
    for c in [0u8, 1, 77, 128, 254, 255] {
        for a in [0u8, 1, 64, 200, 255] {
            let s = scale(c, a);
            assert!(s <= a);
            assert_eq!(s as u32, c as u32 * a as u32 / 255);
        }
        assert_eq!(scale(c, 255), c);
        assert_eq!(scale(c, 0), 0);
    }
}

#[test]
fn frame_layout_of_compact_notch() {
    assert_eq!(
        frame_layout(280, 44),
        FrameLayout { width: 280, height: 44, stride: 1120, pixel_count: 12320 }
    );
    assert_eq!(
        frame_layout(0, 7),
        FrameLayout { width: 0, height: 7, stride: 0, pixel_count: 0 }
    );
}
