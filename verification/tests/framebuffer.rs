//! The packed framebuffer and its page-addressed transfer protocol.

use oled::display::Display;

#[test]
fn set_and_clear_restore_the_original_byte() {
    let mut d = Display::new();
    let x: u8 = 37;
    let y: u8 = 21;
    let index = x as usize + (y as usize / 8) * 128;
    let before = d.buffer[index];
    assert_eq!(before, 0x00);
    d.draw_pixel(x, y, true);
    assert_ne!(d.buffer[index], before);
    d.draw_pixel(x, y, false);
    assert_eq!(d.buffer[index], before);
}

#[test]
fn draw_pixel_touches_only_its_byte() {
    let mut d = Display::new();
    d.draw_pixel(5, 10, true);
    let index = 5 + (10 / 8) * 128;
    for k in 0..1024 {
        if k == index {
            assert_eq!(d.buffer[k], 1 << (10 % 8));
        } else {
            assert_eq!(d.buffer[k], 0x00);
        }
    }
}

#[test]
fn fill_sets_every_byte() {
    let mut d = Display::new();
    d.fill(true);
    assert!(d.buffer.iter().all(|&b| b == 0xFF));
    d.fill(false);
    assert!(d.buffer.iter().all(|&b| b == 0x00));
}

#[test]
fn rect_covers_exactly_its_cells() {
    let mut d = Display::new();
    d.draw_rect(10, 16, 4, 8, true);
    // the rectangle spans one whole page vertically: bytes 10..14 of page 2
    for x in 0..128 {
        let b = d.buffer[x + 2 * 128];
        if (10..14).contains(&x) {
            assert_eq!(b, 0xFF);
        } else {
            assert_eq!(b, 0x00);
        }
    }
    for p in [0usize, 1, 3, 4, 5, 6, 7] {
        for x in 0..128 {
            assert_eq!(d.buffer[x + p * 128], 0x00);
        }
    }
}

#[test]
fn render_lays_out_eight_pages_with_commands_and_data() {
    let mut d = Display::new();
    d.draw_pixel(0, 0, true);
    d.draw_pixel(127, 63, true);
    let plan = d.render();
    assert_eq!(plan.len(), 8);
    for (p, page) in plan.iter().enumerate() {
        assert_eq!(page.page_select, 0xB0 + p as u8);
        assert_eq!(page.column_low, 0x02);
        assert_eq!(page.column_high, 0x10);
        assert_eq!(page.data.len(), 128);
        assert_eq!(page.data[..], d.buffer[p * 128..(p + 1) * 128]);
    }
    assert_eq!(plan[0].data[0], 0x01);
    assert_eq!(plan[7].data[127], 0x80);
}

#[test]
fn init_sequence_is_the_fixed_one() {
    let cmds = Display::init_commands();
    assert_eq!(cmds.len(), 24);
    assert_eq!(cmds[0], 0xAE);
    assert_eq!(cmds[23], 0xA6);
    assert_eq!(Display::display_on_command(), 0xAF);
}

#[test]
fn geometry_is_fixed() {
    let d = Display::new();
    assert_eq!(d.width(), 128);
    assert_eq!(d.height(), 64);
    assert_eq!(d.buffer.len(), 1024);
}
