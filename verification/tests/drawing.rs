//! Drawing, and the boot display.
use nexus_kernel::display;
use nexus_kernel::display::status::{status_rows, Figure, Figures, TimerSource, Value};
use nexus_kernel::display::{
    geometry, init, is_available, locale_changed, panel_layout, refresh_status, repaint,
    start_thread, surface, take_damage, unclaimed_region, Chrome, StatusLine,
};
use nexus_kernel::framebuffer;
use nexus_kernel::framebuffer::font::{measure, Glyph, Text};
use nexus_kernel::framebuffer::{Color, Framebuffer, FramebufferInfo, Gradient, PixelFormat};

fn info(width: u32, height: u32, format: PixelFormat) -> FramebufferInfo {
    FramebufferInfo {
        valid: true,
        phys_addr: 0x8000_0000,
        width,
        height,
        stride: width + 2,
        bytes_per_pixel: 4,
        format,
    }
}

fn canvas(width: u32, height: u32) -> Framebuffer {
    Framebuffer::new(&info(width, height, PixelFormat::Bgrx8888)).unwrap()
}

fn corner() -> Glyph {
    // Three columns and two rows, with ink in the first of each and one faint.
    Glyph { advance: 3, rows: vec![vec![255, 0, 127], vec![128, 0, 0]] }
}

fn line(glyphs: usize) -> Text {
    Text { cell_height: 2, glyphs: (0..glyphs).map(|_| corner()).collect() }
}

#[test]
fn channels_round_trip() {
    let color = Color::rgb(0x12, 0x34, 0x56);
    assert_eq!(color, Color(0x0012_3456));
    assert_eq!((color.red(), color.green(), color.blue()), (0x12, 0x34, 0x56));
}

#[test]
fn blending_ends_where_it_should() {
    let black = Color(0);
    let white = Color(0x00FF_FFFF);
    assert_eq!(black.blend(white, 0), black);
    assert_eq!(black.blend(white, 255), white);
    assert_eq!(black.blend(white, 128), Color(0x0080_8080));
}

#[test]
fn channel_order_is_the_formats() {
    let other = Framebuffer::new(&info(4, 4, PixelFormat::Rgbx8888)).unwrap();
    assert_eq!(canvas(4, 4).encode(Color(0x0012_3456)), 0x0012_3456);
    assert_eq!(other.encode(Color(0x0012_3456)), 0x0056_3412);
    assert!(Framebuffer::new(&info(4, 4, PixelFormat::Unknown)).is_none());
    let mut invalid = info(4, 4, PixelFormat::Bgrx8888);
    invalid.valid = false;
    assert!(Framebuffer::new(&invalid).is_none());
}

#[test]
fn a_rectangle_is_clipped_and_covers_what_changed() {
    let mut buffer = canvas(10, 8);
    assert!(buffer.take_damage().is_none());
    buffer.fill_rect(8, 6, 100, 100, Color(0x0000_00FF));
    assert_eq!(buffer.pixel(9, 7), 0xFF);
    assert_eq!(buffer.pixel(7, 7), 0);
    let damage = buffer.take_damage().unwrap();
    assert_eq!((damage.left, damage.top, damage.right, damage.bottom), (8, 6, 10, 8));
    buffer.fill_rect(20, 20, 5, 5, Color(1));
    assert!(buffer.take_damage().is_none());
    buffer.put_pixel(1, 1, Color(2));
    buffer.put_pixel(3, 2, Color(2));
    buffer.put_pixel(30, 2, Color(2));
    let damage = buffer.take_damage().unwrap();
    assert_eq!((damage.left, damage.top, damage.right, damage.bottom), (1, 1, 4, 3));
    assert_eq!(buffer.offset(3, 2), (2 * 12 + 3) * 4);
    buffer.clear(Color(7));
    assert_eq!(buffer.pixel(0, 0), 7);
    assert_eq!((buffer.width(), buffer.height()), (10, 8));
}

#[test]
fn only_lit_pixels_of_a_glyph_are_drawn() {
    let mut buffer = canvas(20, 10);
    let advance = buffer.draw_glyph(2, 3, &corner(), 2, Color(9), 2);
    assert_eq!(advance, 6);
    // Two by two for each lit cell.
    for (x, y) in [(2, 3), (3, 4), (2, 5), (3, 6)] {
        assert_eq!(buffer.pixel(x, y), 9);
    }
    // The faint one is not, and neither is what has no ink.
    for (x, y) in [(4, 3), (6, 3), (7, 4), (4, 5)] {
        assert_eq!(buffer.pixel(x, y), 0);
    }
}

#[test]
fn text_goes_on_and_is_measured() {
    let mut buffer = canvas(40, 10);
    assert_eq!(measure(&line(3)), 9);
    assert_eq!(Framebuffer::text_width(&line(3), 2), 18);
    assert_eq!(Framebuffer::line_height(2, 3), 6);
    assert_eq!(buffer.draw_text(1, 1, &line(2), Color(9), 1), 7);
    assert_eq!(buffer.pixel(1, 1), 9);
    assert_eq!(buffer.pixel(4, 1), 9);
    assert_eq!(buffer.pixel(7, 1), 0);
    buffer.draw_text_centered(5, &line(2), Color(8), 1);
    assert_eq!(buffer.pixel(17, 5), 8);
    assert_eq!(buffer.pixel(16, 5), 0);
}

#[test]
fn strips_of_a_gradient_match_the_whole() {
    let gradient =
        Gradient { top: Color(0x0010_2030), bottom: Color(0x00F0_E0D0), surface_height: 16 };
    let mut whole = canvas(8, 16);
    whole.vertical_gradient(gradient.top, gradient.bottom);
    let mut strip = canvas(8, 16);
    strip.vertical_gradient_region(5, 9, gradient);
    strip.vertical_gradient_span(2, 4, 12, 14, gradient);
    for y in 5..9 {
        assert_eq!(strip.pixel(3, y), whole.pixel(3, y));
    }
    assert_eq!(strip.pixel(2, 13), whole.pixel(2, 13));
    assert_eq!(strip.pixel(5, 13), 0);
    assert_eq!(whole.pixel(0, 0), 0x0010_2030);
}

fn chrome() -> Chrome {
    Chrome {
        cell_height: 2,
        title: line(3),
        subtitle: line(4),
        tagline: line(5),
        name: line(2),
        gap: line(1),
        status: line(6),
    }
}

fn shown() -> display::State {
    let mut state = display::State::new();
    assert!(init(&mut state, &info(640, 480, PixelFormat::Bgrx8888), &chrome()));
    state
}

#[test]
fn without_a_framebuffer_there_is_no_display() {
    let mut state = display::State::new();
    assert!(!init(&mut state, &info(640, 480, PixelFormat::Unknown), &chrome()));
    assert!(!is_available(&state));
    assert!(!start_thread(&state));
    assert!(geometry(&state).is_none());
    assert!(unclaimed_region(&state).is_none());
    assert!(take_damage(&mut state).is_none());
    refresh_status(&mut state, &[], &line(1));
    assert!(surface(&state).is_none());
}

#[test]
fn the_region_is_left_alone() {
    let mut state = shown();
    assert!(is_available(&state) && start_thread(&state));
    assert_eq!(geometry(&state).map(|info| info.width), Some(640));
    let region = unclaimed_region(&state).unwrap();
    assert!(region.width > 0 && region.height > 0);
    let before: Vec<u32> = inside(&state, region.x, region.y, region.width, region.height);
    let rows = vec![
        StatusLine { label: line(4), value: line(7) },
        StatusLine { label: line(2), value: line(9) },
    ];
    take_damage(&mut state);
    refresh_status(&mut state, &rows, &line(1));
    assert!(take_damage(&mut state).is_some());
    repaint(&mut state, &chrome());
    let after: Vec<u32> = inside(&state, region.x, region.y, region.width, region.height);
    assert_eq!(before, after);
}

fn inside(state: &display::State, x: u32, y: u32, width: u32, height: u32) -> Vec<u32> {
    let buffer = surface(state).unwrap();
    let mut words = Vec::new();
    for row in y..y + height {
        for column in x..x + width {
            words.push(buffer.pixel(column, row));
        }
    }
    words
}

#[test]
fn the_panel_is_as_large_as_fits() {
    let few = [StatusLine { label: line(4), value: line(7) }];
    let layout = panel_layout(640, 480, &few, &line(1));
    assert!(layout.text_scale >= 1);
    assert!(layout.x + layout.width <= 640);
    assert!(layout.y + layout.height <= 480);
    let wide = [StatusLine { label: line(60), value: line(60) }];
    let smaller = panel_layout(640, 480, &wide, &line(1));
    assert!(smaller.text_scale <= layout.text_scale);
    // A surface too small to be drawn on, and more rows than are drawn.
    let tiny = panel_layout(10, 44, &few, &line(1));
    assert_eq!((tiny.x, tiny.y, tiny.width, tiny.text_scale), (0, 17, 10, 1));
    let mut many = Vec::new();
    for _ in 0..100 {
        many.push(StatusLine { label: line(1), value: line(1) });
    }
    let tall = panel_layout(640, 480, &many, &line(1));
    assert_eq!(tall.height, 100 * tall.line_spacing + 24);
    assert_eq!(tall.y, 192);
}

#[test]
fn a_language_is_noticed_once() {
    let mut state = shown();
    assert!(locale_changed(&mut state, 3));
    assert!(!locale_changed(&mut state, 3));
    assert!(locale_changed(&mut state, 4));
}

fn figures() -> Figures {
    Figures {
        uptime_ms: 65_000,
        frames: Some((256, 1024)),
        heap_used: 2048,
        heap_total: 8192,
        threads: 5,
        running: 1,
        ready: 2,
        sleeping: 2,
        processors: 4,
        switches: 99,
        timer_hz: 1000,
        timer_ticks: 65_000,
        timer: TimerSource::LocalApic,
        storage: Some((8 << 20, 4 << 20)),
        language: b"English".to_vec(),
        typed: b"hello".to_vec(),
    }
}

#[test]
fn the_panel_has_ten_rows() {
    let rows = status_rows(&figures());
    assert_eq!(rows.len(), 10);
    let memory = rows.iter().find(|row| row.label.contains("memory")).unwrap();
    match &memory.value {
        Value::Format(_, arguments) => {
            let numbers: Vec<u64> = arguments
                .iter()
                .filter_map(|argument| match argument.figure {
                    Figure::Number(number) => Some(number),
                    Figure::Words(_) => None,
                })
                .collect();
            // Frames of four kilobytes, in megabytes.
            assert!(numbers.contains(&1));
            assert!(numbers.contains(&4));
        }
        _ => panic!("no figures"),
    }
    let mut empty = figures();
    empty.frames = None;
    empty.storage = None;
    empty.typed = vec![];
    assert_eq!(status_rows(&empty).len(), 10);
}

#[test]
fn colours_have_names() {
    assert_eq!(Color(framebuffer::WHITE), Color::rgb(255, 255, 255));
    assert_eq!(Color(framebuffer::BLACK), Color::rgb(0, 0, 0));
    assert_eq!(Color(framebuffer::NEXUS_BLUE).blue(), 0xFF);
    assert_eq!(Color(framebuffer::NEXUS_DEEP), Color(display::BACKGROUND_TOP));
    assert_eq!(Color(framebuffer::PANIC_RED).red(), 0xB0);
}
