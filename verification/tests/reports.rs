use elinos::graphics::{GraphicsError, SimpleFramebuffer, TextConsole, STARTUP_BACKGROUND};
use elinos::reports::{
    cmd_config, cmd_graphics, cmd_graphics_test, cmd_heap, decimal_digits, syscall_outcome, AllocatorMode,
    GraphicsTestError, HeapWarning, MemoryStats,
};
use elinos::syscall::SysCallResult;

fn screen(w: u32, h: u32) -> SimpleFramebuffer {
    SimpleFramebuffer::new(w, h, 32, Ok(0x8800_0000)).unwrap()
}

#[test]
fn decimal_digits_of_numbers() {
    assert_eq!(decimal_digits(0), b"0".to_vec());
    assert_eq!(decimal_digits(7), b"7".to_vec());
    assert_eq!(decimal_digits(10), b"10".to_vec());
    assert_eq!(decimal_digits(12345), b"12345".to_vec());
    assert_eq!(decimal_digits(usize::MAX), usize::MAX.to_string().into_bytes());
}

#[test]
fn heap_report_percent_and_warnings() {
    let r = cmd_heap(512 * 1024, 1024 * 1024, 512 * 1024);
    assert_eq!(r.total_kb, 1024);
    assert_eq!(r.used_kb, 512);
    assert_eq!(r.available_kb, 512);
    assert_eq!(r.usage_percent, 50);
    assert_eq!(r.warning, HeapWarning::Normal);
    let r = cmd_heap(950, 1000, 50);
    assert_eq!(r.usage_percent, 95);
    assert_eq!(r.warning, HeapWarning::VeryHigh);
    let r = cmd_heap(910, 1000, 90);
    assert_eq!(r.warning, HeapWarning::VeryHigh);
    let r = cmd_heap(900, 1000, 100);
    assert_eq!(r.warning, HeapWarning::Normal);
    let r = cmd_heap(1000, 1000, 0);
    assert_eq!(r.warning, HeapWarning::Exhausted);
    let r = cmd_heap(0, 0, 0);
    assert_eq!(r.usage_percent, 0);
    assert_eq!(r.warning, HeapWarning::Exhausted);
}

#[test]
fn config_report() {
    let stats = MemoryStats {
        detected_ram_size: 128 * 1024 * 1024,
        regions_detected: 1,
        allocator_mode: AllocatorMode::TwoTier,
        heap_size: 2 * 1024 * 1024,
        heap_used: 512 * 1024,
    };
    let r = cmd_config(&stats, 512, 64 * 1024, 256, 1024 * 1024);
    assert_eq!(r.ram_mb, 128);
    assert_eq!(r.heap_kb, 2048);
    assert_eq!(r.heap_used_kb, 512);
    assert_eq!(r.heap_utilization, Some(25));
    assert_eq!(r.file_buffer_kb, 64);
    assert_eq!(r.max_file_kb, 1024);
    assert_eq!(r.allocator_mode.description(), "Two-Tier (Buddy + Slab)");
    let empty = MemoryStats { heap_size: 0, heap_used: 0, ..stats };
    assert_eq!(cmd_config(&empty, 512, 0, 0, 0).heap_utilization, None);
}

#[test]
fn graphics_report() {
    assert!(cmd_graphics(None).is_none());
    let fb = screen(640, 480);
    let info = cmd_graphics(Some(&fb)).unwrap();
    assert_eq!((info.width, info.height, info.bpp), (640, 480, 32));
    assert_eq!(info.size_kb, 1200);
    assert_eq!(info.total_pixels, 307200);
}

#[test]
fn graphics_test_passes_on_a_vga_screen() {
    let mut s = Some(screen(640, 480));
    let report = match cmd_graphics_test(&mut s) {
        Ok(r) => r,
        Err(_) => panic!("test failed"),
    };
    assert_eq!(report.outcomes.len(), 14);
    assert_eq!(report.failures, 0);
    // The two off-screen points are refused, as intended.
    assert_eq!(&report.outcomes[11..14], &[false, true, false]);
    let fb = s.as_ref().unwrap();
    assert_eq!(fb.get_pixel(0, 200), Some(0xFF0000FF));
    assert_eq!(fb.get_pixel(480, 200), Some(0xFFFFFFFF));
    assert_eq!(fb.get_pixel(60, 320), Some(0xFF0000FF));
    assert_eq!(fb.get_pixel(639, 479), Some(0xFFFFFFFF));
    assert_eq!(fb.get_pixel(1, 1), Some(0));
}

#[test]
fn graphics_test_counts_failures_on_a_small_screen() {
    let mut s = Some(screen(200, 100));
    match cmd_graphics_test(&mut s) {
        Err(GraphicsTestError::Failed(r)) => {
            // All seven pixels (row 200), all three rectangles and the
            // last on-screen pixel fail.
            assert_eq!(r.failures, 11);
            assert!(r.outcomes[0]);
        }
        _ => panic!("expected failures"),
    }
    let mut none: Option<SimpleFramebuffer> = None;
    assert!(matches!(cmd_graphics_test(&mut none), Err(GraphicsTestError::NotAvailable)));
}

#[test]
fn framebuffer_pixels_and_rectangles() {
    let mut fb = screen(16, 8);
    assert_eq!(fb.set_pixel(16, 0, 1), Err(GraphicsError::OutOfBounds));
    assert_eq!(fb.set_pixel(15, 7, 9), Ok(()));
    assert_eq!(fb.get_pixel(15, 7), Some(9));
    assert_eq!(fb.draw_rect(12, 6, 10, 10, 5), Ok(()));
    assert_eq!(fb.get_pixel(12, 6), Some(5));
    assert_eq!(fb.get_pixel(15, 7), Some(5));
    assert_eq!(fb.get_pixel(11, 6), Some(0));
    assert_eq!(fb.draw_rect(16, 0, 1, 1, 5), Err(GraphicsError::OutOfBounds));
    fb.clear(3);
    assert_eq!(fb.get_pixel(0, 0), Some(3));
    assert!(matches!(SimpleFramebuffer::new(4, 4, 32, Err(())), Err(GraphicsError::AllocationFailed)));
}

#[test]
fn console_cursor_wraps_and_scrolls() {
    let mut c = TextConsole::new();
    let s = c.print_char('A');
    assert_eq!(s.draw_at, Some((0, 0)));
    assert_eq!(c.cursor_x, 1);
    c.print_char('\t');
    assert_eq!(c.cursor_x, 8);
    for _ in 0..72 {
        c.print_char('x');
    }
    assert_eq!(c.cursor_x, 80);
    let s = c.print_char('y');
    assert_eq!(s.draw_at, Some((0, 8)));
    for _ in 0..58 {
        c.print_char('\n');
    }
    assert_eq!(c.cursor_y, 59);
    let s = c.print_char('\n');
    assert!(s.scrolled);
    assert_eq!(c.cursor_y, 59);
}

#[test]
fn syscall_outcomes() {
    assert_eq!(syscall_outcome(&SysCallResult::Success(0)), Ok(()));
    assert_eq!(syscall_outcome(&SysCallResult::Error(-38)), Err("Syscall failed"));
}

#[test]
fn glyphs_are_drawn_from_the_font() {
    let mut fb = screen(640, 480);
    let c = TextConsole::new();
    // The glyph of '!' is 0x18, 0x3C, 0x3C, 0x18, 0x18, 0x00, 0x18, 0x00.
    c.draw_char(&mut fb, '!', 8, 16);
    assert_eq!(fb.get_pixel(8 + 3, 16), Some(0x00FF_FFFF));
    assert_eq!(fb.get_pixel(8 + 2, 16), Some(0));
    assert_eq!(fb.get_pixel(8 + 2, 17), Some(0x00FF_FFFF));
    assert_eq!(fb.get_pixel(8 + 3, 21), Some(0));
    // Characters without a glyph draw nothing.
    c.draw_char(&mut fb, '\u{7f}', 0, 0);
    assert_eq!(fb.get_pixel(3, 0), Some(0));
}

#[test]
fn glyphs_are_clipped_at_the_screen_edge() {
    let mut fb = screen(10, 10);
    let c = TextConsole::new();
    c.draw_char(&mut fb, '#', 4, 4);
    // Row 2 of '#' is 0x7F: columns 1 to 7 are set; only those on screen show.
    assert_eq!(fb.get_pixel(5, 6), Some(0x00FF_FFFF));
    assert_eq!(fb.get_pixel(9, 6), Some(0x00FF_FFFF));
    assert_eq!(fb.get_pixel(4, 6), Some(0));
}

#[test]
fn scrolling_moves_text_up_one_line() {
    let mut fb = screen(640, 480);
    fb.set_pixel(5, 20, 7).unwrap();
    fb.set_pixel(5, 476, 9).unwrap();
    let mut c = TextConsole::new();
    c.scroll_up(&mut fb);
    assert_eq!(c.cursor_y, 59);
    assert_eq!(fb.get_pixel(5, 12), Some(7));
    assert_eq!(fb.get_pixel(5, 468), Some(9));
    assert_eq!(fb.get_pixel(5, 476), Some(0));
    assert_eq!(fb.get_pixel(5, 20), Some(0));
}

#[test]
fn startup_screen_pixels() {
    let mut fb = screen(640, 480);
    fb.draw_startup_screen();
    assert_eq!(fb.get_pixel(5, 5), Some(0x00FF_FFFF));
    assert_eq!(fb.get_pixel(635, 240), Some(0x00FF_FFFF));
    assert_eq!(fb.get_pixel(100, 75), Some(0x00FF_0000));
    assert_eq!(fb.get_pixel(250, 75), Some(0x0000_FF00));
    assert_eq!(fb.get_pixel(400, 75), Some(0x0000_00FF));
    assert_eq!(fb.get_pixel(25, 100), Some(STARTUP_BACKGROUND));
    assert_eq!(fb.get_pixel(300, 300), Some(0));
    assert_eq!(fb.get_pixel(21, 200), Some(0x00FF_FFFF));
    assert_eq!(fb.get_pixel(32, 165), Some(0x00FF_FFFF));
    assert_eq!(fb.get_pixel(34, 405), Some(0x0000_FF00));
}
