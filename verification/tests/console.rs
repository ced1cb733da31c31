use os::add_scancode;
use os::align_up;
use os::BumpAllocator;
use os::InterruptIndex;
use os::QemuExitCode;
use os::ScancodeStream;
use os::Writer;

#[test]
fn glyphs_render_from_the_font_table() {
    let mut w = Writer::new();
    w.write_byte(b'A');
    assert_eq!(w.column(), 1);

    let bm = font8x8::legacy::BASIC_LEGACY[b'A' as usize];
    let mut lit = 0usize;
    for y in 464..480usize {
        for x in 0..16usize {
            let expected = ((bm[y % 16 / 2] & (1 << (x % 16 / 2))) as u32) * 0xFFFFFF;
            assert_eq!(w.pixel(x, y), expected);
            if expected != 0 {
                lit += 1;
            }
        }
    }
    // 'A' is not blank.
    assert!(lit > 0);
    // Pixels outside the glyph cell are untouched.
    assert_eq!(w.pixel(16, 470), 0);
    assert_eq!(w.pixel(0, 400), 0);
}

#[test]
fn newline_scrolls_one_text_row() {
    let mut w = Writer::new();
    w.write_byte(b'A');
    let bottom: Vec<u32> = (0..16usize).map(|x| w.pixel(x, 470)).collect();

    w.write_byte(b'\n');
    assert_eq!(w.column(), 0);
    // The glyph moved up one text row.
    for x in 0..16usize {
        assert_eq!(w.pixel(x, 470 - 16), bottom[x]);
    }
    // The fresh bottom row is black.
    for x in 0..32usize {
        assert_eq!(w.pixel(x, 470), 0);
    }
}

#[test]
fn unprintable_bytes_render_the_fallback_glyph() {
    let mut w = Writer::new();
    w.write_string("\u{0001}");
    assert_eq!(w.column(), 1);
    let bm = font8x8::legacy::BASIC_LEGACY[0x7f];
    for y in 464..480usize {
        for x in 0..16usize {
            let expected = ((bm[y % 16 / 2] & (1 << (x % 16 / 2))) as u32) * 0xFFFFFF;
            assert_eq!(w.pixel(x, y), expected);
        }
    }
}

#[test]
fn write_string_advances_the_cursor() {
    let mut w = Writer::new();
    w.write_string("AB");
    assert_eq!(w.column(), 2);
    w.write_string("\n");
    assert_eq!(w.column(), 0);
}

#[test]
fn full_row_wraps_before_drawing() {
    let mut w = Writer::new();
    for _ in 0..40 {
        w.write_byte(b'x');
    }
    assert_eq!(w.column(), 40);
    w.write_byte(b'y');
    assert_eq!(w.column(), 1);
}

#[test]
fn scancodes_come_back_in_order() {
    let mut stream = ScancodeStream::new();
    assert!(add_scancode(&mut stream, 0x1e));
    assert!(add_scancode(&mut stream, 0x30));
    assert!(add_scancode(&mut stream, 0x2e));
    assert_eq!(stream.poll_scancode(), Some(0x1e));
    assert_eq!(stream.poll_scancode(), Some(0x30));
    assert_eq!(stream.poll_scancode(), Some(0x2e));
    assert_eq!(stream.poll_scancode(), None);
}

#[test]
fn full_queue_drops_scancodes() {
    let mut stream = ScancodeStream::new();
    for i in 0..100u32 {
        assert!(add_scancode(&mut stream, (i % 256) as u8));
    }
    // The queue is full: the scancode is dropped, nothing else changes.
    assert!(!add_scancode(&mut stream, 0x55));
    for i in 0..100u32 {
        assert_eq!(stream.poll_scancode(), Some((i % 256) as u8));
    }
    assert_eq!(stream.poll_scancode(), None);
}

#[test]
fn align_up_lands_on_multiples() {
    assert_eq!(align_up(0, 8), 0);
    assert_eq!(align_up(1, 8), 8);
    assert_eq!(align_up(8, 8), 8);
    assert_eq!(align_up(9, 8), 16);
    assert_eq!(align_up(1000, 1), 1000);
    assert_eq!(align_up(4095, 4096), 4096);
}

#[test]
fn bump_allocator_hands_out_aligned_chunks() {
    let mut b = BumpAllocator::new();
    b.init(1000, 100);
    assert_eq!(b.allocate(10, 4), Some(1000));
    assert_eq!(b.allocate(4, 16), Some(1024));
    assert_eq!(b.allocate(200, 1), None);
    assert_eq!(b.allocate(4, 4), Some(1028));
}

#[test]
fn bump_allocator_resets_when_everything_returns() {
    let mut b = BumpAllocator::new();
    b.init(0, 64);
    assert_eq!(b.allocate(8, 8), Some(0));
    assert_eq!(b.allocate(8, 8), Some(8));
    b.dealloc();
    // One allocation still lives: the cursor stays put.
    assert_eq!(b.allocate(8, 8), Some(16));
    b.dealloc();
    b.dealloc();
    // Everything returned: the arena resets.
    assert_eq!(b.allocate(8, 8), Some(0));
}

#[test]
fn heap_round_trip_values() {
    // The heap scenario: a boxed value and a small vector survive a
    // round trip through the (host) heap.
    let b = Box::new(41);
    let v: Vec<i32> = vec![0, 1, 2, 3, 4];
    assert_eq!(*b, 41);
    assert_eq!(v.iter().sum::<i32>(), 10);
}

#[test]
fn interrupt_vectors_follow_the_remap() {
    assert_eq!(InterruptIndex::Timer.as_u8(), 32);
    assert_eq!(InterruptIndex::Keyboard.as_u8(), 33);
    assert_eq!(InterruptIndex::Timer.as_usize(), 32);
    assert_eq!(InterruptIndex::Keyboard.as_usize(), 33);
}

#[test]
fn exit_codes_match_the_device_protocol() {
    assert_eq!(QemuExitCode::Success.as_u32(), 0x10);
    assert_eq!(QemuExitCode::Failed.as_u32(), 0x11);
}
