use so2js_gc::{GcColor, GcHeader};

#[test]
fn test_gc_header_size() {
    // The header is three words on a 64-bit machine.
    assert_eq!(GcHeader::SIZE % 8, 0);
}

#[test]
fn test_gc_header_color() {
    let mut header = GcHeader::new(64, 0);
    assert_eq!(header.color(), GcColor::White);

    header.set_color(GcColor::Gray);
    assert_eq!(header.color(), GcColor::Gray);
    assert!(header.needs_scanning());

    header.set_color(GcColor::Black);
    assert_eq!(header.color(), GcColor::Black);
    assert!(header.is_marked());
    assert!(!header.needs_scanning());
}

#[test]
fn test_gc_header_context_ptr() {
    // A made-up context address, 8-byte aligned.
    let fake_context = 0x1234_5678_9ABC_DEF0_u64 as usize;
    let mut header = GcHeader::new(64, fake_context);

    assert_eq!(header.context_ptr(), fake_context);
    assert_eq!(header.color(), GcColor::White);

    // A change of color keeps the context.
    header.set_color(GcColor::Gray);
    assert_eq!(header.context_ptr(), fake_context);
    assert_eq!(header.color(), GcColor::Gray);

    header.set_color(GcColor::Black);
    assert_eq!(header.context_ptr(), fake_context);
    assert_eq!(header.color(), GcColor::Black);

    // A change of context keeps the color.
    let new_context = 0xFEDC_BA98_7654_3210_u64 as usize;
    header.set_context_ptr(new_context);
    assert_eq!(header.context_ptr(), new_context);
    assert_eq!(header.color(), GcColor::Black);
}

#[test]
fn gc_header_sizes_and_links() {
    let mut header = GcHeader::new(40, 16);
    assert_eq!(header.alloc_size(), 40);
    assert_eq!(header.total_size(), 64);
    assert_eq!(header.next_object(), None);
    header.set_next_object(Some(4096));
    assert_eq!(header.next_object(), Some(4096));
    assert_eq!(header.context_ptr(), 16);
    assert!(!header.is_marked());
}

#[test]
fn gc_header_addresses() {
    assert_eq!(GcHeader::object_ptr(4096), 4120);
    assert_eq!(GcHeader::from_object_ptr(4120), Some(4096));
    assert_eq!(GcHeader::from_object_ptr(8), None);
    assert_eq!(GcHeader::from_object_ptr(24), Some(0));
}

#[test]
fn gc_header_layout_rounds_up() {
    let layout = GcHeader::layout_for_size(1);
    assert_eq!(layout.size, 32);
    assert_eq!(layout.align, 8);
    assert_eq!(GcHeader::layout_for_size(16).size, 40);
    assert_eq!(GcHeader::layout_for_size(0).size, 24);
    assert_eq!(so2js_gc::gc_header::align_up(9), 16);
    assert_eq!(so2js_gc::gc_header::align_up(8), 8);
}

#[test]
fn gc_color_from_u8() {
    assert_eq!(GcColor::from_u8(0), GcColor::White);
    assert_eq!(GcColor::from_u8(1), GcColor::Gray);
    assert_eq!(GcColor::from_u8(2), GcColor::Black);
    assert_eq!(GcColor::from_u8(3), GcColor::White);
    assert_eq!(GcColor::from_u8(255), GcColor::White);
    assert_eq!(GcColor::default(), GcColor::White);
}
