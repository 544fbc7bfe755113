use bare_kernel::interrupts::{keyboard_interrupt, InterruptIndex, PIC_1_OFFSET, PIC_2_OFFSET};
use bare_kernel::keyboard::{Key, KeyDecoder};
use bare_kernel::writer::{FrameBufferInfo, FrameBufferWriter, PixelFormat};

fn console() -> FrameBufferWriter {
    let info = FrameBufferInfo {
        byte_len: 640 * 480 * 4,
        width: 640,
        height: 480,
        pixel_format: PixelFormat::Rgb,
        bytes_per_pixel: 4,
        stride: 640,
    };
    FrameBufferWriter::new(vec![0u8; 640 * 480 * 4], info)
}

#[test]
fn extended_sequence_yields_one_key() {
    let mut d = KeyDecoder::new();
    let keys: Vec<Option<Key>> = [0xE0u8, 0x48].iter().map(|b| d.add_byte(*b)).collect();
    assert_eq!(keys.iter().filter(|k| k.is_some()).count(), 1);
    assert_eq!(keys[0], None);
    assert_eq!(keys[1], Some(Key::RawKey("ArrowUp".to_string())));
}

#[test]
fn letter_press_and_release() {
    let mut d = KeyDecoder::new();
    assert_eq!(d.add_byte(0x1E), Some(Key::Unicode('a')));
    assert_eq!(d.add_byte(0x9E), None);
}

#[test]
fn backspace_key_is_unicode_8() {
    let mut d = KeyDecoder::new();
    assert_eq!(d.add_byte(0x0E), Some(Key::Unicode('\u{8}')));
}

#[test]
fn vectors_follow_primary_offset() {
    assert_eq!(PIC_1_OFFSET, 32);
    assert_eq!(PIC_2_OFFSET, 40);
    assert_eq!(InterruptIndex::Timer.as_u8(), 32);
    assert_eq!(InterruptIndex::Keyboard.as_u8(), 33);
    assert_eq!(InterruptIndex::Keyboard.as_usize(), 33);
}

#[test]
fn keyboard_interrupt_prints_and_acknowledges() {
    let mut d = KeyDecoder::new();
    let mut c = Some(console());
    assert_eq!(keyboard_interrupt(&mut d, &mut c, 0x1E), 33);
    assert_eq!(c.as_ref().unwrap().cursor(), (10, 1));
    assert_eq!(keyboard_interrupt(&mut d, &mut c, 0x9E), 33);
    assert_eq!(c.as_ref().unwrap().cursor(), (10, 1));
    assert_eq!(keyboard_interrupt(&mut d, &mut c, 0x0E), 33);
    assert_eq!(c.as_ref().unwrap().cursor(), (1, 1));
    assert!(c.as_ref().unwrap().framebuffer().iter().all(|b| *b == 0));
}

#[test]
fn raw_key_is_written_by_name() {
    let mut w = console();
    w.handle_key(&Key::RawKey("ArrowUp".to_string()));
    assert_eq!(w.cursor(), (1 + 7 * 9, 1));
}

#[test]
fn keyboard_interrupt_without_console() {
    let mut d = KeyDecoder::new();
    let mut c: Option<FrameBufferWriter> = None;
    assert_eq!(keyboard_interrupt(&mut d, &mut c, 0x1E), 33);
    assert!(c.is_none());
}
