use vstd::prelude::*;
use crate::keyboard::{Key, KeyDecoder};
use vstd::string::StrSliceExecFns;
use crate::writer::{shows_key, FrameBufferWriter, LINE_HEIGHT};

verus! {

/// First vector of the primary interrupt controller, just past the 32
/// vectors that the CPU reserves for its exceptions.
pub const PIC_1_OFFSET: u8 = 32;

/// First vector of the secondary interrupt controller.
pub const PIC_2_OFFSET: u8 = PIC_1_OFFSET + 8;

/// The hardware interrupt lines this kernel serves.
#[derive(Debug, Clone, Copy, PartialEq, Eq, Structural)]
pub enum InterruptIndex {
    /// Line 0 of the primary controller.
    Timer,
    /// Line 1 of the primary controller.
    Keyboard,
}

/// The CPU vector on which a hardware line arrives once the controllers are
/// remapped.
pub open spec fn vector_of(i: InterruptIndex) -> u8 {
    match i {
        InterruptIndex::Timer => PIC_1_OFFSET,
        InterruptIndex::Keyboard => (PIC_1_OFFSET + 1) as u8,
    }
}

impl InterruptIndex {
    /// The vector number of this line.
    pub fn as_u8(self) -> (r: u8)
        ensures
            r == vector_of(self),
    {
        match self {
            InterruptIndex::Timer => PIC_1_OFFSET,
            InterruptIndex::Keyboard => PIC_1_OFFSET + 1,
        }
    }

    /// The vector number of this line, as an index into the vector table.
    pub fn as_usize(self) -> (r: usize)
        ensures
            r == vector_of(self) as usize,
    {
        self.as_u8() as usize
    }
}

/// The work of the keyboard interrupt: feeds the scancode read from the
/// keyboard's data port to the decoder and shows the key it completes, if
/// any, on the console (unless the console's line counter could run out of
/// range while writing it). Returns the vector whose end of interrupt the
/// controller must be sent.
pub fn keyboard_interrupt(
    decoder: &mut KeyDecoder,
    console: &mut Option<FrameBufferWriter>,
    scancode: u8,
) -> (ack: u8)
    requires
        *old(console) matches Some(w) ==> w.wf(),
    ensures
        ack == vector_of(InterruptIndex::Keyboard),
        *old(console) is None ==> *final(console) is None,
        *old(console) matches Some(w) ==> *final(console) matches Some(v) && v.wf() && v.info()
            == w.info() && v.buf().len() == w.buf().len() && (v == w || exists|k: Key| shows_key(w, v, k)),
{
    if let Some(key) = decoder.add_byte(scancode) {
        if let Some(writer) = console {
            let (_, y) = writer.cursor();
            let len: usize = match &key {
                Key::Unicode(_) => 1,
                Key::RawKey(name) => name.as_str().unicode_len(),
            };
            if y < usize::MAX && len <= (usize::MAX - 1 - y) / LINE_HEIGHT {
                proof {
                    assert(LINE_HEIGHT * len <= usize::MAX - 1 - y) by (nonlinear_arith)
                        requires len <= (usize::MAX - 1 - y) / 18, LINE_HEIGHT == 18;
                }
                let ghost before = *writer;
                writer.handle_key(&key);
                assert(shows_key(before, *writer, key));
            }
        }
    }
    InterruptIndex::Keyboard.as_u8()
}

} // verus!
