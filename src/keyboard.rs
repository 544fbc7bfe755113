use vstd::prelude::*;
use pc_keyboard::layouts::Us104Key;
use pc_keyboard::{DecodedKey, HandleControl, KeyEvent, Keyboard, ScancodeSet1};

verus! {

#[verifier::external_type_specification]
#[verifier::external_body]
pub struct ExKeyEvent(KeyEvent);

#[verifier::external_type_specification]
#[verifier::external_body]
pub struct ExKeyError(pc_keyboard::Error);

/// A key as the decoder reports it.
#[derive(Debug, PartialEq, Eq)]
pub enum Key {
    /// A key that stands for a character.
    Unicode(char),
    /// A key without a character, by the name of its key code.
    RawKey(String),
}

/// Relies on pc_keyboard::Keyboard::add_byte: feeds one scancode byte to the
/// decoder, which reports a key event once a whole sequence has come.
#[verifier::external_body]
fn keyboard_add_byte(decoder: &mut KeyDecoder, byte: u8) -> Result<
    Option<KeyEvent>,
    pc_keyboard::Error,
> {
    decoder.keyboard.add_byte(byte)
}

/// Relies on pc_keyboard::Keyboard::process_keyevent: turns a key event into
/// a character or a raw key code, given the modifier keys held; a raw key
/// code is reported by its name.
#[verifier::external_body]
fn keyboard_process_keyevent(decoder: &mut KeyDecoder, event: KeyEvent) -> Option<Key> {
    match decoder.keyboard.process_keyevent(event) {
        Some(DecodedKey::Unicode(c)) => Some(Key::Unicode(c)),
        Some(DecodedKey::RawKey(k)) => Some(Key::RawKey(format!("{:?}", k))),
        None => None,
    }
}

/// Turns raw scancode bytes, one per keyboard interrupt, into keys. A
/// sequence that is not complete yet is kept until its next byte comes.
/// The decoder state of the keyboard crate is opaque here.
#[verifier::external_body]
pub struct KeyDecoder {
    keyboard: Keyboard<Us104Key, ScancodeSet1>,
}

/// Relies on pc_keyboard::Keyboard::new: a US 104-key layout decoder for
/// scancode set 1 that leaves Ctrl combinations as they are, in its start
/// state.
#[verifier::external_body]
fn new_key_decoder() -> KeyDecoder {
    KeyDecoder { keyboard: Keyboard::new(ScancodeSet1::new(), Us104Key, HandleControl::Ignore) }
}

impl KeyDecoder {
    /// A decoder for a US 104-key keyboard sending scancode set 1.
    pub fn new() -> Self {
        new_key_decoder()
    }

    /// Feeds one scancode byte; returns the key that it completes, if any.
    /// A malformed sequence yields no key.
    pub fn add_byte(&mut self, scancode: u8) -> Option<Key> {
        match keyboard_add_byte(self, scancode) {
            Ok(Some(event)) => keyboard_process_keyevent(self, event),
            _ => None,
        }
    }
}

} // verus!
