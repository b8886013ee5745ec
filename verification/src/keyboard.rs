//! The keyboard scancode queue: the interrupt handler adds scancodes, the
//! scancode stream takes them out in order.
use vstd::prelude::*;
use crossbeam_queue::ArrayQueue;
use futures_util::task::AtomicWaker;
use pc_keyboard::{DecodedKey, HandleControl, KeyEvent, Keyboard, ScancodeSet1};
use pc_keyboard::layouts::Us104Key;
use vstd::utf8::{encode_utf8, encode_scalar};
use crate::queue::{scancode_queue_items, scancode_queue_capacity, new_scancode_queue, push_scancode, pop_scancode};

verus! {

/// How many scancodes the queue holds before new ones are dropped.
pub const SCANCODE_QUEUE_CAPACITY: usize = 100;

#[verifier::external_type_specification]
#[verifier::external_body]
pub struct ExAtomicWaker(AtomicWaker);

/// Whether a waker is registered in an `AtomicWaker`.
pub uninterp spec fn waker_registered(w: AtomicWaker) -> bool;

/// `AtomicWaker::wake`: takes the waker last registered, if any, and wakes
/// it. With exclusive access no registration can race with it, so
/// afterwards no waker is registered. Nothing about the woken task is
/// stated.
#[verifier::external_body]
fn wake_stream(waker: &mut AtomicWaker)
    ensures
        !waker_registered(*final(waker)),
{
    waker.wake()
}

/// Called by the keyboard interrupt handler. Once the stream has created
/// the queue, `scancode` is appended unless the queue is full (then it is
/// dropped), and after an append the stream's waker is woken and
/// deregistered; a dropped scancode leaves the waker untouched. Returns
/// whether the scancode was queued.
pub fn add_scancode(scancode: u8, queue: &mut Option<ArrayQueue<u8>>, waker: &mut AtomicWaker) -> (queued: bool)
    ensures
        queued ==> !waker_registered(*final(waker)),
        !queued ==> *final(waker) == *old(waker),
        old(queue).is_none() ==> !queued && final(queue).is_none(),
        old(queue).is_some() ==> {
            let q = old(queue).unwrap();
            &&& final(queue).is_some()
            &&& scancode_queue_capacity(final(queue).unwrap()) == scancode_queue_capacity(q)
            &&& queued == (scancode_queue_items(q).len() < scancode_queue_capacity(q))
            &&& scancode_queue_items(final(queue).unwrap()) == (if queued {
                scancode_queue_items(q).push(scancode)
            } else {
                scancode_queue_items(q)
            })
        },
{
    match queue {
        Some(q) => {
            match push_scancode(q, scancode) {
                Ok(()) => {
                    wake_stream(waker);
                    true
                },
                Err(_) => false,
            }
        },
        None => false,
    }
}

/// The consumer side of the scancode queue.
pub struct ScancodeStream {
    _private: (),
}

impl ScancodeStream {
    /// Creates the stream and, with it, the empty scancode queue. The queue
    /// is created once: a second stream is refused by `requires`.
    pub fn new(queue: &mut Option<ArrayQueue<u8>>) -> (s: ScancodeStream)
        requires
            old(queue).is_none(),
        ensures
            final(queue).is_some(),
            scancode_queue_items(final(queue).unwrap()) == Seq::<u8>::empty(),
            scancode_queue_capacity(final(queue).unwrap()) == SCANCODE_QUEUE_CAPACITY,
    {
        *queue = Some(new_scancode_queue(SCANCODE_QUEUE_CAPACITY));
        ScancodeStream { _private: () }
    }

    /// Takes the oldest queued scancode, if any (the stream's poll tries
    /// this, registers its waker when it got nothing, and tries again).
    pub fn next_scancode(&self, queue: &mut Option<ArrayQueue<u8>>) -> (r: Option<u8>)
        requires
            old(queue).is_some(),
        ensures
            final(queue).is_some(),
            scancode_queue_capacity(final(queue).unwrap()) == scancode_queue_capacity(old(queue).unwrap()),
            scancode_queue_items(old(queue).unwrap()).len() == 0 ==> {
                &&& r.is_none()
                &&& scancode_queue_items(final(queue).unwrap()) == scancode_queue_items(old(queue).unwrap())
            },
            scancode_queue_items(old(queue).unwrap()).len() > 0 ==> {
                &&& r == Some(scancode_queue_items(old(queue).unwrap())[0])
                &&& scancode_queue_items(final(queue).unwrap()) == scancode_queue_items(old(queue).unwrap()).skip(1)
            },
    {
        match queue {
            Some(q) => pop_scancode(q),
            None => None,
        }
    }
}

/// A PS/2 keyboard decoder: `pc_keyboard`'s `Keyboard` for scancode set 1
/// and the US 104-key layout. Verus refuses to declare `Keyboard` itself
/// (its type parameters are bounded by `pc_keyboard`'s traits), so the
/// decoder is held opaque in a private field.
#[verifier::external_body]
pub struct KeyDecoder {
    kb: Keyboard<Us104Key, ScancodeSet1>,
}

#[verifier::external_type_specification]
#[verifier::external_body]
pub struct ExKeyEvent(KeyEvent);

/// A decoded key press: a character, or the name of a key that has none
/// (such as `LShift`).
#[derive(Debug)]
pub enum KeyOutput {
    Unicode(char),
    Raw(String),
}

/// The text shown for a key press: the character, or the key's name.
pub open spec fn key_text(k: KeyOutput) -> Seq<char> {
    match k {
        KeyOutput::Unicode(c) => seq![c],
        KeyOutput::Raw(name) => name@,
    }
}

/// `Keyboard::new` for scancode set 1, the US 104-key layout and Ctrl keys
/// passed through unchanged. Nothing is stated of the decoder's state.
#[verifier::external_body]
fn new_keyboard() -> (d: KeyDecoder)
{
    KeyDecoder { kb: Keyboard::new(ScancodeSet1::new(), Us104Key, HandleControl::Ignore) }
}

/// A scancode decoder together with the bytes fed to it since it was made.
/// `pc_keyboard`'s decoder is deterministic, so its state is fixed by
/// those bytes.
pub struct ScancodeDecoder {
    keyboard: KeyDecoder,
    fed: Ghost<Seq<u8>>,
}

impl ScancodeDecoder {
    /// The scancode bytes fed to the decoder so far, oldest first.
    pub closed spec fn bytes_fed(&self) -> Seq<u8> {
        self.fed@
    }
}

/// `Keyboard::add_byte`: feeds one scancode byte to the decoder; a
/// completed key event comes back, nothing while a multi-byte sequence is
/// incomplete, and nothing for a byte the decoder rejects. The byte joins
/// the bytes fed; nothing is stated of the result, which depends on the
/// decoder's state.
#[verifier::external_body]
fn keyboard_add_byte(d: &mut ScancodeDecoder, byte: u8) -> (r: Option<KeyEvent>)
    ensures
        final(d).bytes_fed() == old(d).bytes_fed().push(byte),
{
    match d.keyboard.kb.add_byte(byte) {
        Ok(ev) => ev,
        Err(_) => None,
    }
}

/// `Keyboard::process_keyevent`: updates the modifier state with a key
/// event and yields the key it types, if any: a character, or a key
/// without one, named as its `Debug` form prints it. No byte is fed;
/// nothing is stated of the result, which depends on the modifier state.
#[verifier::external_body]
fn keyboard_process_event(d: &mut ScancodeDecoder, ev: KeyEvent) -> (r: Option<KeyOutput>)
    ensures
        final(d).bytes_fed() == old(d).bytes_fed(),
{
    match d.keyboard.kb.process_keyevent(ev) {
        Some(DecodedKey::Unicode(c)) => Some(KeyOutput::Unicode(c)),
        Some(DecodedKey::RawKey(k)) => Some(KeyOutput::Raw(format!("{:?}", k))),
        None => None,
    }
}

/// A decoder for PS/2 keyboard scancodes (set 1, US 104-key layout, Ctrl
/// keys passed through unchanged) that has been fed nothing yet.
pub fn new_key_decoder() -> (d: ScancodeDecoder)
    ensures
        d.bytes_fed() == Seq::<u8>::empty(),
{
    ScancodeDecoder { keyboard: new_keyboard(), fed: Ghost(Seq::empty()) }
}

/// Decodes one scancode byte: the byte, whatever its value (an extended
/// prefix such as 0xE0 included), is fed to the decoder, and when it
/// completes a key event the event is handed to the layout, which yields
/// the key typed, if any. Which key that is depends on the bytes fed
/// before; every byte is fed exactly once, in order.
pub fn decode_scancode(d: &mut ScancodeDecoder, scancode: u8) -> (r: Option<KeyOutput>)
    ensures
        final(d).bytes_fed() == old(d).bytes_fed().push(scancode),
{
    match keyboard_add_byte(d, scancode) {
        Some(ev) => keyboard_process_event(d, ev),
        None => None,
    }
}

/// The UTF-8 bytes of one character.
fn char_bytes(c: char) -> (r: Vec<u8>)
    ensures
        r@ == encode_scalar(c as u32),
{
    proof {
        vstd::utf8::char_is_scalar(c);
    }
    let s: u32 = c as u32;
    if s <= 0x7F {
        vec![(s & 0x7F) as u8]
    } else if s <= 0x7FF {
        vec![0xC0 | ((s >> 6) & 0x1F) as u8, 0x80 | (s & 0x3F) as u8]
    } else if s <= 0xFFFF {
        vec![0xE0 | ((s >> 12) & 0x0F) as u8, 0x80 | ((s >> 6) & 0x3F) as u8, 0x80 | (s & 0x3F) as u8]
    } else {
        vec![
            0xF0 | ((s >> 18) & 0x7) as u8,
            0x80 | ((s >> 12) & 0x3F) as u8,
            0x80 | ((s >> 6) & 0x3F) as u8,
            0x80 | (s & 0x3F) as u8,
        ]
    }
}

/// What printing a key press sends to the console: the UTF-8 encoding of
/// its text.
pub fn key_bytes(k: &KeyOutput) -> (r: Vec<u8>)
    ensures
        r@ == encode_utf8(key_text(*k)),
{
    match k {
        KeyOutput::Unicode(c) => {
            let r = char_bytes(*c);
            assert(encode_utf8(seq![*c]) =~= encode_scalar(*c as u32) + encode_utf8(seq![*c].drop_first()));
            assert(seq![*c].drop_first() =~= Seq::<char>::empty());
            assert(encode_utf8(Seq::<char>::empty()) =~= Seq::<u8>::empty());
            assert(r@ =~= encode_utf8(seq![*c]));
            r
        },
        KeyOutput::Raw(name) => crate::user::print_str(name.as_str()),
    }
}

} // verus!
