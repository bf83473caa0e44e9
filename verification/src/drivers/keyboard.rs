//! The PS/2 keyboard.
//!
//! The interrupt takes one byte and queues it; a thread decodes it. What comes
//! is which key changed and whether it went down or up, and turning that into a
//! character takes knowing which modifiers are held.
use vstd::prelude::*;

use crate::count::{count, counted};
use crate::drivers::mouse::{from_mouse, has_byte, is_ready};
use crate::drivers::port::Out;

verus! {

/// Where bytes are read and commands are written.
pub const DATA_PORT: u16 = 0x60;

/// Where the status is read.
pub const STATUS_PORT: u16 = 0x64;

/// The interrupt the keyboard raises.
pub const KEYBOARD_IRQ: u8 = 1;

/// How many scancodes can be waiting before the oldest is dropped.
pub const QUEUE_CAPACITY: usize = 64;

/// How many bytes are read away before the keyboard is used.
pub const DRAINED: u32 = 16;

/// How often the controller is looked at before it is told to scan.
pub const PATIENCE: u32 = 1000;

/// Tell the keyboard to start sending scancodes.
pub const ENABLE_SCANNING: u8 = 0xF4;

/// The character of each scancode, and zero where it is none.
pub const UNSHIFTED: [u8; 64] = [
    0x00, 0x00, 0x31, 0x32, 0x33, 0x34, 0x35, 0x36, 0x37, 0x38, 0x39, 0x30, 0x2D, 0x3D, 0x00, 0x00,
    0x71, 0x77, 0x65, 0x72, 0x74, 0x79, 0x75, 0x69, 0x6F, 0x70, 0x5B, 0x5D, 0x00, 0x00, 0x61, 0x73,
    0x64, 0x66, 0x67, 0x68, 0x6A, 0x6B, 0x6C, 0x3B, 0x27, 0x60, 0x00, 0x5C, 0x7A, 0x78, 0x63, 0x76,
    0x62, 0x6E, 0x6D, 0x2C, 0x2E, 0x2F, 0x00, 0x2A, 0x00, 0x20, 0x00, 0x00, 0x00, 0x00, 0x00, 0x00,
];

/// The same, with shift held.
pub const SHIFTED: [u8; 64] = [
    0x00, 0x00, 0x21, 0x40, 0x23, 0x24, 0x25, 0x5E, 0x26, 0x2A, 0x28, 0x29, 0x5F, 0x2B, 0x00, 0x00,
    0x51, 0x57, 0x45, 0x52, 0x54, 0x59, 0x55, 0x49, 0x4F, 0x50, 0x7B, 0x7D, 0x00, 0x00, 0x41, 0x53,
    0x44, 0x46, 0x47, 0x48, 0x4A, 0x4B, 0x4C, 0x3A, 0x22, 0x7E, 0x00, 0x7C, 0x5A, 0x58, 0x43, 0x56,
    0x42, 0x4E, 0x4D, 0x3C, 0x3E, 0x3F, 0x00, 0x2A, 0x00, 0x20, 0x00, 0x00, 0x00, 0x00, 0x00, 0x00,
];

/// A ring of scancodes, written by the interrupt and read by a thread.
pub struct ScancodeQueue {
    bytes: Vec<u8>,
    read: usize,
    write: usize,
    length: usize,
}

/// A place in the ring.
pub open spec fn wrapped(at: int) -> int {
    if at >= QUEUE_CAPACITY {
        at - QUEUE_CAPACITY
    } else {
        at
    }
}

impl View for ScancodeQueue {
    type V = Seq<u8>;

    closed spec fn view(&self) -> Seq<u8> {
        Seq::new(self.length as nat, |i: int| self.bytes@[wrapped(self.read + i)])
    }
}

/// A queue with one more byte: the oldest goes if there is no room.
pub open spec fn queued(queue: Seq<u8>, byte: u8) -> Seq<u8> {
    if queue.len() >= QUEUE_CAPACITY {
        queue.drop_first().push(byte)
    } else {
        queue.push(byte)
    }
}

fn next_place(at: usize) -> (next: usize)
    requires
        at < QUEUE_CAPACITY,
    ensures
        next == wrapped(at + 1),
        next < QUEUE_CAPACITY,
{
    if at + 1 >= QUEUE_CAPACITY {
        0
    } else {
        at + 1
    }
}

impl ScancodeQueue {
    /// Both ends are in the ring, and as far apart as there are bytes between.
    pub closed spec fn wf(&self) -> bool {
        &&& self.bytes@.len() == QUEUE_CAPACITY
        &&& self.read < QUEUE_CAPACITY
        &&& self.write < QUEUE_CAPACITY
        &&& self.length <= QUEUE_CAPACITY
        &&& self.write == wrapped(self.read + self.length)
    }

    /// Nothing queued.
    pub fn new() -> (queue: Self)
        ensures
            queue.wf(),
            queue@ == Seq::<u8>::empty(),
    {
        let mut bytes: Vec<u8> = Vec::new();
        while bytes.len() < QUEUE_CAPACITY
            invariant
                bytes@.len() <= QUEUE_CAPACITY,
            decreases QUEUE_CAPACITY - bytes@.len(),
        {
            bytes.push(0);
        }
        let queue = ScancodeQueue { bytes, read: 0, write: 0, length: 0 };
        assert(queue@ =~= Seq::<u8>::empty());
        queue
    }

    /// Queue a byte, and say whether there was room. Without room the oldest
    /// goes: what was just typed matters more.
    pub fn push(&mut self, byte: u8) -> (room: bool)
        requires
            old(self).wf(),
        ensures
            final(self).wf(),
            room == (old(self)@.len() < QUEUE_CAPACITY),
            final(self)@ == queued(old(self)@, byte),
    {
        let room: bool = self.length < QUEUE_CAPACITY;
        if !room {
            self.read = next_place(self.read);
            self.length = self.length - 1;
            assert(self@ =~= old(self)@.drop_first());
        }
        let ghost before = self@;
        let at: usize = self.write;
        self.bytes.set(at, byte);
        self.write = next_place(at);
        self.length = self.length + 1;
        assert(self@ =~= before.push(byte));
        room
    }

    /// Take the oldest byte.
    pub fn pop(&mut self) -> (byte: Option<u8>)
        requires
            old(self).wf(),
        ensures
            final(self).wf(),
            if old(self)@.len() == 0 {
                byte is None && final(self)@ == old(self)@
            } else {
                byte == Some(old(self)@[0]) && final(self)@ == old(self)@.drop_first()
            },
    {
        if self.length == 0 {
            return None;
        }
        let byte: u8 = self.bytes[self.read];
        self.read = next_place(self.read);
        self.length = self.length - 1;
        assert(self@ =~= old(self)@.drop_first());
        Some(byte)
    }

    /// Whether anything is queued.
    pub fn is_empty(&self) -> (empty: bool)
        ensures
            empty == (self@.len() == 0),
    {
        self.length == 0
    }
}

/// A key, as the decoder understands it.
#[derive(Debug, Clone, Copy, PartialEq, Eq, Structural)]
pub enum Key {
    /// A character, with modifiers applied.
    Character(char),
    Enter,
    Backspace,
    Tab,
    Escape,
    /// A function key, numbered from one.
    Function(u8),
    /// A key without a name here.
    Unknown(u8),
}

/// The modifiers that are held.
#[derive(Debug, Clone, Copy, PartialEq, Eq, Structural)]
pub struct Modifiers {
    pub shift: bool,
    pub control: bool,
    pub alt: bool,
    pub caps_lock: bool,
    /// The byte before said that this one is from the extended set.
    pub extended: bool,
}

/// What a byte comes to.
#[derive(Debug, Clone, Copy, PartialEq, Eq, Structural)]
pub struct Decoded {
    pub modifiers: Modifiers,
    pub key: Option<Key>,
    /// Whether the key counts as decoded.
    pub counts: bool,
}

/// Whether a byte is a letter.
pub open spec fn is_letter(byte: u8) -> bool {
    0x41 <= byte <= 0x5A || 0x61 <= byte <= 0x7A
}

/// The small letter of a letter.
pub open spec fn lowered(byte: u8) -> u8 {
    if 0x41 <= byte <= 0x5A {
        (byte + 0x20) as u8
    } else {
        byte
    }
}

/// The capital of a letter.
pub open spec fn raised(byte: u8) -> u8 {
    if 0x61 <= byte <= 0x7A {
        (byte - 0x20) as u8
    } else {
        byte
    }
}

/// The character of a scancode, or zero: caps lock is for letters, and inverts
/// what shift does.
pub open spec fn character_of(code: u8, modifiers: Modifiers) -> u8 {
    if code >= 64 {
        0
    } else {
        let base = if modifiers.shift {
            SHIFTED@[code as int]
        } else {
            UNSHIFTED@[code as int]
        };
        if modifiers.caps_lock && is_letter(base) {
            if modifiers.shift {
                lowered(base)
            } else {
                raised(base)
            }
        } else {
            base
        }
    }
}

/// The key that has a name of its own, if a scancode is one.
pub open spec fn named(code: u8) -> Option<Key> {
    if code == 0x01 {
        Some(Key::Escape)
    } else if code == 0x0E {
        Some(Key::Backspace)
    } else if code == 0x0F {
        Some(Key::Tab)
    } else if code == 0x1C {
        Some(Key::Enter)
    } else if 0x3B <= code <= 0x44 {
        Some(Key::Function((code - 0x3A) as u8))
    } else if code == 0x57 {
        Some(Key::Function(11))
    } else if code == 0x58 {
        Some(Key::Function(12))
    } else {
        None
    }
}

/// The key of a scancode that went down, and whether it counts.
pub open spec fn pressed(code: u8, extended: bool, modifiers: Modifiers) -> (Key, bool) {
    if named(code) is Some {
        (named(code).unwrap(), true)
    } else if extended {
        (Key::Unknown(code), true)
    } else if character_of(code, modifiers) == 0 {
        (Key::Unknown(code), false)
    } else {
        (Key::Character(character_of(code, modifiers) as char), true)
    }
}

/// Whether a scancode is a modifier.
pub open spec fn is_modifier(code: u8) -> bool {
    code == 0x2A || code == 0x36 || code == 0x1D || code == 0x38 || code == 0x3A
}

/// The modifiers after one of them went down or up.
pub open spec fn held(modifiers: Modifiers, code: u8, released: bool) -> Modifiers {
    if code == 0x2A || code == 0x36 {
        Modifiers { shift: !released, ..modifiers }
    } else if code == 0x1D {
        Modifiers { control: !released, ..modifiers }
    } else if code == 0x38 {
        Modifiers { alt: !released, ..modifiers }
    } else if released {
        modifiers
    } else {
        Modifiers { caps_lock: !modifiers.caps_lock, ..modifiers }
    }
}

/// What a byte comes to: the top bit says that a key went up, and `E0` that the
/// next byte is from the extended set.
pub open spec fn decoded(modifiers: Modifiers, byte: u8) -> Decoded {
    if byte == 0xE0 {
        Decoded {
            modifiers: Modifiers { extended: true, ..modifiers },
            key: None,
            counts: false,
        }
    } else {
        let released = byte >= 0x80;
        let code = byte % 0x80;
        let plain = Modifiers { extended: false, ..modifiers };
        if is_modifier(code) {
            Decoded { modifiers: held(plain, code, released), key: None, counts: false }
        } else if released {
            Decoded { modifiers: plain, key: None, counts: false }
        } else {
            let (key, counts) = pressed(code, modifiers.extended, modifiers);
            Decoded { modifiers: plain, key: Some(key), counts }
        }
    }
}

fn character(code: u8, modifiers: Modifiers) -> (byte: u8)
    ensures
        byte == character_of(code, modifiers),
{
    if code >= 64 {
        return 0;
    }
    let base: u8 = if modifiers.shift {
        SHIFTED[code as usize]
    } else {
        UNSHIFTED[code as usize]
    };
    if !modifiers.caps_lock {
        return base;
    }
    if 0x41 <= base && base <= 0x5A {
        if modifiers.shift {
            base + 0x20
        } else {
            base
        }
    } else if 0x61 <= base && base <= 0x7A {
        if modifiers.shift {
            base
        } else {
            base - 0x20
        }
    } else {
        base
    }
}

/// Decode a byte.
pub fn decode(modifiers: Modifiers, byte: u8) -> (result: Decoded)
    ensures
        result == decoded(modifiers, byte),
{
    let mut after: Modifiers = modifiers;
    if byte == 0xE0 {
        after.extended = true;
        return Decoded { modifiers: after, key: None, counts: false };
    }
    after.extended = false;
    let released: bool = byte >= 0x80;
    let code: u8 = byte % 0x80;
    match code {
        0x2A | 0x36 => {
            after.shift = !released;
            return Decoded { modifiers: after, key: None, counts: false };
        },
        0x1D => {
            after.control = !released;
            return Decoded { modifiers: after, key: None, counts: false };
        },
        0x38 => {
            after.alt = !released;
            return Decoded { modifiers: after, key: None, counts: false };
        },
        0x3A => {
            if !released {
                after.caps_lock = !after.caps_lock;
            }
            return Decoded { modifiers: after, key: None, counts: false };
        },
        _ => {},
    }
    if released {
        return Decoded { modifiers: after, key: None, counts: false };
    }
    let key: Key = match code {
        0x01 => Key::Escape,
        0x0E => Key::Backspace,
        0x0F => Key::Tab,
        0x1C => Key::Enter,
        0x57 => Key::Function(11),
        0x58 => Key::Function(12),
        _ => {
            if 0x3B <= code && code <= 0x44 {
                Key::Function(code - 0x3A)
            } else if modifiers.extended {
                Key::Unknown(code)
            } else {
                let byte: u8 = character(code, modifiers);
                if byte == 0 {
                    return Decoded {
                        modifiers: after,
                        key: Some(Key::Unknown(code)),
                        counts: false,
                    };
                }
                Key::Character(byte as char)
            }
        },
    };
    Decoded { modifiers: after, key: Some(key), counts: true }
}

/// What is queued, what is held, and the counts.
pub struct State {
    queue: ScancodeQueue,
    modifiers: Modifiers,
    received: u64,
    dropped: u64,
    keys: u64,
}

/// The same, as a value.
#[verifier::ext_equal]
pub struct Model {
    pub queue: Seq<u8>,
    pub modifiers: Modifiers,
    /// Scancodes received.
    pub received: u64,
    /// Scancodes dropped.
    pub dropped: u64,
    /// Keys decoded.
    pub keys: u64,
}

impl View for State {
    type V = Model;

    closed spec fn view(&self) -> Model {
        Model {
            queue: self.queue@,
            modifiers: self.modifiers,
            received: self.received,
            dropped: self.dropped,
            keys: self.keys,
        }
    }
}

/// Nothing held.
pub open spec fn nothing_held() -> Modifiers {
    Modifiers {
        shift: false,
        control: false,
        alt: false,
        caps_lock: false,
        extended: false,
    }
}

impl State {
    /// The queue is in order.
    pub closed spec fn wf(&self) -> bool {
        self.queue.wf()
    }

    /// Nothing typed.
    pub fn new() -> (state: Self)
        ensures
            state.wf(),
            state@ == (Model {
                queue: Seq::empty(),
                modifiers: nothing_held(),
                received: 0,
                dropped: 0,
                keys: 0,
            }),
    {
        State {
            queue: ScancodeQueue::new(),
            modifiers: Modifiers {
                shift: false,
                control: false,
                alt: false,
                caps_lock: false,
                extended: false,
            },
            received: 0,
            dropped: 0,
            keys: 0,
        }
    }
}

/// Whether a wait for a scancode is over. A wake-up is looked into, not trusted.
pub fn wait_for_scancode(state: &State) -> (over: bool)
    ensures
        over == (state@.queue.len() > 0),
{
    !state.queue.is_empty()
}

/// Whether a byte is to be taken on this interrupt: there is one, and it is not
/// the mouse's.
pub fn accepts(status: u8) -> (take: bool)
    ensures
        take == (has_byte(status) && !from_mouse(status)),
{
    status % 2 == 1 && (status / 32) % 2 == 0
}

/// Queue the byte that was taken. Whoever waits is woken afterwards, so that it
/// finds the byte there.
pub fn on_interrupt(state: &mut State, byte: u8)
    requires
        old(state).wf(),
    ensures
        final(state).wf(),
        final(state)@ == (Model {
            queue: queued(old(state)@.queue, byte),
            received: counted(old(state)@.received, 1),
            dropped: if old(state)@.queue.len() < QUEUE_CAPACITY {
                old(state)@.dropped
            } else {
                counted(old(state)@.dropped, 1)
            },
            ..old(state)@
        }),
{
    state.received = count(state.received, 1);
    if !state.queue.push(byte) {
        state.dropped = count(state.dropped, 1);
    }
}

/// Take the next key, if the oldest byte is one. A byte that went up, a modifier
/// and the prefix of the extended set are none.
pub fn next_key(state: &mut State) -> (key: Option<Key>)
    requires
        old(state).wf(),
    ensures
        final(state).wf(),
        if old(state)@.queue.len() == 0 {
            key is None && final(state)@ == old(state)@
        } else {
            let result = decoded(old(state)@.modifiers, old(state)@.queue[0]);
            &&& key == result.key
            &&& final(state)@ == Model {
                queue: old(state)@.queue.drop_first(),
                modifiers: result.modifiers,
                keys: if result.counts {
                    counted(old(state)@.keys, 1)
                } else {
                    old(state)@.keys
                },
                ..old(state)@
            }
        },
{
    let byte: u8 = match state.queue.pop() {
        None => return None,
        Some(byte) => byte,
    };
    let result: Decoded = decode(state.modifiers, byte);
    state.modifiers = result.modifiers;
    if result.counts {
        state.keys = count(state.keys, 1);
    }
    result.key
}

/// Whether another byte is to be read away before the keyboard is used, after so
/// many: while one is left the controller raises no interrupt.
pub fn drain_controller(reads: u32, status: u8) -> (again: bool)
    ensures
        again == (reads < DRAINED && has_byte(status)),
{
    reads < DRAINED && status % 2 == 1
}

/// What to do to make the keyboard send, after so many looks at the controller,
/// this one among them: look again while it is not ready, and then tell it. It is
/// told at the last look whether it is ready or not.
pub fn enable_scanning(looks: u32, status: u8) -> (write: Option<Out>)
    ensures
        write == if looks < PATIENCE && !is_ready(status) {
            None
        } else {
            Some(Out { port: DATA_PORT, value: ENABLE_SCANNING })
        },
{
    if looks < PATIENCE && (status / 2) % 2 == 1 {
        None
    } else {
        Some(Out { port: DATA_PORT, value: ENABLE_SCANNING })
    }
}

/// Scancodes received, scancodes dropped, and keys decoded.
pub fn statistics(state: &State) -> (counts: (u64, u64, u64))
    ensures
        counts == (state@.received, state@.dropped, state@.keys),
{
    (state.received, state.dropped, state.keys)
}

/// The queue never holds more than it has room for, whatever comes, and what it
/// holds is the most recent of what came, in order.
pub proof fn law_the_recent_keys_are_kept(queue: Seq<u8>, byte: u8)
    requires
        queue.len() <= QUEUE_CAPACITY,
    ensures
        queued(queue, byte).len() <= QUEUE_CAPACITY,
        queued(queue, byte).last() == byte,
        queued(queue, byte).drop_last() == queue || queued(queue, byte).drop_last()
            == queue.drop_first(),
{
    if queue.len() >= QUEUE_CAPACITY {
        assert(queued(queue, byte).drop_last() =~= queue.drop_first());
    } else {
        assert(queued(queue, byte).drop_last() =~= queue);
    }
}

/// A key that goes up is never a key: what was typed on the way down is not
/// typed again.
pub proof fn law_releases_type_nothing(modifiers: Modifiers, byte: u8)
    requires
        byte >= 0x80,
    ensures
        decoded(modifiers, byte).key is None,
{
}

/// Pressing shift, control or alt and letting it go leaves no trace of it, and
/// caps lock twice is none.
pub proof fn law_modifiers_are_let_go(modifiers: Modifiers, code: u8)
    requires
        is_modifier(code),
    ensures
        ({
            let down = decoded(modifiers, code).modifiers;
            let up = decoded(down, (code + 0x80) as u8).modifiers;
            if code == 0x3A {
                let again = decoded(up, code).modifiers;
                again.caps_lock == modifiers.caps_lock
            } else if code == 0x1D {
                !up.control
            } else if code == 0x38 {
                !up.alt
            } else {
                !up.shift
            }
        }),
{
}

/// Caps lock and shift together type what neither does, for a letter.
pub proof fn law_caps_lock_inverts_shift(code: u8, modifiers: Modifiers)
    requires
        code < 64,
        !modifiers.shift,
        !modifiers.caps_lock,
        is_letter(character_of(code, modifiers)),
    ensures
        character_of(code, Modifiers { shift: true, caps_lock: true, ..modifiers })
            == character_of(code, modifiers),
        character_of(code, Modifiers { shift: true, ..modifiers }) == character_of(
            code,
            Modifiers { caps_lock: true, ..modifiers },
        ),
{
    lemma_letters(code);
}

proof fn lemma_letters(code: u8)
    requires
        code < 64,
    ensures
        is_letter(UNSHIFTED@[code as int]) ==> 0x61 <= UNSHIFTED@[code as int] <= 0x7A
            && SHIFTED@[code as int] == UNSHIFTED@[code as int] - 0x20,
{
}

/// What each key types without shift, row by row, and what it types with shift. No
/// other key types anything.
pub proof fn law_what_the_keys_type()
    ensures
        UNSHIFTED@.subrange(2, 14) == seq![
            0x31u8, 0x32, 0x33, 0x34, 0x35, 0x36, 0x37, 0x38, 0x39, 0x30, 0x2D, 0x3D,
        ],
        UNSHIFTED@.subrange(16, 28) == seq![
            0x71u8, 0x77, 0x65, 0x72, 0x74, 0x79, 0x75, 0x69, 0x6F, 0x70, 0x5B, 0x5D,
        ],
        UNSHIFTED@.subrange(30, 42) == seq![
            0x61u8, 0x73, 0x64, 0x66, 0x67, 0x68, 0x6A, 0x6B, 0x6C, 0x3B, 0x27, 0x60,
        ],
        UNSHIFTED@.subrange(43, 44) == seq![0x5Cu8],
        UNSHIFTED@.subrange(44, 54) == seq![
            0x7Au8, 0x78, 0x63, 0x76, 0x62, 0x6E, 0x6D, 0x2C, 0x2E, 0x2F,
        ],
        UNSHIFTED@.subrange(55, 56) == seq![0x2Au8],
        UNSHIFTED@.subrange(57, 58) == seq![0x20u8],
        SHIFTED@.subrange(2, 14) == seq![
            0x21u8, 0x40, 0x23, 0x24, 0x25, 0x5E, 0x26, 0x2A, 0x28, 0x29, 0x5F, 0x2B,
        ],
        SHIFTED@.subrange(16, 28) == seq![
            0x51u8, 0x57, 0x45, 0x52, 0x54, 0x59, 0x55, 0x49, 0x4F, 0x50, 0x7B, 0x7D,
        ],
        SHIFTED@.subrange(30, 42) == seq![
            0x41u8, 0x53, 0x44, 0x46, 0x47, 0x48, 0x4A, 0x4B, 0x4C, 0x3A, 0x22, 0x7E,
        ],
        SHIFTED@.subrange(43, 44) == seq![0x7Cu8],
        SHIFTED@.subrange(44, 54) == seq![
            0x5Au8, 0x58, 0x43, 0x56, 0x42, 0x4E, 0x4D, 0x3C, 0x3E, 0x3F,
        ],
        SHIFTED@.subrange(55, 56) == seq![0x2Au8],
        SHIFTED@.subrange(57, 58) == seq![0x20u8],
        forall|code: int|
            0 <= code < 64 && (code < 2 || code == 14 || code == 15 || code == 28 || code == 29 || code
                == 42 || code == 54 || code == 56 || code > 57) ==> #[trigger] UNSHIFTED@[code] == 0
                && SHIFTED@[code] == 0,
{
    assert(UNSHIFTED@.subrange(2, 14) =~= seq![
        0x31u8, 0x32, 0x33, 0x34, 0x35, 0x36, 0x37, 0x38, 0x39, 0x30, 0x2D, 0x3D,
    ]);
    assert(UNSHIFTED@.subrange(16, 28) =~= seq![
        0x71u8, 0x77, 0x65, 0x72, 0x74, 0x79, 0x75, 0x69, 0x6F, 0x70, 0x5B, 0x5D,
    ]);
    assert(UNSHIFTED@.subrange(30, 42) =~= seq![
        0x61u8, 0x73, 0x64, 0x66, 0x67, 0x68, 0x6A, 0x6B, 0x6C, 0x3B, 0x27, 0x60,
    ]);
    assert(UNSHIFTED@.subrange(43, 44) =~= seq![0x5Cu8]);
    assert(UNSHIFTED@.subrange(44, 54) =~= seq![
        0x7Au8, 0x78, 0x63, 0x76, 0x62, 0x6E, 0x6D, 0x2C, 0x2E, 0x2F,
    ]);
    assert(UNSHIFTED@.subrange(55, 56) =~= seq![0x2Au8]);
    assert(UNSHIFTED@.subrange(57, 58) =~= seq![0x20u8]);
    assert(SHIFTED@.subrange(2, 14) =~= seq![
        0x21u8, 0x40, 0x23, 0x24, 0x25, 0x5E, 0x26, 0x2A, 0x28, 0x29, 0x5F, 0x2B,
    ]);
    assert(SHIFTED@.subrange(16, 28) =~= seq![
        0x51u8, 0x57, 0x45, 0x52, 0x54, 0x59, 0x55, 0x49, 0x4F, 0x50, 0x7B, 0x7D,
    ]);
    assert(SHIFTED@.subrange(30, 42) =~= seq![
        0x41u8, 0x53, 0x44, 0x46, 0x47, 0x48, 0x4A, 0x4B, 0x4C, 0x3A, 0x22, 0x7E,
    ]);
    assert(SHIFTED@.subrange(43, 44) =~= seq![0x7Cu8]);
    assert(SHIFTED@.subrange(44, 54) =~= seq![
        0x5Au8, 0x58, 0x43, 0x56, 0x42, 0x4E, 0x4D, 0x3C, 0x3E, 0x3F,
    ]);
    assert(SHIFTED@.subrange(55, 56) =~= seq![0x2Au8]);
    assert(SHIFTED@.subrange(57, 58) =~= seq![0x20u8]);
}

/// What a key with a name is, by its number.
pub proof fn law_keys_with_names(code: u8)
    ensures
        named(0x01) == Some(Key::Escape),
        named(0x0E) == Some(Key::Backspace),
        named(0x0F) == Some(Key::Tab),
        named(0x1C) == Some(Key::Enter),
        0x3B <= code <= 0x44 ==> named(code) == Some(Key::Function((code - 0x3A) as u8)),
        named(0x57) == Some(Key::Function(11)),
        named(0x58) == Some(Key::Function(12)),
        code != 0x01 && code != 0x0E && code != 0x0F && code != 0x1C && !(0x3B <= code <= 0x44) && code
            != 0x57 && code != 0x58 ==> named(code) is None,
{
}

/// A key that is pressed is its name, where it has one; otherwise what it types; and
/// a key that types nothing, or comes in after the byte for another set of keys, is its
/// number. Pressing it leaves what is held, but for the byte that came before.
pub proof fn law_what_a_pressed_key_is(modifiers: Modifiers, byte: u8)
    requires
        byte < 0x80,
        byte != 0x2A,
        byte != 0x36,
        byte != 0x1D,
        byte != 0x38,
        byte != 0x3A,
    ensures
        ({
            let result = decoded(modifiers, byte);
            let types = character_of(byte, modifiers);
            &&& result.modifiers == (Modifiers { extended: false, ..modifiers })
            &&& named(byte) is Some ==> result.key == named(byte) && result.counts
            &&& named(byte) is None && modifiers.extended ==> result.key == Some(Key::Unknown(byte))
                && result.counts
            &&& named(byte) is None && !modifiers.extended && types == 0 ==> result.key == Some(
                Key::Unknown(byte),
            ) && !result.counts
            &&& named(byte) is None && !modifiers.extended && types != 0 ==> result.key == Some(
                Key::Character(types as char),
            ) && result.counts
        }),
{
}

/// What is held: the two shift keys, control and alt while they are down; caps lock
/// changes each time it goes down; and the byte 0xE0 only says that the next one is of
/// another set. None of them types anything.
pub proof fn law_what_is_held(modifiers: Modifiers, byte: u8)
    ensures
        ({
            let plain = Modifiers { extended: false, ..modifiers };
            let after = decoded(modifiers, byte).modifiers;
            &&& byte == 0xE0 ==> after == (Modifiers { extended: true, ..modifiers })
            &&& byte == 0x2A || byte == 0x36 ==> after == (Modifiers { shift: true, ..plain })
            &&& byte == 0xAA || byte == 0xB6 ==> after == (Modifiers { shift: false, ..plain })
            &&& byte == 0x1D ==> after == (Modifiers { control: true, ..plain })
            &&& byte == 0x9D ==> after == (Modifiers { control: false, ..plain })
            &&& byte == 0x38 ==> after == (Modifiers { alt: true, ..plain })
            &&& byte == 0xB8 ==> after == (Modifiers { alt: false, ..plain })
            &&& byte == 0x3A ==> after == (Modifiers { caps_lock: !modifiers.caps_lock, ..plain })
            &&& byte == 0xBA ==> after == plain
            &&& byte >= 0x80 && byte != 0xE0 && byte != 0xAA && byte != 0xB6 && byte != 0x9D && byte
                != 0xB8 ==> after == plain
            &&& byte == 0xE0 || byte == 0x2A || byte == 0x36 || byte == 0x1D || byte == 0x38 || byte
                == 0x3A ==> decoded(modifiers, byte).key is None && !decoded(modifiers, byte).counts
        }),
{
}

/// What caps lock and shift make of a key: shift chooses the row, and caps lock turns
/// the case of a letter and of nothing else.
pub proof fn law_what_caps_lock_turns(code: u8, modifiers: Modifiers)
    requires
        code < 64,
    ensures
        ({
            let row = if modifiers.shift {
                SHIFTED@[code as int]
            } else {
                UNSHIFTED@[code as int]
            };
            let letter = 0x41 <= row <= 0x5A || 0x61 <= row <= 0x7A;
            let types = character_of(code, modifiers);
            &&& !modifiers.caps_lock || !letter ==> types == row
            &&& modifiers.caps_lock && 0x41 <= row <= 0x5A && modifiers.shift ==> types == row + 0x20
            &&& modifiers.caps_lock && 0x61 <= row <= 0x7A && !modifiers.shift ==> types == row
                - 0x20
        }),
        forall|above: u8| above >= 64 ==> #[trigger] character_of(above, modifiers) == 0,
{
}

/// The last 64 bytes are kept, in their order: one more puts the oldest out.
pub proof fn law_the_oldest_byte_goes(queue: Seq<u8>, byte: u8, i: int)
    requires
        queue.len() <= 64,
        0 <= i,
    ensures
        queue.len() < 64 && i < queue.len() ==> queued(queue, byte)[i] == queue[i],
        queue.len() == 64 && i < 63 ==> queued(queue, byte)[i] == queue[i + 1],
        queue.len() < 64 ==> queued(queue, byte).len() == queue.len() + 1,
        queue.len() == 64 ==> queued(queue, byte).len() == 64,
{
}

/// The ports of the keyboard, and the byte that lets it scan.
pub proof fn law_ports_of_the_keyboard()
    ensures
        DATA_PORT == 0x60,
        STATUS_PORT == 0x64,
        KEYBOARD_IRQ == 1,
        ENABLE_SCANNING == 0xF4,
        DRAINED == 16,
        PATIENCE == 1000,
        nothing_held() == (Modifiers {
            shift: false,
            control: false,
            alt: false,
            caps_lock: false,
            extended: false,
        }),
{
}

/// A capital and its small letter are each other's, and lie 32 apart; what is no
/// letter stays as it is.
pub proof fn law_capitals_and_small_letters(byte: u8)
    ensures
        65 <= byte <= 90 ==> is_letter(byte) && lowered(byte) == byte + 32 && raised(byte) == byte
            && raised(lowered(byte)) == byte,
        97 <= byte <= 122 ==> is_letter(byte) && raised(byte) == byte - 32 && lowered(byte) == byte
            && lowered(raised(byte)) == byte,
        !(65 <= byte <= 90) && !(97 <= byte <= 122) ==> !is_letter(byte) && lowered(byte) == byte
            && raised(byte) == byte,
{
}

/// Only a key that went down counts: a release, a modifier and the byte that stands
/// in front of another do not.
pub proof fn law_what_counts_as_a_key(modifiers: Modifiers, byte: u8)
    ensures
        byte >= 0x80 ==> !decoded(modifiers, byte).counts && decoded(modifiers, byte).key is None,
        byte == 0x2A || byte == 0x36 || byte == 0x1D || byte == 0x38 || byte == 0x3A ==> !decoded(
            modifiers,
            byte,
        ).counts && decoded(modifiers, byte).key is None,
        decoded(modifiers, byte).counts ==> decoded(modifiers, byte).key is Some,
{
}

} // verus!
