//! The keyboard, the mouse, the speaker, the clock, the bus and the sound card.
use nexus_kernel::drivers::ac97;
use nexus_kernel::drivers::ac97::{Card, Look, Turn};
use nexus_kernel::drivers::keyboard;
use nexus_kernel::drivers::keyboard::{decode, Key, Modifiers, ScancodeQueue};
use nexus_kernel::drivers::mouse;
use nexus_kernel::drivers::mouse::{Action, Outcome};
use nexus_kernel::drivers::pci::{
    enumerate, probe, read_config, report, write_config, Address, BaseAddress, Device, Registers,
    Scan,
};
use nexus_kernel::drivers::port::{Heard, Out, PortWrite, Want};
use nexus_kernel::drivers::rtc;
use nexus_kernel::drivers::rtc::{Raw, Settled, Settling};
use nexus_kernel::drivers::speaker;

fn none() -> Modifiers {
    Modifiers { shift: false, control: false, alt: false, caps_lock: false, extended: false }
}

fn typed(bytes: &[u8]) -> Vec<Key> {
    let mut state = keyboard::State::new();
    for byte in bytes {
        keyboard::on_interrupt(&mut state, *byte);
    }
    let mut keys = Vec::new();
    while keyboard::wait_for_scancode(&state) {
        keys.extend(keyboard::next_key(&mut state));
    }
    keys
}

#[test]
fn keys_are_decoded() {
    assert_eq!(typed(&[0x1E, 0x9E]), vec![Key::Character('a')]);
    assert_eq!(typed(&[0x2A, 0x1E, 0xAA, 0x1E]), vec![Key::Character('A'), Key::Character('a')]);
    assert_eq!(typed(&[0x02, 0x1C, 0x0E, 0x0F, 0x01]), vec![
        Key::Character('1'),
        Key::Enter,
        Key::Backspace,
        Key::Tab,
        Key::Escape,
    ]);
    assert_eq!(typed(&[0x3B]), vec![Key::Function(1)]);
    assert_eq!(typed(&[0x39]), vec![Key::Character(' ')]);
}

#[test]
fn releases_type_nothing_and_let_go() {
    assert_eq!(typed(&[0x9E, 0x82]), vec![]);
    let held = decode(none(), 0x2A).modifiers;
    assert!(held.shift);
    assert!(!decode(held, 0xAA).modifiers.shift);
    let control = decode(none(), 0x1D).modifiers;
    assert!(control.control);
    assert!(!decode(control, 0x9D).modifiers.control);
}

#[test]
fn caps_lock_inverts_shift_for_letters() {
    let locked = decode(none(), 0x3A).modifiers;
    assert!(locked.caps_lock);
    assert_eq!(decode(locked, 0x1E).key, Some(Key::Character('A')));
    assert_eq!(decode(locked, 0x02).key, Some(Key::Character('1')));
    let both = Modifiers { shift: true, ..locked };
    assert_eq!(decode(both, 0x1E).key, Some(Key::Character('a')));
}

#[test]
fn the_recent_keys_are_kept() {
    let mut queue = ScancodeQueue::new();
    assert!(queue.is_empty());
    for byte in 0..64u8 {
        assert!(queue.push(byte));
    }
    assert!(!queue.push(64));
    assert_eq!(queue.pop(), Some(1));
    let mut state = keyboard::State::new();
    for _ in 0..66 {
        keyboard::on_interrupt(&mut state, 0x1E);
    }
    assert!(keyboard::wait_for_scancode(&state));
    assert_eq!(keyboard::statistics(&state), (66, 2, 0));
}

#[test]
fn the_keyboard_controller() {
    assert!(keyboard::accepts(0x01));
    assert!(!keyboard::accepts(0x00));
    assert!(!keyboard::accepts(0x21));
    assert!(keyboard::drain_controller(0, 0x01));
    assert!(!keyboard::drain_controller(16, 0x01));
    assert!(!keyboard::drain_controller(0, 0x00));
    assert_eq!(keyboard::enable_scanning(0, 0x00), Some(Out { port: 0x60, value: 0xF4 }));
    assert_eq!(keyboard::enable_scanning(1, 0x02), None);
    assert_eq!(keyboard::enable_scanning(999, 0x02), None);
    // It is told all the same.
    let told = Some(Out { port: 0x60, value: 0xF4 });
    assert_eq!(keyboard::enable_scanning(1000, 0x02), told);
}

#[test]
fn movements_are_nine_bits() {
    let mut state = mouse::State::new();
    assert!(state.push(0x08).is_none());
    assert!(state.push(5).is_none());
    let plain = state.push(3).unwrap();
    assert_eq!((plain.dx, plain.dy.abs()), (5, 3));
    assert!(!plain.left && !plain.right && !plain.middle);
    state.push(0x08 | 0x10 | 0x01);
    state.push(0xFE);
    let back = state.push(0).unwrap();
    assert_eq!((back.dx, back.dy, back.left), (-2, 0, true));
}

#[test]
fn the_stream_resynchronises() {
    let mut state = mouse::State::new();
    // Without its marker a byte is no first byte.
    assert!(state.push(0x00).is_none());
    assert!(state.push(0x08).is_none());
    assert!(state.push(1).is_none());
    assert!(state.push(1).is_some());
    assert_eq!(mouse::statistics(&state), (0, 0, 1, 0));
    // A movement that does not fit is not believed.
    for byte in [0x48, 1, 1] {
        assert!(state.push(byte).is_none());
    }
    assert_eq!(mouse::statistics(&state), (0, 0, 1, 1));
}

#[test]
fn movements_go_to_whoever_asked() {
    let mut state = mouse::State::new();
    mouse::route_to(&mut state, 42);
    assert!(mouse::on_interrupt(&mut state, 0x09).is_none());
    mouse::on_interrupt(&mut state, 7);
    let (endpoint, bytes) = mouse::on_interrupt(&mut state, 0).unwrap();
    assert_eq!((endpoint, bytes.len()), (42, 12));
    assert_eq!(&bytes[0..4], &7i32.to_le_bytes());
    assert_eq!(mouse::statistics(&state), (3, 1, 0, 0));
    assert!(mouse::accepts(0x21));
    assert!(!mouse::accepts(0x01));
}

#[test]
fn the_keyboard_stays_configured() {
    let mut state = mouse::State::new();
    let (mut bringup, mut action) = mouse::init();
    let mut written = Vec::new();
    let mut steps = 0;
    loop {
        steps += 1;
        assert!(steps < 40);
        action = match action {
            Action::WaitToWrite => mouse::proceed(&mut state, &mut bringup, Outcome::Done),
            Action::Out(out) => {
                written.push((out.port, out.value));
                mouse::proceed(&mut state, &mut bringup, Outcome::Done)
            }
            Action::Read => {
                // The configuration, and then what the mouse acknowledges.
                let byte = if written.len() < 4 { 0x65 } else { 0xFA };
                mouse::proceed(&mut state, &mut bringup, Outcome::Byte(byte))
            }
            Action::Present => break,
            Action::Absent => panic!("absent"),
        };
    }
    assert!(mouse::is_present(&state));
    assert!(written.contains(&(0x64, 0xA8)));
    // The configuration goes back with the mouse's interrupt on and its clock
    // running, and everything of the keyboard's as it was.
    let at = written.iter().position(|write| *write == (0x64, 0x60)).unwrap();
    assert_eq!(written[at + 1], (0x60, 0x47));
    assert!(mouse::can_write(0x00) && !mouse::can_write(0x02));
    assert!(mouse::can_read(0x01) && !mouse::can_read(0x00));
    // So many looks, and no more.
    assert_eq!(mouse::wait_to_write(0x00, 100_000), mouse::Look::Ready);
    assert_eq!(mouse::wait_to_write(0x02, 99_999), mouse::Look::Again);
    assert_eq!(mouse::wait_to_write(0x02, 100_000), mouse::Look::Never);
    assert_eq!(mouse::read_byte(0x01, 1), mouse::Look::Ready);
    assert_eq!(mouse::read_byte(0x00, 99_999), mouse::Look::Again);
    assert_eq!(mouse::read_byte(0x00, 100_000), mouse::Look::Never);
}

#[test]
fn the_latch_keeps_the_other_bits() {
    assert_eq!(speaker::latch_open(0xA4), Some(Out { port: 0x61, value: 0xA7 }));
    assert_eq!(speaker::latch_open(0xA7), None);
    assert_eq!(speaker::stop(0xA7), Out { port: 0x61, value: 0xA4 });
}

#[test]
fn divisors_are_of_sixteen_bits() {
    let mut state = speaker::State::new();
    let writes = speaker::start(&mut state, 440);
    // 1193182 / 440 is 2711.
    assert_eq!(writes, vec![
        Out { port: 0x43, value: 0xB6 },
        Out { port: 0x42, value: 0x97 },
        Out { port: 0x42, value: 0x0A },
    ]);
    let low = speaker::start(&mut state, 1);
    assert_eq!((low[1].value, low[2].value), (0x0B, 0xE9));
    assert_eq!(speaker::statistics(&state).0, 2);
    assert_eq!(speaker::tone(100), 100);
    assert_eq!(speaker::tone(60_000), 5_000);
}

fn raw() -> Raw {
    Raw { second: 0x59, minute: 0x30, hour: 0x12, day: 0x28, month: 0x02, year: 0x24 }
}

#[test]
fn a_reading_counts_when_the_next_agrees() {
    let mut settling = Settling::new();
    assert!(matches!(settling.sampled(raw()), Settled::Again));
    let mut later = raw();
    later.second = 0x00;
    assert!(matches!(settling.sampled(later), Settled::Again));
    assert!(matches!(settling.sampled(later), Settled::Yes));
    let mut restless = Settling::new();
    let mut last = Settled::Again;
    for second in 0..20 {
        let mut sample = raw();
        sample.second = second;
        last = restless.sampled(sample);
        if matches!(last, Settled::Never) {
            break;
        }
    }
    assert!(matches!(last, Settled::Never));
    assert!(rtc::updating(0x80) && !rtc::updating(0x7F));
    assert_eq!(rtc::index_of(0x8B), 0x0B);
}

#[test]
fn twelve_hours_make_twenty_four() {
    let encoding = rtc::encoding(0x00, 0x92);
    assert!(!encoding.binary && !encoding.twenty_four_hour && encoding.afternoon);
    let numbers = Raw { second: 59, minute: 30, hour: 12, day: 28, month: 2, year: 24 };
    let noon = rtc::read_time(encoding, numbers).unwrap();
    assert_eq!((noon.hour, noon.year, noon.month), (12, 2024, 2));
    let morning = rtc::encoding(0x00, 0x12);
    assert_eq!(rtc::read_time(morning, numbers).unwrap().hour, 0);
    let evening = Raw { hour: 5, ..numbers };
    assert_eq!(rtc::read_time(encoding, evening).unwrap().hour, 17);
    let plain = rtc::encoding(0x06, 0x17);
    assert!(plain.binary && plain.twenty_four_hour);
    let odd = Raw { month: 13, ..numbers };
    assert!(rtc::read_time(plain, odd).is_none());
}

#[test]
fn time_goes_forward() {
    let mut state = rtc::State::new();
    assert!(!rtc::is_present(&state));
    assert_eq!(rtc::now(&state, 10, 1000), None);
    rtc::init(&mut state, 1_000_000, 500);
    assert_eq!(rtc::now(&state, 500, 1000), Some(1_000_000));
    assert_eq!(rtc::now(&state, 3_500, 1000), Some(1_000_003));
}

fn device(vendor: u16, number: u16, class: u8, subclass: u8) -> Device {
    Device {
        address: Address { bus: 0, device: 3, function: 1 },
        vendor,
        device: number,
        class,
        subclass,
        interface: 0,
        header_type: 0,
        subsystem: 0,
        interrupt_line: 11,
    }
}

#[test]
fn addresses_are_apart() {
    let here = Address { bus: 1, device: 3, function: 2 };
    assert_eq!(read_config(here, 0x07), 0x8001_1A04);
    assert_eq!(write_config(here, 0x04, 9), (0x8001_1A04, 9));
    assert_eq!(here.text(), b"01:03.2".to_vec());
    let other = Address { bus: 1, device: 3, function: 3 };
    assert_ne!(read_config(here, 0), read_config(other, 0));
}

#[test]
fn windows_are_read() {
    let found = device(1, 2, 3, 4);
    assert_eq!(found.base_offset(2), 0x18);
    assert_eq!(found.base_address(0xC041, 0), BaseAddress::Port(0xC040));
    assert_eq!(
        found.base_address(0xFEBD_0004, 2),
        BaseAddress::Memory { base: 0x2_FEBD_0000, sixty_four: true }
    );
    assert_eq!(
        found.base_address(0xFEBD_0008, 2),
        BaseAddress::Memory { base: 0xFEBD_0000, sixty_four: false }
    );
    assert_eq!(found.enable(0xFFFF_0100), 0x0107);
}

#[test]
fn walks_along_capabilities_end() {
    let found = device(1, 2, 3, 4);
    assert_eq!(found.capabilities(0, 0x40).next(), None);
    let mut walk = found.capabilities(0x0010_0000, 0x43);
    assert_eq!(walk.next(), Some(0x40));
    let first = walk.look(0x0000_5009);
    assert_eq!((first.offset, first.identifier), (0x40, 9));
    assert_eq!(walk.next(), Some(0x50));
    // Two that point at each other are looked at so often and no more.
    let mut looks = 0;
    while let Some(at) = walk.next() {
        walk.look(if at == 0x50 { 0x6009 } else { 0x5009 });
        looks += 1;
    }
    assert_eq!(looks, 63);
}

#[test]
fn devices_are_probed() {
    let here = Address { bus: 0, device: 0, function: 0 };
    let registers = Registers {
        identity: 0x1001_1AF4,
        classes: 0x0102_0304,
        header: 0x0080_0000,
        subsystem: 0x0002_1AF4,
        interrupt: 0x0000_010B,
    };
    let found = probe(here, &registers).unwrap();
    assert_eq!((found.vendor, found.device, found.subsystem), (0x1AF4, 0x1001, 2));
    assert_eq!((found.class, found.subclass, found.interface), (1, 2, 3));
    assert_eq!((found.header_type, found.interrupt_line), (0x80, 11));
    assert_eq!(report(&found).1, "storage controller");
    assert_eq!(device(1, 2, 0x06, 0x04).describe(), "PCI-to-PCI bridge");
    let absent = Registers { identity: 0xFFFF_FFFF, ..registers };
    assert!(probe(here, &absent).is_none());
}

#[test]
fn every_function_has_a_place() {
    let mut scan = Scan::new();
    let mut asked = 0u32;
    while let Some(address) = scan.next() {
        asked += 1;
        let answer = if address.device == 3 && address.function == 0 && address.bus == 0 {
            Some(Device { address, header_type: 0x80, ..device(1, 2, 3, 4) })
        } else {
            None
        };
        scan.answered(answer);
    }
    // Where the first function does not answer, the others are not asked.
    assert!(asked >= 256 * 32);
    assert_eq!(enumerate(scan).len(), 1);
}

fn card() -> Card {
    Card { bus: 0xC400, list: 0x10_0000, buffer: 0x20_0000 }
}

#[test]
fn the_sound_card_is_found_and_started() {
    assert_eq!(ac97::find(&[device(0x8086, 0x2415, 4, 1)]), Some(0));
    assert_eq!(ac97::find(&[device(0x1234, 0x2415, 4, 1)]), None);
    let ports = ac97::windows(BaseAddress::Port(0xC000), BaseAddress::Port(0xC400));
    assert_eq!(ports, Some((0xC000, 0xC400)));
    let memory = BaseAddress::Memory { base: 0, sixty_four: false };
    assert_eq!(ac97::windows(memory, BaseAddress::Port(1)), None);
    assert!(ac97::can_reach(0x1000, 0x2000));
    assert!(!ac97::can_reach(0x1_0000_0000, 0x2000));
    assert!(matches!(ac97::codec_ready(0x100, 0), Look::Ready));
    assert!(matches!(ac97::codec_ready(0, 0), Look::Again));
    assert!(matches!(ac97::codec_ready(0, 100_000), Look::Never));
    assert!(!ac97::configure(0xC000, 0xC400).is_empty());
    assert!(ac97::still_resetting(0x02, 0));
    assert!(!ac97::still_resetting(0x00, 0));
}

#[test]
fn the_codec_is_spoken_to_once_it_is_ready() {
    let mut state = ac97::State::new();
    let (mut bringing, first) = ac97::bring_up(0xC000, 0xC400);
    assert_eq!(first, Turn::Want(Want::Block(0)));
    let (writes, next) = bringing.heard(&mut state, Heard::Block(Some(0x10_0000)));
    assert!(writes.is_empty());
    assert_eq!(next, Turn::Want(Want::Block(5)));
    let (writes, next) = bringing.heard(&mut state, Heard::Block(Some(0x20_0000)));
    assert_eq!(writes, vec![PortWrite::Long { port: 0xC42C, long: 2 }]);
    assert_eq!(next, Turn::Want(Want::Read32(0xC430)));
    for _ in 0..99_999 {
        let (writes, next) = bringing.heard(&mut state, Heard::Read(0xFFFF_FEFF));
        assert!(writes.is_empty());
        assert_eq!(next, Turn::Again(Want::Read32(0xC430)));
    }
    let (writes, next) = bringing.heard(&mut state, Heard::Read(0x100));
    assert_eq!(writes, vec![
        PortWrite::Word { port: 0xC000, word: 0 },
        PortWrite::Word { port: 0xC002, word: 0 },
        PortWrite::Word { port: 0xC018, word: 0 },
        PortWrite::Byte { port: 0xC41B, byte: 2 },
    ]);
    assert_eq!(next, Turn::Want(Want::Read8(0xC41B)));
    let (writes, next) = bringing.heard(&mut state, Heard::Read(2));
    assert!(writes.is_empty());
    assert_eq!(next, Turn::Again(Want::Read8(0xC41B)));
    assert!(!ac97::is_present(&state));
    let (writes, next) = bringing.heard(&mut state, Heard::Read(0));
    assert!(writes.is_empty());
    assert_eq!(next, Turn::Up);
    assert!(ac97::is_present(&state));
}

#[test]
fn a_sound_card_that_cannot_be_used() {
    let mut state = ac97::State::new();
    let (mut bare, _) = ac97::bring_up(0xC000, 0xC400);
    assert_eq!(bare.heard(&mut state, Heard::Block(None)), (vec![], Turn::Down));
    let (mut small, _) = ac97::bring_up(0xC000, 0xC400);
    small.heard(&mut state, Heard::Block(Some(0x1000)));
    assert_eq!(small.heard(&mut state, Heard::Block(None)), (vec![], Turn::Down));
    // The card would play something else.
    let (mut high, _) = ac97::bring_up(0xC000, 0xC400);
    high.heard(&mut state, Heard::Block(Some(0x1000)));
    let past = Heard::Block(Some(0x1_0000_0000 - 131_072));
    assert_eq!(high.heard(&mut state, past), (vec![], Turn::Down));
    // There is no codec behind the controller.
    let (mut mute, _) = ac97::bring_up(0xC000, 0xC400);
    mute.heard(&mut state, Heard::Block(Some(0x1000)));
    mute.heard(&mut state, Heard::Block(Some(0x2000)));
    for _ in 0..99_999 {
        let (writes, next) = mute.heard(&mut state, Heard::Read(0));
        assert!(writes.is_empty() && next == Turn::Again(Want::Read32(0xC430)));
    }
    assert_eq!(mute.heard(&mut state, Heard::Read(0)), (vec![], Turn::Down));
    assert!(!ac97::is_present(&state));
}

#[test]
fn a_stream_that_never_resets_is_used() {
    let mut state = ac97::State::new();
    let (mut bringing, _) = ac97::bring_up(0xC000, 0xC400);
    bringing.heard(&mut state, Heard::Block(Some(0x1000)));
    bringing.heard(&mut state, Heard::Block(Some(0x2000)));
    bringing.heard(&mut state, Heard::Read(0x100));
    for _ in 0..99_999 {
        let (writes, next) = bringing.heard(&mut state, Heard::Read(2));
        assert!(writes.is_empty() && next == Turn::Again(Want::Read8(0xC41B)));
    }
    assert_eq!(bringing.heard(&mut state, Heard::Read(2)), (vec![], Turn::Up));
    assert!(ac97::is_present(&state));
}

#[test]
fn the_list_covers_the_tone() {
    let mut state = ac97::State::new();
    assert!(ac97::tone(&mut state, 440, 100).is_none());
    ac97::init(&mut state, card());
    assert!(ac97::is_present(&state));
    let tone = ac97::tone(&mut state, 440, 100).unwrap();
    assert_eq!(tone.frames, 4800);
    assert_eq!(tone.samples.len(), 9600);
    let counted: u64 = tone.list.iter().map(|entry| entry.samples as u64).sum();
    assert_eq!(counted, 9600);
    assert_eq!(tone.list[0].address, 0x20_0000);
    assert!(tone.samples.iter().all(|sample| *sample == 8192 || *sample == -8192));
    // The engine is started last.
    assert!(matches!(tone.writes.last(), Some(PortWrite::Byte { .. })));
    // One tone at a time.
    assert!(ac97::tone(&mut state, 440, 100).is_none());
    ac97::finished(&mut state, card(), 4800, true);
    assert_eq!(ac97::statistics(&state).0, 1);
    assert!(ac97::tone(&mut state, 440, 100).is_some());
}

#[test]
fn the_end_of_a_tone_is_waited_for() {
    let mut wait = ac97::waiting(1000, 100);
    assert!(wait.deadline > 1100);
    assert_eq!(ac97::wait_for_end(&mut wait, 100, 0, 0, 1001), None);
    let late = wait.deadline;
    assert!(ac97::wait_for_end(&mut wait, 100, 0, 0, late).is_some());
}
