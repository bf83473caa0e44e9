//! USB: the controller, its rings, devices and disks.
use nexus_kernel::drivers::pci;
use nexus_kernel::drivers::pci::BaseAddress;
use nexus_kernel::drivers::usb::interfaces::{read_interfaces, Endpoint, Interfaces};
use nexus_kernel::drivers::usb::{
    attach, attach_next, control, control_in, enumerate, first_packet_size, set_configuration,
    use_of, Attached, Attaching, Pages, Use,
};
use nexus_kernel::drivers::usb_storage;
use nexus_kernel::drivers::usb_storage::verify::{verify, verify_next, Check, Stage as Checking};
use nexus_kernel::drivers::usb_storage::{
    bulk, command, configure, context_index, describe, endpoints, open, open_command, open_next,
    prepare, read, Disk, Opening, Told, Transaction, Trouble as DiskTrouble, Wanted,
};
use nexus_kernel::drivers::xhci;
use nexus_kernel::drivers::xhci::{
    clear_port_changes, look_at, patience, port_count, power, reset, reset_next, speed_name, start,
    survey_ports, wait_for, Action, Capabilities, Found, Outcome, Stage, State, Step, Trouble,
};
use nexus_kernel::drivers::xhci_rings::{
    build, contexts, frames_needed, Consumer, Producer, Store, Trb,
};

fn controller() -> State {
    let mut state = State::new();
    let said = Capabilities {
        length: 0x40,
        params1: 0x0400_0108,
        capparams1: 4,
        doorbell_offset: 0x2000,
        runtime_offset: 0x1000,
    };
    assert_eq!(xhci::adopt(&mut state, Some(0x10_0000), said), Ok(()));
    assert_eq!(xhci::started(&mut state, 1), Ok(()));
    state
}

#[test]
fn speeds_have_names_and_packets() {
    assert_eq!(speed_name(3), "high speed");
    assert_eq!(first_packet_size(2), 8);
    assert_eq!(first_packet_size(3), 64);
    assert_eq!(first_packet_size(4), 512);
}

#[test]
fn troubles_are_told_in_words() {
    assert_eq!(Trouble::NotPresent.text(), "there is no xHCI controller on this machine");
    assert_eq!(Trouble::Stuck(Stage::Halt).text(), "the controller did not halt in time");
    assert_eq!(
        Trouble::PageSize(0x1F0).text(),
        "the controller wants a page size this driver does not use (0x1f0)"
    );
    assert_eq!(
        DiskTrouble::Failed(107).text(),
        "the device refused the command (status 107)"
    );
    assert_eq!(DiskTrouble::TooMuch.text(), "more was asked for than the buffer holds");
}

fn device(class: u8, subclass: u8, interface: u8) -> pci::Device {
    pci::Device {
        address: pci::Address { bus: 0, device: 0, function: 0 },
        vendor: 1,
        device: 2,
        class,
        subclass,
        interface,
        header_type: 0,
        subsystem: 0,
        interrupt_line: 0,
    }
}

#[test]
fn a_controller_is_found() {
    assert_eq!(start(&[device(1, 1, 0), device(0x0C, 3, 0x30)]), Ok(1));
    assert_eq!(start(&[device(1, 1, 0)]), Err(Trouble::NotPresent));
    assert_eq!(start(&[device(0x0C, 3, 0x20), device(0x0C, 3, 0x30)]), Ok(1));
    assert_eq!(start(&[device(0x0C, 3, 0x20), device(0x0C, 3, 0)]), Err(Trouble::NotPresent));
    assert_eq!(xhci::registers(BaseAddress::Port(1)), Err(Trouble::NotMemoryMapped));
    let mut state = State::new();
    let said = Capabilities {
        length: 0,
        params1: 0,
        capparams1: 0,
        doorbell_offset: 0,
        runtime_offset: 0,
    };
    assert_eq!(xhci::adopt(&mut state, None, said), Err(Trouble::WouldNotMap));
    assert_eq!(xhci::started(&mut controller(), 2), Err(Trouble::PageSize(2)));
}

#[test]
fn registers_are_where_the_controller_says() {
    let state = controller();
    assert!(xhci::is_present(&state));
    assert_eq!(port_count(&state), 4);
    let layout = xhci::layout(&state);
    assert_eq!(layout.operational, 0x10_0040);
    assert_eq!(layout.doorbells, 0x10_2000);
    assert_eq!(layout.runtime, 0x10_1000);
    assert_eq!((layout.slots, layout.big_contexts), (8, true));
    assert_eq!(xhci::read_operational(&state, 4), 0x10_0044);
    assert_eq!(xhci::read_port(&state, 2), 0x10_0040 + 0x420);
}

#[test]
fn changes_are_cleared_only_by_name() {
    let state = controller();
    // The other changes are written as zeros, which leaves them.
    let (at, value) = clear_port_changes(&state, 0, 0x007E_0203, 0x0020_0000);
    assert_eq!(at, 0x10_0440);
    assert_eq!(value & 0x007E_0000, 0x0020_0000);
    assert_eq!(value & 0x200, 0x200);
}

#[test]
fn it_is_halted_before_it_is_reset() {
    let (mut stage, first) = reset();
    assert!(matches!(first, Action::Read(_)));
    let mut action = reset_next(&mut stage, Outcome::Value(1)).unwrap();
    let mut seen = Vec::new();
    let mut steps = 0;
    while !matches!(action, Action::Done) {
        steps += 1;
        assert!(steps < 20);
        seen.push(action);
        let outcome = match action {
            Action::Read(_) => Outcome::Value(0),
            _ => Outcome::Done,
        };
        action = reset_next(&mut stage, outcome).unwrap();
    }
    let halted = seen.iter().position(|step| matches!(step, Action::UntilSet(4, 1))).unwrap();
    let asked = seen.iter().position(|step| matches!(step, Action::Write(0, 2))).unwrap();
    assert!(halted < asked);
    let (mut stuck, _) = reset();
    reset_next(&mut stuck, Outcome::Value(1)).unwrap();
    reset_next(&mut stuck, Outcome::Done).unwrap();
    assert_eq!(reset_next(&mut stuck, Outcome::Timeout).err(), Some(Trouble::Stuck(Stage::Halt)));
}

#[test]
fn waits_end() {
    assert_eq!(wait_for(true, 5, 10), Some(true));
    assert_eq!(wait_for(false, 5, 10), None);
    assert_eq!(wait_for(false, 10, 10), Some(false));
    assert!(patience(5) > 5);
}

#[test]
fn ports_are_powered_and_looked_at() {
    assert_eq!(power(0x200), None);
    assert_eq!(power(0), Some(0x200));
    assert!(matches!(look_at(0, false), Found::Empty));
    assert!(matches!(look_at(0x1, false), Found::Reset(_)));
    assert!(matches!(look_at(0x1 | 0x2 | (3 << 10), false), Found::Usable(3)));
    assert!(matches!(look_at(0x1 | (3 << 10), true), Found::Disabled(_)));
    let state = controller();
    let (mut survey, mut step) = survey_ports(&state);
    let mut steps = 0;
    let usable = loop {
        steps += 1;
        assert!(steps < 100);
        step = match step {
            Step::Over(usable) => break usable,
            // One port of the four has a device, and works at once.
            Step::Read(0) => survey.next(0x0E03, true),
            Step::Read(_) => survey.next(0x0200, true),
            _ => survey.next(0, true),
        };
    };
    assert_eq!(usable, 1);
}

#[test]
fn entries_are_taken_apart() {
    let event = Trb { parameter: 0, status: 0x0D00_0010, control: 0x0500_8401 };
    assert_eq!((event.kind(), event.cycle()), (33, true));
    assert_eq!((event.completion(), event.residue(), event.slot()), (13, 0x10, 5));
}

#[test]
fn a_ring_comes_round_and_the_stamp_is_stored_last() {
    let (mut ring, stores) = Producer::new(0x1000);
    assert_eq!(stores[0], Store::Zero { at: 0x1000 });
    assert!(ring.initial_cycle());
    let first = ring.push(0x55, 8, 0x400);
    assert_eq!(first.address, 0x1000);
    assert_eq!(first.stores, vec![
        Store::Long { at: 0x1000, long: 0x55 },
        Store::Word { at: 0x1008, word: 8 },
        Store::Word { at: 0x100C, word: 0x401 },
    ]);
    for _ in 1..255 {
        ring.push(0, 0, 0x400);
    }
    // The last place is the link, and the next entry is the first again, stamped
    // the other way.
    let again = ring.push(0x66, 0, 0x400);
    assert_eq!(again.address, 0x1000);
    assert_eq!(*again.stores.last().unwrap(), Store::Word { at: 0x100C, word: 0x400 });
    assert_eq!(ring.physical(), 0x1000);
}

#[test]
fn nothing_is_read_twice() {
    let (mut events, _) = Consumer::new(0x2000);
    let ready = Trb { parameter: 1, status: 0, control: 1 };
    let stale = Trb { parameter: 1, status: 0, control: 0 };
    assert!(events.pop(stale).is_none());
    assert_eq!(events.dequeue(), 0x2000);
    assert!(events.pop(ready).is_some());
    assert_eq!(events.dequeue(), 0x2010);
    for _ in 1..256 {
        events.pop(ready);
    }
    assert_eq!(events.dequeue(), 0x2000);
    assert!(events.pop(ready).is_none());
    assert!(events.pop(stale).is_some());
}

#[test]
fn rings_are_built_in_pages() {
    let many = frames_needed(8, 2).unwrap();
    let frames: Vec<u64> = (0..many).map(|at| 0x10_0000 + at * 4096).collect();
    let (rings, stores) = build(8, 2, &frames).unwrap();
    assert_eq!(rings.scratchpad_count(), 2);
    assert!(!stores.is_empty());
    assert_eq!(contexts(Some(&rings)), rings.contexts);
    assert_eq!(contexts(None), 0);
    assert!(build(8, 2, &frames[1..]).is_none());
}

fn pages() -> Pages {
    Pages { control: 0x1000, input: 0x2000, output: 0x3000, buffer: 0x4000, command: 0x5000 }
}

fn attached() -> Attached {
    attach(3, 2, 3, pages(), 0x8000, 32).0
}

#[test]
fn a_device_is_described_before_it_is_addressed() {
    let (device, stores) = attach(3, 2, 3, pages(), 0x8000, 32);
    assert_eq!(device.input(), 0x2000);
    assert_eq!(device.buffer_physical(), 0x4000);
    assert_eq!(device.command_physical(), 0x5000);
    assert!(stores.contains(&Store::Word { at: 0x2004, word: 3 }));
    assert!(stores.contains(&Store::Word { at: 0x2020, word: 0x0830_0000 }));
    assert!(stores.contains(&Store::Word { at: 0x2024, word: 0x2_0000 }));
    assert!(stores.contains(&Store::Long { at: 0x8018, long: 0x3000 }));
}

#[test]
fn a_setup_holds_its_parts() {
    let mut device = attached();
    let request = control_in(1, 0, 18);
    assert_eq!((request.direction, request.request, request.value), (0x80, 6, 0x100));
    let stores = control(&mut device, request).ok().unwrap();
    assert_eq!(stores[0], Store::Long { at: 0x1000, long: 0x0012_0000_0100_0680 });
    let large = control_in(1, 0, 5000);
    assert!(control(&mut device, large).is_err());
    device.device.configuration = 7;
    let choose = set_configuration(&device);
    assert_eq!((choose.direction, choose.request, choose.value, choose.length), (0, 9, 7, 0));
}

fn configuration() -> Vec<u8> {
    let mut tree = vec![9, 2, 32, 0, 1, 7, 0, 0x80, 50];
    tree.extend_from_slice(&[9, 4, 0, 0, 2, 8, 6, 0x50, 0]);
    tree.extend_from_slice(&[7, 5, 0x81, 2, 0x00, 0x02, 0]);
    tree.extend_from_slice(&[7, 5, 0x02, 2, 0x00, 0x02, 0]);
    tree
}

#[test]
fn a_device_comes_up_in_four_steps() {
    let mut device = attached();
    let mut stage = Attaching::Addressing;
    let first = attach_next(&mut device, &mut stage, Ok(&[])).ok().unwrap().unwrap();
    assert_eq!((first.value, first.length), (0x100, 18));
    let mut said = vec![0u8; 4096];
    said[8..12].copy_from_slice(&[0x27, 0x06, 0x01, 0x00]);
    let second = attach_next(&mut device, &mut stage, Ok(&said)).ok().unwrap().unwrap();
    assert_eq!((second.value, second.length), (0x200, 9));
    assert_eq!((device.device.vendor, device.device.product), (0x0627, 1));
    let mut tree = configuration();
    tree.resize(4096, 0);
    let third = attach_next(&mut device, &mut stage, Ok(&tree)).ok().unwrap().unwrap();
    assert_eq!(third.length, 32);
    assert!(attach_next(&mut device, &mut stage, Ok(&tree)).ok().unwrap().is_none());
    assert_eq!(device.device.configuration, 7);
    let found = device.device.interfaces;
    assert_eq!(found.bulk_in, Some(Endpoint { number: 1, packet: 512 }));
    assert_eq!(found.bulk_out, Some(Endpoint { number: 2, packet: 512 }));
    assert!(matches!(use_of(&device.device), Use::Disk));
    let mut silent = attached();
    let mut stage = Attaching::Addressing;
    let failed = attach_next(&mut silent, &mut stage, Err(Trouble::NoMemory));
    assert!(failed.is_err());
}

#[test]
fn only_storage_is_believed() {
    let none = Interfaces {
        class: 0,
        subclass: 0,
        protocol: 0,
        interface: 0,
        bulk_in: None,
        bulk_out: None,
    };
    let mut keyboard = configuration();
    keyboard[14] = 3;
    let found = read_interfaces(none, &keyboard);
    assert_eq!((found.bulk_in, found.bulk_out), (None, None));
    assert_eq!(read_interfaces(none, &configuration()).class, 8);
    // A record without a length ends the walk.
    let mut endless = configuration();
    endless[9] = 0;
    assert_eq!(read_interfaces(none, &endless).bulk_in, None);
    let state = controller();
    assert_eq!(enumerate(&state, 0, 0x0E03), Some((1, 3)));
    assert_eq!(enumerate(&state, 0, 0x0E01), None);
}

fn disk_device() -> Attached {
    let mut device = attached();
    device.device.interfaces.bulk_in = Some(Endpoint { number: 1, packet: 512 });
    device.device.interfaces.bulk_out = Some(Endpoint { number: 2, packet: 512 });
    device
}

#[test]
fn endpoints_have_places() {
    assert_eq!(context_index(1, true), 3);
    assert_eq!(context_index(2, false), 4);
    assert_eq!(endpoints(&attached()).err(), Some(DiskTrouble::NoEndpoints));
    let mut device = disk_device();
    let pair = endpoints(&device).ok().unwrap();
    let (rings, stores) = configure(&device, pair, 0x6000, 0x7000, 3, 32);
    assert!(stores.contains(&Store::Word { at: 0x2004, word: 1 | 8 | 16 }));
    assert!(stores.contains(&Store::Word { at: 0x2020, word: 0x2030_0000 }));
    assert!(stores.contains(&Store::Word { at: 0x2024, word: 0x2_0000 }));
    assert!(stores.contains(&Store::Word { at: 0x2080 + 4, word: 54 + 512 * 0x1_0000 }));
    assert!(stores.contains(&Store::Long { at: 0x2080 + 8, long: 0x6001 }));
    assert!(stores.contains(&Store::Word { at: 0x20A0 + 4, word: 22 + 512 * 0x1_0000 }));
    assert!(stores.contains(&Store::Long { at: 0x20A0 + 8, long: 0x7001 }));
    device.in_ring = Some(rings.inward);
    device.out_ring = Some(rings.outward);
    let out = bulk(&mut device, 0x5000, 31, false).ok().unwrap();
    assert_eq!(out.endpoint, 4);
    assert_eq!(out.stores[0], Store::Long { at: 0x7000, long: 0x5000 });
    assert_eq!(out.stores[2], Store::Word { at: 0x700C, word: 0x425 });
    let inward = bulk(&mut device, 0x4000, 36, true).ok().unwrap();
    assert_eq!(inward.endpoint, 3);
    let mut bare = disk_device();
    assert_eq!(bulk(&mut bare, 0, 1, true).err(), Some(DiskTrouble::NoEndpoints));
}

fn status(tag: u32, outcome: u8) -> Vec<u8> {
    let mut bytes = 0x5342_5355u32.to_le_bytes().to_vec();
    bytes.extend_from_slice(&tag.to_le_bytes());
    bytes.extend_from_slice(&[0, 0, 0, 0, outcome]);
    bytes
}

fn disk() -> Disk {
    Disk {
        blocks: 100,
        block_size: 512,
        vendor: b"QEMU    ".to_vec(),
        product: b"QEMU HARDDISK   ".to_vec(),
        tag: 1,
    }
}

#[test]
fn a_command_is_three_transfers() {
    let mut disk = disk();
    let wanted = read(&disk, 5, 1).ok().unwrap();
    let (mut transaction, wrapper) = command(&mut disk, &wanted);
    assert_eq!(disk.tag, 2);
    assert_eq!(wrapper.len(), 64);
    assert_eq!(&wrapper[0..4], b"USBC");
    assert_eq!(&wrapper[4..8], &1u32.to_le_bytes());
    assert_eq!(&wrapper[8..12], &512u32.to_le_bytes());
    assert_eq!(&wrapper[12..15], &[0x80, 0, 10]);
    assert_eq!(&wrapper[15..25], &[0x28, 0, 0, 0, 0, 5, 0, 0, 1, 0]);
    let device = disk_device();
    let mut moved = Vec::new();
    while let Some(transfer) = transaction.next(&device) {
        moved.push((transfer.physical, transfer.length, transfer.reading));
        assert_eq!(transaction.made(true), Ok(()));
    }
    assert_eq!(moved, vec![(0x5000, 31, false), (0x4000, 512, true), (0x5040, 13, true)]);
    assert_eq!(transaction.answered(&status(1, 0)), Ok(()));
    assert_eq!(transaction.answered(&status(2, 0)), Err(DiskTrouble::WrongTag));
    assert_eq!(transaction.answered(&status(1, 1)), Err(DiskTrouble::Failed(1)));
    assert_eq!(transaction.answered(&[0; 13]), Err(DiskTrouble::BadStatus));
    let mut failing: Transaction = command(&mut disk, &wanted).0;
    assert_eq!(failing.made(false), Err(DiskTrouble::Controller));
}

#[test]
fn reads_and_writes_name_the_same_blocks() {
    let disk = disk();
    let one = read(&disk, 0x0102_0304, 8).ok().unwrap();
    let other = usb_storage::write(&disk, 0x0102_0304, 8).ok().unwrap();
    assert_eq!((one.block[0], other.block[0]), (0x28, 0x2A));
    assert_eq!(one.block[1..], other.block[1..]);
    assert_eq!(&one.block[2..6], &[1, 2, 3, 4]);
    assert!(one.reading && !other.reading);
    assert_eq!(read(&disk, 0, 9).err(), Some(DiskTrouble::TooMuch));
}

#[test]
fn a_disk_that_was_just_plugged_in_is_asked_why() {
    let (mut disk, mut stage) = open();
    assert_eq!(disk.tag, 1);
    let mut page = vec![0u8; 64];
    page[8..32].copy_from_slice(b"QEMU    QEMU HARDDISK   ");
    let first = open_command(stage).unwrap();
    assert_eq!((first.block[0], first.block[4], first.data), (0x12, 36, 36));
    open_next(&mut disk, &mut stage, Ok(()), &page).unwrap();
    open_next(&mut disk, &mut stage, Err(DiskTrouble::Failed(1)), &page).unwrap();
    assert_eq!(open_command(stage).unwrap().block[0], 3);
    open_next(&mut disk, &mut stage, Err(DiskTrouble::BadStatus), &page).unwrap();
    assert_eq!(stage, Opening::ReadyAgain);
    open_next(&mut disk, &mut stage, Ok(()), &page).unwrap();
    assert_eq!(open_command(stage).unwrap().block[0], 0x25);
    page[0..8].copy_from_slice(&[0, 0, 0x3F, 0xFF, 0, 0, 2, 0]);
    open_next(&mut disk, &mut stage, Ok(()), &page).unwrap();
    assert!(open_command(stage).is_none());
    assert_eq!((disk.blocks, disk.block_size), (0x4000, 512));
    let shown = describe(&disk);
    assert_eq!((shown.vendor, shown.product), (b"QEMU".to_vec(), b"QEMU HARDDISK".to_vec()));
    assert_eq!(shown.megabytes, 8);
    disk.vendor[0] = 0xFF;
    assert_eq!(describe(&disk).vendor, b"????????".to_vec());
    let (mut other, mut again) = open();
    again = if again == Opening::Inquiry { Opening::ReadyAgain } else { again };
    let failed = open_next(&mut other, &mut again, Err(DiskTrouble::Failed(2)), &page);
    assert_eq!(failed, Err(DiskTrouble::Failed(2)));
}

#[test]
fn a_disk_is_read_and_written_and_read_back() {
    assert!(matches!(verify(7, 512).1, Check::OddShape));
    assert!(matches!(verify(100, 4096).1, Check::OddShape));
    let (mut stage, first) = verify(100, 512);
    assert!(matches!(first, Check::Read(5)));
    let mut probe = vec![0u8; 512];
    probe[0..23].copy_from_slice(b"NEXUS USB SECTOR 000005");
    let written = match verify_next(&mut stage, 100, true, &probe) {
        Check::Write(99, bytes) => bytes,
        _ => panic!("not written"),
    };
    assert_eq!(written.len(), 512);
    assert_eq!(&written[0..26], b"NEXUS WROTE THIS OVER USB.");
    assert!(matches!(verify_next(&mut stage, 100, true, &probe), Check::Read(5)));
    assert!(matches!(verify_next(&mut stage, 100, true, &probe), Check::Read(99)));
    let mut overwritten = Checking::Clearing;
    let elsewhere = verify_next(&mut overwritten, 100, true, &written);
    assert!(matches!(elsewhere, Check::WrongContents(Checking::Clearing)));
    let mut unchanged = stage;
    let stale = verify_next(&mut unchanged, 100, true, &probe);
    assert!(matches!(stale, Check::WrongContents(Checking::ReadingBack)));
    assert!(matches!(verify_next(&mut stage, 100, true, &written), Check::Works));
    let (mut broken, _) = verify(100, 512);
    let failed = verify_next(&mut broken, 100, false, &probe);
    assert!(matches!(failed, Check::CouldNot(Checking::Probing)));
}

#[test]
fn a_port_tells_its_speed() {
    assert_eq!(xhci::port_speed(0x0000_0E03), 3);
    assert_eq!(xhci::port_speed(0xFFFF_C3FF), 0);
}

#[test]
fn endpoints_come_after_the_configuration() {
    assert_eq!(prepare(&attached(), 32).err(), Some(DiskTrouble::NoEndpoints));
    let mut device = disk_device();
    device.device.configuration = 1;
    let port = device.device.port;
    let (mut preparing, first) = prepare(&device, 32).ok().unwrap();
    assert_eq!(first, Wanted::Control(set_configuration(&device)));
    let (stores, next) = preparing.next(&mut device, Told::Done(true)).ok().unwrap();
    assert!(stores.is_empty() && next == Wanted::Page);
    let (stores, next) = preparing.next(&mut device, Told::Page(Some(0x6000))).ok().unwrap();
    assert!(stores.is_empty() && next == Wanted::Page);
    let (stores, next) = preparing.next(&mut device, Told::Page(Some(0x7000))).ok().unwrap();
    assert!(stores.is_empty() && next == Wanted::Port(port - 1));
    let (stores, next) = preparing.next(&mut device, Told::Port(0x0C00)).ok().unwrap();
    let pair = endpoints(&device).ok().unwrap();
    assert_eq!(stores, configure(&device, pair, 0x6000, 0x7000, 3, 32).1);
    assert_eq!(next, Wanted::Configure);
    // The rings are the device's once the controller knows of them.
    assert!(device.in_ring.is_none() && device.out_ring.is_none());
    let (stores, next) = preparing.next(&mut device, Told::Done(true)).ok().unwrap();
    assert!(stores.is_empty() && next == Wanted::Over);
    assert!(device.in_ring.is_some() && device.out_ring.is_some());
}

#[test]
fn endpoints_that_cannot_be_made() {
    let told = [
        Told::Done(true),
        Told::Page(Some(0x6000)),
        Told::Page(Some(0x7000)),
        Told::Port(0x0C00),
    ];
    let refusals =
        [(0, Told::Done(false)), (1, Told::Page(None)), (2, Told::Page(None)), (4, Told::Done(false))];
    for (after, refusal) in refusals {
        let mut device = disk_device();
        let (mut preparing, _) = prepare(&device, 32).ok().unwrap();
        for told in &told[..after] {
            assert!(preparing.next(&mut device, *told).is_ok());
        }
        let refused = preparing.next(&mut device, refusal).err();
        assert_eq!(refused, Some(DiskTrouble::Controller));
        assert!(device.in_ring.is_none() && device.out_ring.is_none());
    }
}
