//! The virtio devices.
use nexus_kernel::drivers::pci::{Address, BaseAddress, Device};
use nexus_kernel::drivers::port::{Heard, PortWrite, Want};
use nexus_kernel::drivers::virtio::{
    find, give_up, next_index, notice, order_for, place_queue, queue_layout, ready, Deed, Look, Step,
};
use nexus_kernel::drivers::virtio_blk;
use nexus_kernel::drivers::virtio_blk::{BlockError, Found, Waiting};
use nexus_kernel::drivers::virtio_gpu;
use nexus_kernel::drivers::virtio_gpu::{
    BringUp, Pages, Screen, Stage, Wanted, Window, Windows,
};
use nexus_kernel::drivers::virtio_net;
use nexus_kernel::drivers::virtio_net::{Card, NetError, Used};
use nexus_kernel::framebuffer::PixelFormat;

fn device(vendor: u16, number: u16, subsystem: u16) -> Device {
    Device {
        address: Address { bus: 0, device: 0, function: 0 },
        vendor,
        device: number,
        class: 1,
        subclass: 0,
        interface: 0,
        header_type: 0,
        subsystem,
        interrupt_line: 11,
    }
}

#[test]
fn the_parts_of_a_queue_are_apart() {
    let layout = queue_layout(256);
    assert_eq!((layout.available, layout.used, layout.bytes), (4096, 8192, 8192 + 2054));
    let small = queue_layout(8);
    assert_eq!((small.available, small.used, small.bytes), (128, 4096, 4096 + 70));
}

#[test]
fn the_order_is_the_least() {
    assert_eq!(order_for(0), 0);
    assert_eq!(order_for(4096), 0);
    assert_eq!(order_for(4097), 1);
    assert_eq!(order_for(65_536), 4);
    assert_eq!(order_for(1 << 63), 51);
}

#[test]
fn the_ring_comes_round() {
    assert_eq!(next_index(7), 8);
    assert_eq!(next_index(0xFFFF), 0);
}

#[test]
fn a_device_is_noticed_in_order() {
    assert_eq!(find(&[device(1, 2, 3), device(0x1AF4, 0x1001, 0)], 2, 0x1001), Some(1));
    assert_eq!(find(&[device(0x1AF4, 0x9999, 2)], 2, 0x1001), Some(0));
    assert_eq!(find(&[device(0x1AF5, 0x1001, 2)], 2, 0x1001), None);
    assert_eq!(notice(0xC000), vec![
        PortWrite::Byte { port: 0xC012, byte: 0 },
        PortWrite::Byte { port: 0xC012, byte: 1 },
        PortWrite::Byte { port: 0xC012, byte: 3 },
    ]);
    assert_eq!(ready(0xC000), PortWrite::Byte { port: 0xC012, byte: 7 });
    assert_eq!(give_up(0xC000), PortWrite::Byte { port: 0xC012, byte: 0x80 });
    assert_eq!(place_queue(0xC000, 0x12_3000), PortWrite::Long { port: 0xC008, long: 0x123 });
}

fn disk() -> virtio_blk::State {
    let mut state = virtio_blk::State::new();
    let found = Found {
        port: 0xC000,
        queue_size: 8,
        queue: 0x10_0000,
        scratch: 0x20_0000,
        flushes: true,
        line: 11,
        low: 100,
        high: 0,
    };
    assert_eq!(virtio_blk::adopt(&mut state, found), 100);
    state
}

#[test]
fn the_disk_is_found() {
    assert_eq!(virtio_blk::init(&[device(1, 2, 3)]), Err(BlockError::NoDevice));
    assert_eq!(virtio_blk::init(&[device(0x1AF4, 0x1001, 0)]), Ok(0));
    assert_eq!(virtio_blk::port_of(BaseAddress::Port(0xC000)), Ok(0xC000));
    let memory = BaseAddress::Memory { base: 0xFE00_0000, sixty_four: true };
    let error = virtio_blk::port_of(memory).err().unwrap();
    assert_eq!(
        error.text(),
        "the device is behind a 64-bit memory window at 0xfe000000, not a port window"
    );
    let (flushes, writes) = virtio_blk::agree(0xC000, 0xFFFF_FFFF);
    assert!(flushes);
    assert_eq!(writes, vec![
        PortWrite::Long { port: 0xC004, long: 512 },
        PortWrite::Word { port: 0xC00E, word: 0 },
    ]);
    assert_eq!(virtio_blk::agree(0xC000, 0xFFFF_FDFF).1[0], PortWrite::Long {
        port: 0xC004,
        long: 0
    });
    assert_eq!(virtio_blk::plan_queue(0), Err(BlockError::QueueTooLarge(0)));
    assert_eq!(virtio_blk::plan_queue(257), Err(BlockError::QueueTooLarge(257)));
    assert!(virtio_blk::plan_queue(256).is_ok());
}

#[test]
fn disk_errors_are_told_in_words() {
    assert_eq!(BlockError::QueueTooLarge(512).text(), "the device wants a queue of 512");
    assert_eq!(BlockError::BadLength.text(), "a request carries between one and 8 whole sectors");
    assert_eq!(BlockError::Failed(0).text(), "the device reported status 0");
    assert_eq!(BlockError::Timeout.text(), "the device never completed the request");
    assert_eq!(BlockError::OutOfMemory.text(), "out of memory for the virtqueue");
}

#[test]
fn requests_stay_on_the_disk() {
    let state = disk();
    assert_eq!(virtio_blk::capacity(&state), 100);
    assert_eq!(virtio_blk::check_length(0), Err(BlockError::BadLength));
    assert_eq!(virtio_blk::check_length(513), Err(BlockError::BadLength));
    assert_eq!(virtio_blk::check_length(4608), Err(BlockError::BadLength));
    assert_eq!(virtio_blk::check_length(4096), Ok(8));
    assert!(virtio_blk::read_sectors(&state, 92, 4096).is_ok());
    assert_eq!(virtio_blk::read_sectors(&state, 93, 4096).err(), Some(BlockError::OutOfRange));
    assert_eq!(virtio_blk::read_sectors(&state, 100, 512).err(), Some(BlockError::OutOfRange));
    assert_eq!(virtio_blk::write_sectors(&state, u64::MAX, 512).err(), Some(BlockError::OutOfRange));
    let none = virtio_blk::State::new();
    assert_eq!(virtio_blk::read_sectors(&none, 0, 512).err(), Some(BlockError::NoDevice));
    assert_eq!(virtio_blk::read_sectors(&none, 0, 5).err(), Some(BlockError::BadLength));
    assert_eq!(virtio_blk::flush(&none).err(), Some(BlockError::NoDevice));
}

#[test]
fn a_read_is_three_descriptors() {
    let state = disk();
    let request = virtio_blk::read_sectors(&state, 5, 1024).ok().unwrap();
    let steps = &request.steps;
    assert_eq!(steps[0], Step::Word { at: 0x20_0000, word: 0 });
    assert_eq!(steps[2], Step::Long { at: 0x20_0008, long: 5 });
    assert_eq!(steps[3], Step::Byte { at: 0x20_0400, byte: 0xFF });
    // The device writes the data of a read.
    assert_eq!(steps[8], Step::Long { at: 0x10_0010, long: 0x20_1000 });
    assert_eq!(steps[9], Step::Word { at: 0x10_0018, word: 1024 });
    assert_eq!(steps[10], Step::Half { at: 0x10_001C, half: 3 });
    assert_eq!(steps[14], Step::Half { at: 0x10_002C, half: 2 });
    assert_eq!(steps.len(), 16);
    let write = virtio_blk::write_sectors(&state, 5, 1024).ok().unwrap();
    assert_eq!(write.steps[4], Step::Data { at: 0x20_1000, length: 1024 });
    assert_eq!(write.steps[11], Step::Half { at: 0x10_001C, half: 1 });
}

#[test]
fn the_index_comes_after_the_entry() {
    let mut state = disk();
    let steps = virtio_blk::submit(&mut state, 9).unwrap();
    assert_eq!(steps, vec![
        Step::Half { at: 0x10_0080 + 4 + 2, half: 0 },
        Step::Sample,
        Step::Fence,
        Step::Half { at: 0x10_0082, half: 10 },
        Step::Fence,
        Step::Port(PortWrite::Word { port: 0xC010, word: 0 }),
    ]);
    assert_eq!(virtio_blk::wait_statistics(&state).requests, 1);
    assert!(virtio_blk::submit(&mut virtio_blk::State::new(), 0).is_none());
}

#[test]
fn single_sectors_are_cut_and_filled_up() {
    let state = disk();
    let (read, taken) = virtio_blk::read_sector(&state, 3, 100).ok().unwrap();
    assert_eq!((read.length, taken), (512, 100));
    assert_eq!(virtio_blk::read_sector(&state, 3, 1000).ok().unwrap().1, 512);
    let (write, whole) = virtio_blk::write_sector(&state, 3, b"abc").ok().unwrap();
    assert_eq!((write.length, whole.len()), (512, 512));
    assert_eq!(&whole[0..4], b"abc\0");
}

#[test]
fn one_request_at_a_time() {
    let mut state = disk();
    assert!(virtio_blk::acquire(&mut state));
    assert!(!virtio_blk::acquire(&mut state));
    virtio_blk::release(&mut state);
    assert!(virtio_blk::acquire(&mut state));
}

#[test]
fn a_request_is_waited_for_by_looking_first() {
    let mut state = disk();
    let mut wait = virtio_blk::wait_for_completion(4, 77);
    assert_eq!(wait.waiting, Waiting::Handoff(400_000));
    assert_eq!(virtio_blk::look(&mut state, &mut wait, 4, true), Look::Again);
    assert_eq!(virtio_blk::look(&mut state, &mut wait, 5, true), Look::Done);
    wait.waiting = Waiting::Handoff(1);
    assert_eq!(virtio_blk::look(&mut state, &mut wait, 4, true), Look::Again);
    assert_eq!(wait.waiting, Waiting::Spinning(0));
    wait.waiting = Waiting::Spinning(49_999_999);
    assert_eq!(virtio_blk::look(&mut state, &mut wait, 4, true), Look::TimedOut);
    // Only one that was seen to interrupt is slept for.
    assert!(!virtio_blk::adopt_interrupt(&mut state));
    assert!(!virtio_blk::on_interrupt(&mut state, 0));
    assert!(!virtio_blk::adopt_interrupt(&mut state));
    assert!(virtio_blk::on_interrupt(&mut state, 1));
    assert!(virtio_blk::adopt_interrupt(&mut state));
    assert_eq!(virtio_blk::interrupt_statistics(&state), (1, true));
    wait.waiting = Waiting::Handoff(1);
    virtio_blk::look(&mut state, &mut wait, 4, true);
    assert_eq!(virtio_blk::look(&mut state, &mut wait, 4, true), Look::Sleep(77));
    virtio_blk::slept(&mut wait, 78);
    assert_eq!(virtio_blk::look(&mut state, &mut wait, 4, true), Look::Sleep(78));
    assert_eq!(virtio_blk::look(&mut state, &mut wait, 5, true), Look::Done);
    let counts = virtio_blk::wait_statistics(&state);
    assert_eq!((counts.poll_completions, counts.wait_attempts), (1, 2));
}

#[test]
fn requests_are_finished_and_counted() {
    let mut state = disk();
    let read = virtio_blk::read_sectors(&state, 0, 1024).ok().unwrap();
    let write = virtio_blk::write_sectors(&state, 0, 512).ok().unwrap();
    let flush = virtio_blk::flush(&state).ok().unwrap().unwrap();
    assert_eq!(flush.steps.len(), 12);
    assert_eq!(flush.steps[0], Step::Word { at: 0x20_0000, word: 4 });
    assert_eq!(virtio_blk::finish(&mut state, &read, Some(0)), Ok(()));
    assert_eq!(virtio_blk::finish(&mut state, &write, Some(0)), Ok(()));
    assert_eq!(virtio_blk::finish(&mut state, &flush, Some(0)), Ok(()));
    assert_eq!(virtio_blk::finish(&mut state, &read, Some(1)), Err(BlockError::Failed(1)));
    assert_eq!(virtio_blk::finish(&mut state, &read, None), Err(BlockError::Timeout));
    assert_eq!(virtio_blk::statistics(&state), (2, 1));
    assert_eq!(virtio_blk::flush_statistics(&state), (1, true));
    // A flush that was refused or timed out was asked for all the same.
    assert_eq!(virtio_blk::finish(&mut state, &flush, Some(1)), Err(BlockError::Failed(1)));
    assert_eq!(virtio_blk::flush_statistics(&state), (2, true));
    assert_eq!(virtio_blk::finish(&mut state, &flush, None), Err(BlockError::Timeout));
    assert_eq!(virtio_blk::flush_statistics(&state), (3, true));
    assert_eq!(virtio_blk::statistics(&state), (2, 1));
    assert_eq!(virtio_blk::interrupt_line(&state), Some(11));
    assert_eq!(virtio_blk::reason_port(&state), Some(0xC013));
    assert!(virtio_blk::is_present(&state));
}

fn card() -> (virtio_net::State, Vec<Step>) {
    let (receive, steps) = virtio_net::set_up_queue(0xC000, 0, 32, 64, 0x10_0000, 0x40_0000);
    // The address, and four writes for each buffer.
    assert_eq!(steps.len(), 1 + 4 * 32);
    assert_eq!(steps[0], Step::Port(PortWrite::Long { port: 0xC008, long: 0x100 }));
    assert_eq!(steps[5], Step::Long { at: 0x10_0010, long: 0x40_0800 });
    assert_eq!(steps[7], Step::Half { at: 0x10_001C, half: 2 });
    let (transmit, _) = virtio_net::set_up_queue(0xC000, 1, 8, 64, 0x20_0000, 0x60_0000);
    let mut state = virtio_net::State::new();
    let card = Card { port: 0xC000, receive, transmit, mac: [2, 0, 0, 0, 0, 1] };
    let started = virtio_net::adopt(&mut state, card, 10);
    (state, started)
}

#[test]
fn every_buffer_is_offered() {
    let (state, steps) = card();
    assert_eq!(steps.len(), 1 + 4 * 32 + 1);
    assert_eq!(steps[0], Step::Port(PortWrite::Byte { port: 0xC012, byte: 7 }));
    // Each entry, and then the index that shows it.
    assert_eq!(steps[1 + 4 * 5], Step::Half { at: 0x10_0400 + 4 + 10, half: 5 });
    assert_eq!(steps[1 + 4 * 5 + 2], Step::Half { at: 0x10_0402, half: 6 });
    assert_eq!(steps[129], Step::Port(PortWrite::Word { port: 0xC010, word: 0 }));
    assert_eq!(virtio_net::address(&state), Some([2, 0, 0, 0, 0, 1]));
    assert_eq!(virtio_net::interrupt_line(&state), Some(10));
    assert!(virtio_net::is_present(&state));
}

#[test]
fn the_card_is_found() {
    assert_eq!(virtio_net::init(&[device(1, 2, 3)]), Err(NetError::NoDevice));
    assert_eq!(virtio_net::init(&[device(0x1AF4, 0x1000, 9)]), Ok(0));
    let memory = BaseAddress::Memory { base: 0, sixty_four: false };
    assert_eq!(virtio_net::port_of(memory), Err(NetError::NotPortMapped));
    assert_eq!(virtio_net::agree(0xC000, 0xFFFF_FFFF).0, 32);
    assert_eq!(virtio_net::agree(0xC000, 0xFFFF_FFDF).0, 0);
    assert_eq!(virtio_net::plan_queue(16, 32), Err(NetError::QueueSize(16)));
    assert_eq!(virtio_net::plan_queue(0, 0), Err(NetError::QueueSize(0)));
    let plan = virtio_net::plan_queue(256, 32).ok().unwrap();
    assert_eq!((plan.order, plan.buffer_order), (2, 4));
    assert_eq!(virtio_net::address_port(0xC000, 5), 0xC019);
    assert_eq!(NetError::TooLong(2000).text(), "a frame of 2000 bytes is too long");
    assert_eq!(NetError::QueueSize(3).text(), "a queue of 3 cannot be used");
    assert_eq!(NetError::OutOfMemory.text(), "not enough memory for the queues");
    assert_eq!(NetError::Timeout.text(), "the device did not take the frame");
}

#[test]
fn a_frame_goes_out() {
    let (mut state, _) = card();
    assert_eq!(virtio_net::transmit(&state, 1515, 0).err(), Some(NetError::TooLong(1515)));
    let none = virtio_net::State::new();
    assert_eq!(virtio_net::transmit(&none, 60, 0).err(), Some(NetError::NoDevice));
    let steps = virtio_net::transmit(&state, 60, 3).ok().unwrap();
    assert_eq!(steps[0], Step::Zeros { at: 0x60_0000, many: 10 });
    assert_eq!(steps[1], Step::Data { at: 0x60_000A, length: 60 });
    assert_eq!(steps[3], Step::Word { at: 0x20_0008, word: 70 });
    assert_eq!(steps[6], Step::Sample);
    assert_eq!(*steps.last().unwrap(), Step::Port(PortWrite::Word { port: 0xC010, word: 1 }));
    assert!(virtio_net::acquire(&mut state));
    assert!(!virtio_net::acquire(&mut state));
    let mut wait = virtio_net::wait_for_send(&state, 3, 9, true);
    assert_eq!(wait.look(3), Look::Again);
    assert_eq!(wait.look(4), Look::Done);
    wait.spins = Some(49_999_999);
    assert_eq!(wait.look(3), Look::TimedOut);
    assert_eq!(virtio_net::sent(&mut state, false), Err(NetError::Timeout));
    assert_eq!(virtio_net::sent(&mut state, true), Ok(()));
    virtio_net::release(&mut state);
    assert!(!virtio_net::adopt_interrupt(&mut state));
    assert!(!virtio_net::on_interrupt(&mut state, 0));
    assert!(virtio_net::on_interrupt(&mut state, 1));
    assert!(virtio_net::adopt_interrupt(&mut state));
    assert!(!virtio_net::adopt_interrupt(&mut state));
    assert!(virtio_net::is_blocking(&state));
    let mut sleeping = virtio_net::wait_for_send(&state, 3, 9, true);
    assert_eq!(sleeping.look(3), Look::Sleep(9));
    assert_eq!(virtio_net::statistics(&state), (0, 1, 0, 1));
}

#[test]
fn buffers_go_back() {
    let (mut state, _) = card();
    assert!(!virtio_net::has_frame_waiting(&state, 0));
    assert!(virtio_net::has_frame_waiting(&state, 1));
    assert_eq!(virtio_net::receive(&state, 0), None);
    assert_eq!(virtio_net::receive(&state, 1), Some(0x10_0000 + 4096 + 4));
    let entry = Used { index: 7, length: 110 };
    let frame = virtio_net::take(&mut state, entry, 60, 32).unwrap();
    assert_eq!((frame.from, frame.bytes), (0x40_0000 + 7 * 2048 + 10, 60));
    assert_eq!(frame.steps[0], Step::Half { at: 0x10_0400 + 4 + 64, half: 7 });
    assert_eq!(frame.steps.len(), 5);
    // What did not fit is counted, and the next frame is the next entry.
    assert_eq!(virtio_net::statistics(&state), (1, 0, 1, 0));
    assert!(!virtio_net::has_frame_waiting(&state, 1));
    assert_eq!(virtio_net::receive(&state, 2), Some(0x10_0000 + 4096 + 12));
    let short = virtio_net::take(&mut state, Used { index: 0, length: 4 }, 60, 33).unwrap();
    assert_eq!(short.bytes, 0);
    let long = virtio_net::take(&mut state, Used { index: 0, length: 9000 }, 4000, 33).unwrap();
    assert_eq!(long.bytes, 1514);
}

#[test]
fn capabilities_say_where_the_structures_are() {
    let mut windows = Windows::new();
    windows.look(0x11, 0x0100_0009, 0, 0, 0, 0);
    assert!(windows.needed().is_none());
    windows.look(0x09, 0x0100_0009, 0xAB04, 0x1000, 0x38, 77);
    windows.look(0x09, 0x0200_0009, 4, 0x3000, 0x1000, 4);
    let (common, notify) = windows.needed().unwrap();
    assert_eq!(common, Window { bar: 4, offset: 0x1000, length: 0x38, multiplier: 0 });
    assert_eq!(notify.multiplier, 4);
    let base = BaseAddress::Memory { base: 0xFE00_0000, sixty_four: true };
    assert_eq!(virtio_gpu::map_window(base, common), Some((0xFE00_1000, 4096)));
    assert_eq!(virtio_gpu::map_window(BaseAddress::Port(1), common), None);
    let high = BaseAddress::Memory { base: u64::MAX, sixty_four: true };
    assert_eq!(virtio_gpu::map_window(high, common), None);
    assert_eq!(virtio_gpu::init(&[device(0x1AF4, 0x1050, 0)]), Some(0));
    assert_eq!(virtio_gpu::init(&[device(0x1AF4, 0x1001, 0)]), None);
}

fn pages() -> Pages {
    Pages { queue: 0x1000, available: 0x2000, used: 0x3000, scratch: 0x4000 }
}

fn up() -> virtio_gpu::Gpu {
    let (mut bring, first, wanted) = virtio_gpu::bring_up(0x9000, 0xA000, 4, Some(0xB000));
    assert_eq!(first, vec![Step::Register8 { register: 0x9014, value8: 0 }]);
    assert_eq!(wanted, Wanted::Read8(0x9014));
    let mut said = Vec::new();
    let mut keep = |steps: Vec<Step>| {
        for step in steps {
            if let Step::Register8 { value8, .. } = step {
                said.push(value8);
            }
        }
    };
    assert_eq!(bring.answered(1).1, Wanted::Read8(0x9014));
    for (answer, next) in [
        (0, Wanted::Read32(0x9004)),
        (1, Wanted::Read8(0x9014)),
        (11, Wanted::Read16(0x9012)),
        (1, Wanted::Read16(0x9018)),
        (256, Wanted::Pages),
    ] {
        let (steps, wanted) = bring.answered(answer);
        assert_eq!(wanted, next);
        keep(steps);
    }
    let (steps, wanted) = bring.given(Some(pages()));
    assert_eq!(wanted, Wanted::Read16(0x901E));
    // The device is told not to interrupt before the queue is in use.
    assert_eq!(steps[7], Step::Half { at: 0x2000, half: 1 });
    assert_eq!(steps[8], Step::Fence);
    assert_eq!(steps[9], Step::Register16 { register: 0x901C, value16: 1 });
    let (steps, wanted) = bring.answered(3);
    keep(steps);
    assert_eq!(said, vec![1, 3, 11, 15]);
    match wanted {
        Wanted::Ready(gpu) => gpu,
        _ => panic!("not ready"),
    }
}

fn failing(answers: &[u32]) -> Wanted {
    let mut bring: BringUp = virtio_gpu::bring_up(0x9000, 0xA000, 4, None).0;
    let mut wanted = Wanted::Pages;
    for answer in answers {
        wanted = bring.answered(*answer).1;
    }
    wanted
}

#[test]
fn the_ladder_is_climbed() {
    let gpu = up();
    assert_eq!((gpu.notify, gpu.size, gpu.isr), (0xA00C, 64, Some(0xB000)));
    assert_eq!(failing(&[0, 0]), Wanted::Failed);
    assert_eq!(failing(&[0, 1, 3]), Wanted::Failed);
    assert_eq!(failing(&[0, 1, 8, 0]), Wanted::Failed);
    assert_eq!(failing(&[0, 1, 8, 1, 0]), Wanted::Failed);
    assert_eq!(failing(&[0, 1, 8, 1, 48]), Wanted::Failed);
    assert_eq!(failing(&[0, 1, 8, 1, 16]), Wanted::Pages);
    let mut bring: BringUp = virtio_gpu::bring_up(0x9000, 0xA000, 4, None).0;
    bring.stage = Stage::Placing(64);
    // The device is told that it was given up.
    let told = vec![Step::Register8 { register: 0x9014, value8: 128 }];
    assert_eq!(bring.given(None), (told.clone(), Wanted::Failed));
    // A reset that never ends is given up.
    bring.stage = Stage::Resetting(1);
    assert_eq!(bring.answered(7), (told, Wanted::Failed));
}

#[test]
fn a_command_is_asked_and_answered() {
    let mut gpu = up();
    let steps = virtio_gpu::ask(&gpu, 24, 64, 70).unwrap();
    assert_eq!(steps[0], Step::Data { at: 0x4000, length: 24 });
    assert_eq!(steps[1], Step::Zeros { at: 0x4800, many: 64 });
    assert_eq!(steps[10], Step::Half { at: 0x2000 + 4 + 2 * 6, half: 0 });
    assert_eq!(steps[12], Step::Half { at: 0x2002, half: 71 });
    assert_eq!(steps[14], Step::Register16 { register: 0xA00C, value16: 0 });
    assert!(virtio_gpu::ask(&gpu, 2049, 64, 0).is_none());
    assert!(virtio_gpu::ask(&gpu, 24, 3, 0).is_none());
    let mut asked = virtio_gpu::Asked::new(&gpu);
    assert_eq!(asked.look(0), Look::Again);
    assert_eq!(asked.look(1), Look::Done);
    asked.left = 1;
    assert_eq!(asked.look(0), Look::TimedOut);
    let mut state = virtio_gpu::State::new();
    let kind = virtio_gpu::answered(&mut state, &mut gpu, 1, &[0x00, 0x11, 0, 0]);
    assert_eq!((kind, gpu.seen), (0x1100, 1));
    assert!(virtio_gpu::expect_ok(Some(kind)));
    assert!(!virtio_gpu::expect_ok(Some(0x1200)));
    assert!(!virtio_gpu::expect_ok(None));
    assert_eq!(virtio_gpu::statistics(&state), (1, 0));
}

fn info(width: u32, height: u32, enabled: u32) -> Vec<u8> {
    let mut reply = vec![0u8; 64];
    reply[32..36].copy_from_slice(&width.to_le_bytes());
    reply[36..40].copy_from_slice(&height.to_le_bytes());
    reply[40..44].copy_from_slice(&enabled.to_le_bytes());
    reply
}

fn screen() -> virtio_gpu::State {
    let mut gpu = up();
    let asking = virtio_gpu::make_screen(&gpu, Screen::Asking).unwrap();
    assert_eq!((asking.len(), &asking[0..4]), (24, &[0, 1, 0, 0][..]));
    let next = virtio_gpu::screen_next(Screen::Asking, Some(0x1101), &info(30, 9, 1)).unwrap();
    assert_eq!(next, Screen::Allocating(30, 9));
    assert!(virtio_gpu::make_screen(&gpu, next).is_none());
    assert_eq!(virtio_gpu::screen_order(30, 9), 0);
    let mut stage = virtio_gpu::screen_memory(&mut gpu, 30, 9, Some(0x77_0000)).unwrap();
    let mut lengths = Vec::new();
    while let Some(command) = virtio_gpu::make_screen(&gpu, stage) {
        lengths.push(command.len());
        stage = virtio_gpu::screen_next(stage, Some(0x1100), &[0; 64]).unwrap();
    }
    assert_eq!(lengths, vec![40, 48, 48]);
    assert_eq!(stage, Screen::Made);
    let mut state = virtio_gpu::State::new();
    virtio_gpu::adopt(&mut state, gpu);
    state
}

#[test]
fn a_screen_is_made() {
    let state = screen();
    let shown = virtio_gpu::framebuffer(&state).unwrap();
    assert_eq!((shown.phys_addr, shown.size, shown.stride), (0x77_0000, 1080, 30));
    assert_eq!((shown.width, shown.height, shown.bytes_per_pixel), (30, 9, 4));
    assert_eq!(shown.format, PixelFormat::Bgrx8888);
    assert_eq!(virtio_gpu::acknowledge(&state), Some(0xB000));
    assert_eq!(virtio_gpu::status_register(&state), Some(0x9014));
    assert!(virtio_gpu::is_present(&state, 15));
    assert!(!virtio_gpu::is_present(&state, 15 + 64));
    assert!(!virtio_gpu::is_present(&state, 11));
    assert!(!virtio_gpu::is_present(&virtio_gpu::State::new(), 15));
    let off = virtio_gpu::screen_next(Screen::Asking, Some(0x1101), &info(30, 9, 0));
    assert_eq!(off, None);
    let odd = virtio_gpu::screen_next(Screen::Asking, Some(0x1100), &info(30, 9, 1));
    assert_eq!(odd, None);
    let refused = virtio_gpu::screen_next(Screen::Creating, Some(0x1200), &[0; 64]);
    assert_eq!(refused, None);
    let mut gpu = up();
    assert_eq!(virtio_gpu::screen_memory(&mut gpu, 30, 9, None), None);
}

#[test]
fn a_rectangle_is_copied_and_then_shown() {
    let mut state = screen();
    assert!(virtio_gpu::flush(&mut state, 0, 0, 0, 5).is_none());
    let flush = virtio_gpu::flush(&mut state, 2, 3, 4, 5).unwrap();
    assert_eq!((flush.transfer.len(), flush.show.len()), (56, 48));
    assert_eq!(&flush.transfer[0..4], &0x105u32.to_le_bytes());
    assert_eq!(&flush.transfer[24..28], &2u32.to_le_bytes());
    // Three rows of thirty pixels and two more, of four bytes each.
    assert_eq!(&flush.transfer[40..48], &368u64.to_le_bytes());
    assert_eq!(&flush.show[0..4], &0x104u32.to_le_bytes());
    assert_eq!(&flush.show[40..44], &1u32.to_le_bytes());
    // One at a time.
    assert!(virtio_gpu::flush(&mut state, 2, 3, 4, 5).is_none());
    virtio_gpu::flushed(&mut state, 9, true);
    assert_eq!(state.gpu().map(|gpu| gpu.seen), Some(9));
    assert_eq!(virtio_gpu::statistics(&state), (0, 1));
    assert!(virtio_gpu::flush(&mut virtio_gpu::State::new(), 0, 0, 1, 1).is_none());
}

#[test]
fn three_bands() {
    let rows = virtio_gpu::self_test(&screen()).unwrap();
    assert_eq!(rows.len(), 9);
    assert_eq!(&rows[0..3], &[0x00FF_0000; 3]);
    assert_eq!(&rows[3..6], &[0x0000_FF00; 3]);
    assert_eq!(&rows[6..9], &[0x0000_00FF; 3]);
    assert!(virtio_gpu::self_test(&virtio_gpu::State::new()).is_none());
}

fn byte(port: u16, byte: u8) -> Deed {
    Deed::Step(Step::Port(PortWrite::Byte { port, byte }))
}

fn word(port: u16, word: u16) -> Deed {
    Deed::Step(Step::Port(PortWrite::Word { port, word }))
}

fn long(port: u16, long: u32) -> Deed {
    Deed::Step(Step::Port(PortWrite::Long { port, long }))
}

/// Bring a disk up with what it is told, in order: everything that was done, what
/// was wanted, and what it came to.
fn bring_disk(
    state: &mut virtio_blk::State,
    told: &[Heard],
) -> (Vec<Deed>, Vec<Want>, virtio_blk::Turn) {
    let (mut bringing, mut done, mut turn) = virtio_blk::bring_up(0xC000, 11);
    let mut wanted = Vec::new();
    for heard in told {
        match turn {
            virtio_blk::Turn::Want(want) => wanted.push(want),
            _ => panic!("nothing is wanted"),
        }
        let (deeds, next) = bringing.heard(state, *heard);
        done.extend(deeds);
        turn = next;
    }
    (done, wanted, turn)
}

#[test]
fn a_disk_is_ready_last() {
    let mut state = virtio_blk::State::new();
    let (done, wanted, turn) = bring_disk(&mut state, &[
        Heard::Read(0xFFFF_FFFF),
        Heard::Read(256),
        Heard::Block(Some(0x10_0000)),
        Heard::Block(Some(0x20_0000)),
        Heard::Read(100),
        Heard::Read(1),
    ]);
    assert_eq!(done, vec![
        byte(0xC012, 0),
        byte(0xC012, 1),
        byte(0xC012, 3),
        long(0xC004, 512),
        word(0xC00E, 0),
        long(0xC008, 0x100),
        byte(0xC012, 7),
    ]);
    assert_eq!(wanted, vec![
        Want::Read32(0xC000),
        Want::Read16(0xC00C),
        Want::Block(2),
        Want::Block(1),
        Want::Read32(0xC014),
        Want::Read32(0xC018),
    ]);
    assert_eq!(turn, virtio_blk::Turn::Up(0x1_0000_0064));
    assert_eq!(virtio_blk::capacity(&state), 0x1_0000_0064);
    assert_eq!(virtio_blk::interrupt_line(&state), Some(11));
    assert_eq!(virtio_blk::flush_statistics(&state), (0, true));
    let disk = virtio_blk::disk(&state).unwrap();
    assert_eq!((disk.queue, disk.scratch, disk.queue_size), (0x10_0000, 0x20_0000, 256));
}

#[test]
fn a_disk_that_fails_is_given_up() {
    let mut state = virtio_blk::State::new();
    for size in [0, 257] {
        let (done, _, turn) = bring_disk(&mut state, &[Heard::Read(0), Heard::Read(size)]);
        let error = BlockError::QueueTooLarge(size as u16);
        assert_eq!(turn, virtio_blk::Turn::Down(error));
        assert_eq!(done[3..], [long(0xC004, 0), word(0xC00E, 0), byte(0xC012, 0x80)]);
    }
    let none = Heard::Block(None);
    let (done, _, turn) = bring_disk(&mut state, &[Heard::Read(0), Heard::Read(8), none]);
    assert_eq!(turn, virtio_blk::Turn::Down(BlockError::OutOfMemory));
    assert_eq!(done.len(), 6);
    assert_eq!(done[5], byte(0xC012, 0x80));
    // The queue's memory is given back where there is none for the requests.
    let some = Heard::Block(Some(0x10_0000));
    let (done, _, turn) = bring_disk(&mut state, &[Heard::Read(0), Heard::Read(8), some, none]);
    assert_eq!(turn, virtio_blk::Turn::Down(BlockError::OutOfMemory));
    assert_eq!(done[5..], [Deed::Free { at: 0x10_0000, order: 1 }, byte(0xC012, 0x80)]);
    assert!(!virtio_blk::is_present(&state));
}

/// The same, for a network card.
fn bring_card(
    state: &mut virtio_net::State,
    told: &[Heard],
) -> (Vec<Deed>, Vec<Want>, virtio_net::Turn) {
    let (mut bringing, mut done, mut turn) = virtio_net::bring_up(0xC000, 10);
    let mut wanted = Vec::new();
    for heard in told {
        match turn {
            virtio_net::Turn::Want(want) => wanted.push(want),
            _ => panic!("nothing is wanted"),
        }
        let (deeds, next) = bringing.heard(state, *heard);
        done.extend(deeds);
        turn = next;
    }
    (done, wanted, turn)
}

#[test]
fn a_card_is_ready_after_its_queues() {
    let mut told = vec![
        Heard::Read(0xFFFF_FFFF),
        Heard::Read(64),
        Heard::Block(Some(0x10_0000)),
        Heard::Block(Some(0x40_0000)),
        Heard::Read(64),
        Heard::Block(Some(0x20_0000)),
        Heard::Block(Some(0x60_0000)),
    ];
    told.extend([2, 0, 0, 0, 0, 1].map(Heard::Read));
    let mut state = virtio_net::State::new();
    let (done, wanted, turn) = bring_card(&mut state, &told);
    assert_eq!(turn, virtio_net::Turn::Up);
    assert_eq!(virtio_net::address(&state), Some([2, 0, 0, 0, 0, 1]));
    assert_eq!(virtio_net::interrupt_line(&state), Some(10));
    assert_eq!(wanted[..3], [Want::Read32(0xC000), Want::Read16(0xC00C), Want::Block(1)]);
    assert_eq!(wanted[3], Want::Block(4));
    assert_eq!(wanted[4..7], [Want::Read16(0xC00C), Want::Block(1), Want::Block(2)]);
    assert_eq!(wanted[7], Want::Read8(0xC014));
    assert_eq!(wanted[12], Want::Read8(0xC019));
    let at = |deed: Deed| done.iter().position(|done| *done == deed).unwrap();
    assert_eq!(at(long(0xC004, 32)), 3);
    assert_eq!(at(word(0xC00E, 0)), 4);
    assert_eq!(at(long(0xC008, 0x100)), 5);
    assert_eq!(at(word(0xC00E, 1)), 6 + 4 * 32);
    assert_eq!(at(long(0xC008, 0x200)), 7 + 4 * 32);
    assert_eq!(at(byte(0xC012, 7)), 8 + 4 * 32 + 4 * 8);
    assert_eq!(*done.last().unwrap(), word(0xC010, 0));
}

#[test]
fn a_card_that_does_not_say_is_not_asked() {
    let mut state = virtio_net::State::new();
    let (done, wanted, turn) = bring_card(&mut state, &[
        Heard::Read(0),
        Heard::Read(64),
        Heard::Block(Some(0x10_0000)),
        Heard::Block(Some(0x40_0000)),
        Heard::Read(64),
        Heard::Block(Some(0x20_0000)),
        Heard::Block(Some(0x60_0000)),
    ]);
    assert_eq!(turn, virtio_net::Turn::Up);
    assert_eq!(wanted.len(), 7);
    assert_eq!(done[3], long(0xC004, 0));
    assert_eq!(virtio_net::address(&state), Some([0; 6]));
}

#[test]
fn a_card_that_fails_is_given_up() {
    let mut state = virtio_net::State::new();
    let none = Heard::Block(None);
    let (done, _, turn) = bring_card(&mut state, &[Heard::Read(0), Heard::Read(31)]);
    assert_eq!(turn, virtio_net::Turn::Down(NetError::QueueSize(31)));
    assert_eq!(done[5..], [byte(0xC012, 0x80)]);
    let (done, _, turn) = bring_card(&mut state, &[Heard::Read(0), Heard::Read(64), none]);
    assert_eq!(turn, virtio_net::Turn::Down(NetError::OutOfMemory));
    assert_eq!(done[5..], [byte(0xC012, 0x80)]);
    let some = Heard::Block(Some(0x10_0000));
    let (done, _, turn) = bring_card(&mut state, &[Heard::Read(0), Heard::Read(64), some, none]);
    assert_eq!(turn, virtio_net::Turn::Down(NetError::OutOfMemory));
    assert_eq!(done[5..], [Deed::Free { at: 0x10_0000, order: 1 }, byte(0xC012, 0x80)]);
    // The card knows of the queue that was set up: that one is kept.
    let (done, _, turn) = bring_card(&mut state, &[
        Heard::Read(0),
        Heard::Read(64),
        some,
        Heard::Block(Some(0x40_0000)),
        Heard::Read(4),
    ]);
    assert_eq!(turn, virtio_net::Turn::Down(NetError::QueueSize(4)));
    assert_eq!(*done.last().unwrap(), byte(0xC012, 0x80));
    assert!(!done.iter().any(|deed| matches!(deed, Deed::Free { .. })));
    assert!(!virtio_net::is_present(&state));
}

#[test]
fn an_interrupt_is_adopted_once() {
    let (mut state, _) = card();
    assert!(!virtio_net::adopt_interrupt(&mut state));
    assert!(!virtio_net::is_blocking(&state));
    assert!(!virtio_net::on_interrupt(&mut state, 0));
    assert!(!virtio_net::adopt_interrupt(&mut state));
    assert!(virtio_net::on_interrupt(&mut state, 1));
    assert!(virtio_net::adopt_interrupt(&mut state));
    assert!(virtio_net::is_blocking(&state));
    assert!(virtio_net::on_interrupt(&mut state, 1));
    assert!(!virtio_net::adopt_interrupt(&mut state));
    assert!(virtio_net::acquire(&mut state));
    virtio_net::release(&mut state);
    assert_eq!(virtio_net::sent(&mut state, true), Ok(()));
    assert!(!virtio_net::adopt_interrupt(&mut state));
    assert!(virtio_net::is_blocking(&state));
}
