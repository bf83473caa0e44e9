//! Signals.
use nexus_kernel::compat::error::{EFAULT, EINVAL, ENOSYS, EPERM};
use nexus_kernel::compat::frame::{Frame, FRAME_BYTES};
use nexus_kernel::compat::linux_signal::{
    bit, deliver, ensure_trampoline, enter, forget, kill, name, not_translated, number, pending,
    returned_through, sigaction, sigprocmask, sigreturn, statistics, Delivery, Entry, Placed,
    Returned, State, BLOCK, RESETHAND, RESTORER, SETMASK, TRAMPOLINE, UNBLOCK,
};

const END: u64 = 0x8000_0000_0000;

fn frame(rsp: u64) -> Frame {
    Frame {
        r15: 15,
        r14: 14,
        r13: 13,
        r12: 12,
        rbp: 5,
        rbx: 3,
        r9: 9,
        r8: 8,
        r10: 10,
        rdx: 2,
        rsi: 6,
        rdi: 7,
        rax: 42,
        rflags: 0x3246,
        rip: 0x40_1000,
        rsp,
    }
}

fn action(handler: u64, flags: u64, restorer: u64, mask: u64) -> Vec<u8> {
    let mut bytes = Vec::new();
    for word in [handler, flags, restorer, mask] {
        bytes.extend_from_slice(&word.to_le_bytes());
    }
    bytes
}

fn install(state: &mut State, signal: u64, bytes: &[u8]) -> u64 {
    sigaction(state, Some(7), signal, 0x1000, Some(bytes), 0, false, 8, END).answer
}

#[test]
fn a_frame_in_memory_is_sixteen_words_in_order() {
    let bytes = frame(0x7000).to_bytes();
    assert_eq!(bytes.len() as u64, FRAME_BYTES);
    assert_eq!(&bytes[0..8], &15u64.to_le_bytes());
    assert_eq!(&bytes[96..104], &42u64.to_le_bytes());
    assert_eq!(&bytes[120..128], &0x7000u64.to_le_bytes());
    let back = Frame::from_bytes(&bytes);
    assert_eq!(back.to_bytes(), bytes);
}

#[test]
fn bits_stand_for_signals_from_one() {
    assert_eq!(bit(0), None);
    assert_eq!(bit(1), Some(1));
    assert_eq!(bit(9), Some(256));
    assert_eq!(bit(64), Some(1 << 63));
    assert_eq!(bit(65), None);
}

#[test]
fn signals_have_names() {
    assert_eq!(name(number::SEGV), "SIGSEGV");
    assert_eq!(name(number::CHLD), "SIGCHLD");
    assert_eq!(name(40), "a signal");
}

#[test]
fn an_action_is_told_and_replaced() {
    let mut state = State::new();
    let wanted = action(0x5000, RESTORER, 0x6000, 3);
    assert_eq!(install(&mut state, number::USR1, &wanted), 0);
    assert_eq!(statistics(&state), (1, 0));
    let reply = sigaction(&mut state, Some(7), number::USR1, 0, None, 0x2000, true, 8, END);
    assert_eq!(reply.answer, 0);
    assert_eq!(reply.writes.len(), 1);
    assert_eq!(reply.writes[0].at, 0x2000);
    assert_eq!(reply.writes[0].bytes, wanted);
    // Ignoring one is not installing a handler.
    assert_eq!(install(&mut state, number::USR2, &action(1, 0, 0, 0)), 0);
    assert_eq!(statistics(&state), (1, 0));
}

#[test]
fn actions_that_cannot_be() {
    let mut state = State::new();
    let wanted = action(0x5000, 0, 0, 0);
    assert_eq!(install(&mut state, 0, &wanted), EINVAL);
    assert_eq!(install(&mut state, 65, &wanted), EINVAL);
    assert_eq!(install(&mut state, number::KILL, &wanted), EINVAL);
    assert_eq!(install(&mut state, number::STOP, &wanted), EINVAL);
    assert_eq!(install(&mut state, number::INT, &action(END, 0, 0, 0)), EFAULT);
    let size = sigaction(&mut state, Some(7), 2, 1, Some(&wanted), 0, false, 4, END);
    assert_eq!(size.answer, EINVAL);
    let nobody = sigaction(&mut state, None, 2, 1, Some(&wanted), 0, false, 8, END);
    assert_eq!(nobody.answer, ENOSYS);
    let nowhere = sigaction(&mut state, Some(7), 2, 1, None, 0, false, 8, END);
    assert_eq!(nowhere.answer, EFAULT);
    let past = sigaction(&mut state, Some(7), 2, 1, Some(&wanted), 8, false, 8, END);
    assert_eq!(past.answer, EFAULT);
    assert!(past.writes.is_empty());
    assert_eq!(statistics(&state), (0, 0));
}

#[test]
fn the_mask_never_takes_the_two_that_stop_a_program() {
    let mut state = State::new();
    let everything = u64::MAX;
    let cannot = (1u64 << 8) | (1u64 << 18);
    let set = sigprocmask(&mut state, Some(7), SETMASK, 1, Some(everything), 0, false, 8);
    assert_eq!(set.answer, 0);
    let asked = sigprocmask(&mut state, Some(7), BLOCK, 0, None, 0x30, true, 8);
    assert_eq!(asked.writes[0].bytes, (everything & !cannot).to_le_bytes().to_vec());
    let less = sigprocmask(&mut state, Some(7), UNBLOCK, 1, Some(0xFF), 0, false, 8);
    assert_eq!(less.answer, 0);
    let more = sigprocmask(&mut state, Some(7), BLOCK, 1, Some(1 << 8), 0x30, true, 8);
    assert_eq!(more.writes[0].bytes, (everything & !cannot & !0xFF).to_le_bytes().to_vec());
    let after = sigprocmask(&mut state, Some(7), BLOCK, 0, None, 0x30, true, 8);
    assert_eq!(after.writes[0].bytes, (everything & !cannot & !0xFF).to_le_bytes().to_vec());
}

#[test]
fn masks_that_cannot_be() {
    let mut state = State::new();
    assert_eq!(sigprocmask(&mut state, Some(7), 3, 1, Some(0), 0, false, 8).answer, EINVAL);
    assert_eq!(sigprocmask(&mut state, Some(7), 0, 1, Some(0), 0, false, 16).answer, EINVAL);
    assert_eq!(sigprocmask(&mut state, None, 0, 1, Some(0), 0, false, 8).answer, ENOSYS);
    assert_eq!(sigprocmask(&mut state, Some(7), 0, 1, None, 0, false, 8).answer, EFAULT);
    assert_eq!(sigprocmask(&mut state, Some(7), 0, 0, None, 9, false, 8).answer, EFAULT);
}

#[test]
fn a_program_signals_itself_and_nobody_else() {
    let mut state = State::new();
    assert_eq!(kill(&mut state, None, 7, 2).answer, ENOSYS);
    assert_eq!(kill(&mut state, Some(7), 7, 0).answer, 0);
    assert_eq!(kill(&mut state, Some(7), 7, 65).answer, EINVAL);
    assert_eq!(kill(&mut state, Some(7), 8, 2).answer, EPERM);
    assert!(!pending(&state, 7));
    assert_eq!(kill(&mut state, Some(7), 0, 2).answer, 0);
    assert!(pending(&state, 7));
    let killed = kill(&mut state, Some(7), 7, number::KILL);
    assert!(killed.stop);
    assert_eq!(killed.answer, 0);
    forget(&mut state, 7);
    assert!(!pending(&state, 7));
}

#[test]
fn without_a_handler_the_program_ends() {
    let mut state = State::new();
    assert!(matches!(deliver(&mut state, Some(7), &frame(0x9000), END), Delivery::Unchanged));
    kill(&mut state, Some(7), 7, number::TERM);
    assert!(matches!(deliver(&mut state, Some(7), &frame(0x9000), END), Delivery::Ended(143)));
    assert!(matches!(deliver(&mut state, Some(7), &frame(0x9000), END), Delivery::Unchanged));
}

#[test]
fn an_ignored_signal_goes_away() {
    let mut state = State::new();
    install(&mut state, number::USR1, &action(1, 0, 0, 0));
    kill(&mut state, Some(7), 7, number::USR1);
    assert!(matches!(deliver(&mut state, Some(7), &frame(0x9000), END), Delivery::Unchanged));
    assert!(!pending(&state, 7));
}

#[test]
fn the_lowest_signal_comes_first() {
    let mut state = State::new();
    kill(&mut state, Some(7), 7, number::TERM);
    kill(&mut state, Some(7), 7, number::INT);
    assert!(matches!(deliver(&mut state, Some(7), &frame(0x9000), END), Delivery::Ended(130)));
}

fn placed(state: &mut State, here: &Frame) -> Placed {
    match deliver(state, Some(7), here, END) {
        Delivery::Place(placed) => placed,
        _ => panic!("no place"),
    }
}

#[test]
fn a_handler_is_entered_below_the_red_zone() {
    let mut state = State::new();
    install(&mut state, number::USR1, &action(0x5000, RESTORER, 0x6000, 0));
    kill(&mut state, Some(7), 7, number::USR1);
    let mut here = frame(0x9008);
    let place = placed(&mut state, &here);
    // 0x9008 less the red zone and the frame, on a boundary of sixteen.
    assert_eq!(place.at, 0x8F00);
    assert_eq!(place.stack, 0x8EF8);
    assert_eq!(place.restorer, 0x6000);
    match enter(&mut state, place, &mut here, true, true) {
        Entry::Entered { frame: saved, restorer } => {
            assert_eq!(saved, frame(0x9008).to_bytes());
            assert_eq!(restorer, 0x6000u64.to_le_bytes().to_vec());
        }
        Entry::Ended(_) => panic!("ended"),
    }
    assert_eq!((here.rip, here.rsp, here.rdi), (0x5000, 0x8EF8, number::USR1));
    assert_eq!((here.rsi, here.rdx, here.rax), (0, 0, 0));
    assert_eq!(here.rbx, 3);
    assert_eq!(statistics(&state), (1, 1));
}

#[test]
fn a_handler_is_not_entered_again_while_it_runs() {
    let mut state = State::new();
    install(&mut state, number::USR1, &action(0x5000, RESTORER, 0x6000, 0));
    kill(&mut state, Some(7), 7, number::USR1);
    let mut here = frame(0x9000);
    let place = placed(&mut state, &here);
    enter(&mut state, place, &mut here, true, true);
    kill(&mut state, Some(7), 7, number::USR1);
    assert!(!pending(&state, 7));
    let saved = frame(0x9000).to_bytes();
    sigreturn(&mut state, Some(7), &mut here, Some(&saved));
    assert!(pending(&state, 7));
}

#[test]
fn returning_puts_the_program_back() {
    let mut state = State::new();
    let past = sigprocmask(&mut state, Some(7), SETMASK, 1, Some(0x4000_0000), 0, false, 8);
    assert_eq!(past.answer, 0);
    install(&mut state, number::USR1, &action(0x5000, RESTORER, 0x6000, 0));
    kill(&mut state, Some(7), 7, number::USR1);
    let mut here = frame(0x9000);
    let place = placed(&mut state, &here);
    let saved = match enter(&mut state, place, &mut here, true, true) {
        Entry::Entered { frame, .. } => frame,
        Entry::Ended(_) => panic!("ended"),
    };
    match sigreturn(&mut state, Some(7), &mut here, Some(&saved)) {
        Returned::Answer(answer) => assert_eq!(answer, 42),
        Returned::Ended(_) => panic!("ended"),
    }
    // Only the arithmetic flags are the program's to choose.
    assert_eq!(here.rflags, (0x3246 & 0x8D5) | 0x202);
    assert_eq!((here.rip, here.rsp, here.rdi), (0x40_1000, 0x9000, 7));
    let mask = sigprocmask(&mut state, Some(7), BLOCK, 0, None, 0x30, true, 8);
    assert_eq!(mask.writes[0].bytes, 0x4000_0000u64.to_le_bytes().to_vec());
}

#[test]
fn what_an_action_blocks_stays_blocked_and_its_own_signal_does_not() {
    let mut state = State::new();
    install(&mut state, number::USR1, &action(0x5000, RESTORER, 0x6000, 2));
    kill(&mut state, Some(7), 7, number::USR1);
    let mut here = frame(0x9000);
    let place = placed(&mut state, &here);
    enter(&mut state, place, &mut here, true, true);
    let saved = frame(0x9000).to_bytes();
    sigreturn(&mut state, Some(7), &mut here, Some(&saved));
    let mask = sigprocmask(&mut state, Some(7), BLOCK, 0, None, 0x30, true, 8);
    assert_eq!(mask.writes[0].bytes, 2u64.to_le_bytes().to_vec());
}

#[test]
fn returning_to_no_frame_ends_the_program() {
    let mut state = State::new();
    let mut here = frame(0x9000);
    assert!(matches!(sigreturn(&mut state, Some(7), &mut here, None), Returned::Ended(139)));
    let nobody = sigreturn(&mut state, None, &mut here, None);
    assert!(matches!(nobody, Returned::Answer(answer) if answer == ENOSYS));
}

#[test]
fn a_handler_that_runs_once() {
    let mut state = State::new();
    install(&mut state, number::USR1, &action(0x5000, RESTORER | RESETHAND, 0x6000, 0));
    kill(&mut state, Some(7), 7, number::USR1);
    let mut here = frame(0x9000);
    let place = placed(&mut state, &here);
    enter(&mut state, place, &mut here, true, true);
    let saved = frame(0x9000).to_bytes();
    sigreturn(&mut state, Some(7), &mut here, Some(&saved));
    kill(&mut state, Some(7), 7, number::USR1);
    assert!(matches!(deliver(&mut state, Some(7), &frame(0x9000), END), Delivery::Ended(138)));
}

#[test]
fn a_program_without_a_return_path_gets_one() {
    assert_eq!(ensure_trampoline(), vec![0xB8, 0x0F, 0, 0, 0, 0x0F, 0x05]);
    let mut state = State::new();
    install(&mut state, number::USR1, &action(0x5000, 0, 0, 0));
    kill(&mut state, Some(7), 7, number::USR1);
    let chosen = match deliver(&mut state, Some(7), &frame(0x9000), END) {
        Delivery::Trampoline(chosen) => chosen,
        _ => panic!("no trampoline wanted"),
    };
    match returned_through(&mut state, chosen, true, &frame(0x9000), END) {
        Delivery::Place(place) => assert_eq!(place.restorer, TRAMPOLINE),
        _ => panic!("no place"),
    }
    // It is there the next time.
    install(&mut state, number::USR2, &action(0x5000, 0, 0, 0));
    kill(&mut state, Some(7), 7, number::USR2);
    assert_eq!(placed(&mut state, &frame(0x9000)).restorer, TRAMPOLINE);
}

#[test]
fn a_signal_that_has_nowhere_to_go_ends_the_program() {
    let mut state = State::new();
    install(&mut state, number::USR1, &action(0x5000, RESTORER, 0x6000, 0));
    kill(&mut state, Some(7), 7, number::USR1);
    let low = deliver(&mut state, Some(7), &frame(0x1000), END);
    assert!(matches!(low, Delivery::Ended(138)));
    install(&mut state, number::USR2, &action(0x5000, RESTORER, 0x6000, 0));
    kill(&mut state, Some(7), 7, number::USR2);
    let mut here = frame(0x9000);
    let place = placed(&mut state, &here);
    assert!(matches!(enter(&mut state, place, &mut here, true, false), Entry::Ended(140)));
    assert_eq!(here.rip, 0x40_1000);
    assert_eq!(not_translated(), ENOSYS);
}

#[test]
fn a_handlers_mask_does_not_take_the_two_either() {
    let mut state = State::new();
    let cannot = (1u64 << 8) | (1u64 << 18);
    install(&mut state, number::USR1, &action(0x5000, RESTORER, 0x6000, u64::MAX));
    kill(&mut state, Some(7), 7, number::USR1);
    let mut here = frame(0x9008);
    let place = placed(&mut state, &here);
    let during = sigprocmask(&mut state, Some(7), BLOCK, 0, None, 0x30, true, 8);
    assert_eq!(during.writes[0].bytes, (!cannot).to_le_bytes().to_vec());
    assert!(matches!(enter(&mut state, place, &mut here, true, true), Entry::Entered { .. }));
    let saved = frame(0x9008).to_bytes();
    sigreturn(&mut state, Some(7), &mut here, Some(&saved));
    let after = sigprocmask(&mut state, Some(7), BLOCK, 0, None, 0x30, true, 8);
    let left = !cannot & !(1u64 << (number::USR1 - 1));
    assert_eq!(after.writes[0].bytes, left.to_le_bytes().to_vec());
    // It still ends the program.
    kill(&mut state, Some(7), 7, number::STOP);
    assert!(matches!(deliver(&mut state, Some(7), &frame(0x9000), END), Delivery::Ended(147)));
}
