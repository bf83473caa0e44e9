//! Crash reports.
use nexus_kernel::crash::{
    contents, file_name, first_lines, flush, read, record, report_previous, split, statistics,
    written, State,
};

#[test]
fn a_report_waits_for_the_flush() {
    let mut state = State::new();
    record(&mut state, 7, b"shell", b"page fault", 123);
    assert_eq!(statistics(&state), (1, 0, 0));
    let taken = flush(&mut state);
    assert_eq!(taken.len(), 1);
    assert_eq!(
        contents(&taken[0]),
        b"process 7 \"shell\"\nended by page fault\nat 123 ticks\n".to_vec()
    );
    assert!(flush(&mut state).is_empty());
    assert_eq!(written(&mut state, &[true, false, true]), 2);
    assert_eq!(statistics(&state), (1, 2, 0));
}

#[test]
fn reports_have_file_names() {
    let mut state = State::new();
    record(&mut state, 7, b"shell", b"x", 123);
    let name = file_name(&flush(&mut state)[0]);
    assert_eq!(name, b"7.txt".to_vec());
}

#[test]
fn names_are_cut_and_have_to_be_text() {
    let mut state = State::new();
    record(&mut state, 7, &[b'n'; 40], &[b'w'; 60], 1);
    record(&mut state, 8, &[0xFF, 0xFE], b"w", 1);
    let taken = flush(&mut state);
    assert_eq!(taken[0].name.len(), 32);
    assert_eq!(taken[0].what.len(), 48);
    assert!(contents(&taken[1]).starts_with(b"process 8 \"?\"\n"));
}

#[test]
fn reports_are_dropped_only_when_full() {
    let mut state = State::new();
    for process in 0..9 {
        record(&mut state, process, b"p", b"w", 1);
    }
    assert_eq!(statistics(&state), (8, 0, 1));
    assert_eq!(flush(&mut state).len(), 8);
    record(&mut state, 9, b"p", b"w", 1);
    assert_eq!(statistics(&state), (9, 0, 1));
}

#[test]
fn what_earlier_boots_left() {
    assert_eq!(report_previous(None), None);
    assert_eq!(report_previous(Some(0)), None);
    assert_eq!(report_previous(Some(3)), Some(3));
    assert_eq!(report_previous(Some(9)), Some(4));
}

#[test]
fn lines_hold_no_newline() {
    assert_eq!(first_lines(b"one\ntwo\nthree"), (b"one".to_vec(), b"two".to_vec()));
    assert_eq!(first_lines(b"one\r\n"), (b"one".to_vec(), b"".to_vec()));
    assert_eq!(first_lines(b""), (b"".to_vec(), b"".to_vec()));
}

#[test]
fn reports_are_read_back() {
    assert_eq!(split(b"crash/a.txt"), Some((b"crash".to_vec(), b"a.txt".to_vec())));
    assert_eq!(split(b"crash"), None);
    assert_eq!(read(Some(b"text".to_vec())), Some(b"text".to_vec()));
    // What is not text is not a report.
    assert_eq!(read(Some(vec![0xFF])), None);
    assert_eq!(read(None), None);
}
