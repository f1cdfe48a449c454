use rtun::net::copy::{
    both, CopyAction, CopyBuf, CopyOneDirection, Idle, TransferAction, TransferState, WriteZero,
};

fn read(copy: &mut CopyBuf, data: &[u8]) {
    assert_eq!(copy.next(), CopyAction::Read);
    copy.buffer()[..data.len()].copy_from_slice(data);
    copy.on_read(data.len());
}

#[test]
fn copies_in_pieces() {
    let mut copy = CopyBuf::new(8);
    read(&mut copy, b"hello");
    assert_eq!(copy.next(), CopyAction::Write);
    assert_eq!(copy.unwritten(), b"hello");
    assert_eq!(copy.on_write(2), Ok(()));
    assert_eq!(copy.unwritten(), b"llo");
    assert_eq!(copy.on_write(3), Ok(()));
    assert!(copy.needs_flush());
    copy.flushed();
    assert!(!copy.needs_flush());
    read(&mut copy, b"world");
    assert_eq!(copy.unwritten(), b"world");
    assert_eq!(copy.on_write(5), Ok(()));
    read(&mut copy, b"");
    assert_eq!(copy.next(), CopyAction::Finish);
    assert_eq!(copy.amt(), 10);
}

#[test]
fn writer_that_takes_nothing_is_an_error() {
    let mut copy = CopyBuf::new(8);
    read(&mut copy, b"x");
    assert_eq!(copy.on_write(0), Err(WriteZero));
    assert_eq!(copy.unwritten(), b"x");
    assert_eq!(copy.amt(), 0);
}

fn copy_of(direction: &mut CopyOneDirection) -> &mut CopyBuf {
    match &mut direction.state {
        TransferState::Running(copy) => copy,
        _ => panic!("the direction is running"),
    }
}

#[test]
fn direction_ends_with_its_count() {
    let mut direction = CopyOneDirection::new(4);
    assert_eq!(direction.state.to_string(), "Running");
    read(copy_of(&mut direction), b"abc");
    assert_eq!(copy_of(&mut direction).on_write(3), Ok(()));
    read(copy_of(&mut direction), b"");
    assert!(copy_of(&mut direction).needs_flush());
    assert_eq!(direction.state.next(), TransferAction::Copy(CopyAction::Finish));
    copy_of(&mut direction).flushed();
    assert!(!copy_of(&mut direction).needs_flush());
    direction.on_copied();
    assert_eq!(direction.state.next(), TransferAction::Shutdown);
    assert_eq!(direction.state.to_string(), "Shuttingdow");
    assert!(matches!(direction.state, TransferState::Shuttingdow(3)));
    direction.on_shutdown();
    assert_eq!(direction.state.to_string(), "Done");
    assert!(matches!(direction.state, TransferState::Done(3)));
}

#[test]
fn direction_that_is_over_gives_its_count_again() {
    let mut direction = CopyOneDirection::new(4);
    assert_eq!(direction.state.next(), TransferAction::Copy(CopyAction::Read));
    read(copy_of(&mut direction), b"ab");
    assert_eq!(direction.state.next(), TransferAction::Copy(CopyAction::Write));
    assert_eq!(copy_of(&mut direction).on_write(2), Ok(()));
    read(copy_of(&mut direction), b"");
    copy_of(&mut direction).flushed();
    direction.on_copied();
    direction.on_shutdown();
    for _ in 0..3 {
        assert_eq!(direction.state.next(), TransferAction::Done(2));
    }
}

#[test]
fn whole_copy_through_a_small_buffer() {
    let source: Vec<u8> = (0..=255).collect();
    let mut sink = Vec::new();
    let mut unflushed = false;
    let mut at = 0;
    let mut copy = CopyBuf::new(7);
    loop {
        match copy.next() {
            CopyAction::Read => {
                let n = (source.len() - at).min(1 + at % 7);
                copy.buffer()[..n].copy_from_slice(&source[at..at + n]);
                at += n;
                copy.on_read(n);
            }
            CopyAction::Write => {
                let n = copy.unwritten().len().min(3);
                sink.extend_from_slice(&copy.unwritten()[..n]);
                unflushed = true;
                assert_eq!(copy.on_write(n), Ok(()));
            }
            CopyAction::Finish => {
                if !copy.needs_flush() {
                    break;
                }
                unflushed = false;
                copy.flushed();
            }
        }
        assert_eq!(copy.needs_flush(), unflushed);
        assert!(source.starts_with(&sink));
    }
    assert_eq!(sink, source);
    assert_eq!(copy.amt(), 256);
}

#[test]
fn silent_direction_is_given_up() {
    let mut direction = CopyOneDirection::new(4);
    assert_eq!(direction.on_idle(), Idle::StartTimer);
    assert_eq!(direction.on_idle(), Idle::CheckTimer);
    direction.on_timeout();
    assert!(matches!(direction.state, TransferState::Shuttingdow(0)));
}

#[test]
fn progress_stops_the_timer() {
    let mut direction = CopyOneDirection::new(4);
    assert_eq!(direction.on_idle(), Idle::StartTimer);
    read(copy_of(&mut direction), b"ab");
    assert_eq!(copy_of(&mut direction).on_write(2), Ok(()));
    assert_eq!(direction.on_idle(), Idle::Progress);
    assert!(!direction.sleeping);
    assert_eq!(direction.amt, 2);
    assert_eq!(direction.on_idle(), Idle::StartTimer);
}

#[test]
fn both_directions_have_to_end() {
    assert_eq!(both(Some(1), Some(2)), Some((1, 2)));
    assert_eq!(both(Some(1), None), None);
    assert_eq!(both(None, Some(2)), None);
    assert_eq!(both(None, None), None);
}
