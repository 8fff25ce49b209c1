use fuzzy5e::worker::{
    reader_step, writer_step, ReadEvent, ReaderAction, Stage, TeardownStep, WorkerError,
    WorkerState, WriterAction,
};

fn forwarded(text: &str) -> Option<String> {
    match reader_step(ReadEvent::Line(String::from(text))) {
        ReaderAction::Forward(line) => Some(line),
        ReaderAction::Stop => None,
    }
}

#[test]
fn reader_forwards_the_line_without_its_end() {
    assert_eq!(forwarded("OK\r\n"), Some(String::from("OK")));
    assert_eq!(
        forwarded("EVENT QUERY a b\r\n"),
        Some(String::from("EVENT QUERY a b"))
    );
}

#[test]
fn reader_trims_white_space_at_both_ends_only() {
    assert_eq!(forwarded("  \tPENDING  x \r\n"), Some(String::from("PENDING  x")));
    assert_eq!(forwarded("\u{a0}OK\u{3000}\n"), Some(String::from("OK")));
    assert_eq!(forwarded("\u{2003}a\u{85}b\u{1680}"), Some(String::from("a\u{85}b")));
    assert_eq!(forwarded("\u{200b}OK"), Some(String::from("\u{200b}OK")));
}

#[test]
fn reader_forwards_a_blank_line_as_an_empty_one() {
    assert_eq!(forwarded("\r\n"), Some(String::new()));
    assert_eq!(forwarded(" "), Some(String::new()));
}

#[test]
fn reader_stops_when_the_peer_has_closed() {
    assert!(matches!(
        reader_step(ReadEvent::Line(String::new())),
        ReaderAction::Stop
    ));
}

#[test]
fn reader_stops_when_the_read_failed() {
    assert!(matches!(reader_step(ReadEvent::Failed), ReaderAction::Stop));
}

#[test]
fn writer_writes_the_bytes_of_the_line() {
    match writer_step(Some(String::from("QUIT\r\n"))) {
        WriterAction::Write(bytes) => assert_eq!(bytes, b"QUIT\r\n".to_vec()),
        WriterAction::Stop => panic!("the writer stopped"),
    }
    match writer_step(Some(String::from("PUSH c b o \"é\"\r\n"))) {
        WriterAction::Write(bytes) => {
            assert_eq!(bytes, "PUSH c b o \"é\"\r\n".as_bytes().to_vec())
        }
        WriterAction::Stop => panic!("the writer stopped"),
    }
    match writer_step(Some(String::new())) {
        WriterAction::Write(bytes) => assert!(bytes.is_empty()),
        WriterAction::Stop => panic!("the writer stopped"),
    }
}

#[test]
fn writer_stops_when_the_queue_is_closed() {
    assert!(matches!(writer_step(None), WriterAction::Stop));
}

#[test]
fn writers_keep_the_order_of_the_lines() {
    let lines = ["START search pw\r\n", "QUERY a b \"x\"\r\n", "QUIT\r\n"];
    let mut wire: Vec<u8> = Vec::new();
    for line in lines {
        if let WriterAction::Write(bytes) = writer_step(Some(String::from(line))) {
            wire.extend(bytes);
        }
    }
    assert_eq!(wire, lines.concat().into_bytes());
}

#[test]
fn a_running_worker_takes_lines() {
    let state = WorkerState::new();
    assert_eq!(state.stage(), Stage::Running);
    assert!(state.accepts_writes());
    assert_eq!(state.write_outcome(true), Ok(()));
    assert_eq!(state.write_outcome(false), Err(WorkerError::ProcessingError));
}

#[test]
fn a_worker_takes_no_lines_once_teardown_began() {
    let mut state = WorkerState::new();
    state.complete(true);
    assert!(!state.accepts_writes());
    assert_eq!(state.write_outcome(true), Err(WorkerError::ChannelClosedError));
    assert_eq!(state.write_outcome(false), Err(WorkerError::ChannelClosedError));
}

fn take_down(oks: [bool; 4]) -> (Vec<TeardownStep>, Result<(), WorkerError>) {
    let mut state = WorkerState::new();
    let mut steps = Vec::new();
    let mut i = 0;
    while let Some(step) = state.next_step() {
        steps.push(step);
        state.complete(oks[i]);
        i += 1;
    }
    assert_eq!(state.stage(), Stage::Down);
    (steps, state.outcome())
}

#[test]
fn teardown_runs_its_four_steps_in_order() {
    let order = vec![
        TeardownStep::CloseOutbound,
        TeardownStep::JoinWriter,
        TeardownStep::ShutdownSocket,
        TeardownStep::JoinReader,
    ];
    for a in [true, false] {
        for b in [true, false] {
            for c in [true, false] {
                for d in [true, false] {
                    let (steps, outcome) = take_down([a, b, c, d]);
                    assert_eq!(steps, order);
                    assert_eq!(outcome.is_err(), !b || !d);
                }
            }
        }
    }
}

#[test]
fn teardown_reports_a_failed_join() {
    assert_eq!(take_down([true, true, true, true]).1, Ok(()));
    assert_eq!(take_down([true, false, true, true]).1, Err(WorkerError::ThreadError));
    assert_eq!(take_down([true, true, true, false]).1, Err(WorkerError::ThreadError));
    assert_eq!(take_down([false, true, false, true]).1, Ok(()));
}

#[test]
fn a_worker_that_is_down_stays_down() {
    let mut state = WorkerState::new();
    for _ in 0..4 {
        state.complete(true);
    }
    assert_eq!(state.next_step(), None);
    state.complete(false);
    assert_eq!(state.stage(), Stage::Down);
    assert_eq!(state.next_step(), None);
    assert_eq!(state.outcome(), Ok(()));
    assert_eq!(state.write_outcome(true), Err(WorkerError::ChannelClosedError));
}

#[test]
fn worker_errors_are_named() {
    assert_eq!(WorkerError::ProcessingError.to_string(), "ProcessingError");
    assert_eq!(WorkerError::ChannelClosedError.to_string(), "ChannelClosedError");
    assert_eq!(WorkerError::ThreadError.to_string(), "ThreadError");
}
