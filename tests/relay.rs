use agent_relay::relay::{
    session_status, DownPhase, Downlink, Event, IoClass, SessionStatus, Step, UpPhase, Uplink,
    PROBE_INTERVAL_MS,
};

/// Feeds `input` to the input direction in chunks of the given sizes, lets the
/// transport accept at most `write_limit` bytes per write, and records what the
/// transport saw. Returns the bytes and the operations other than writes.
fn drive_uplink(mut u: Uplink, input: &[u8], chunks: &[usize], write_limit: usize) -> (Vec<u8>, Vec<Step>) {
    let mut seen = Vec::new();
    let mut ops = Vec::new();
    let mut at = 0;
    let mut chunk = 0;
    for _ in 0..10_000 {
        match u.step() {
            Step::ReadSource => {
                let size = if at < input.len() { chunks[chunk % chunks.len()].min(input.len() - at) } else { 0 };
                chunk += 1;
                u.on_event(Event::Read(input[at..at + size].to_vec()));
                at += size;
            }
            Step::WriteSink => {
                let bytes = u.pending_bytes();
                let n = bytes.len().min(write_limit);
                seen.extend_from_slice(&bytes[..n]);
                u.on_event(Event::Wrote(n));
            }
            s @ (Step::SendEmptyMessage | Step::ShutdownWrite) => {
                ops.push(s);
                u.on_event(Event::Done);
            }
            s => {
                ops.push(s);
                break;
            }
        }
    }
    (seen, ops)
}

fn sample(n: usize) -> Vec<u8> {
    (0..n).map(|i| (i * 7 + 3) as u8).collect()
}

#[test]
fn input_bytes_reach_transport_unchanged() {
    let input = sample(1000);
    for (chunks, limit) in [(vec![1], 1), (vec![3, 7, 64], 5), (vec![1000], 1000), (vec![999, 1], 2)] {
        let (seen, ops) = drive_uplink(Uplink::new(false, false), &input, &chunks, limit);
        assert_eq!(seen, input);
        assert_eq!(ops, vec![Step::ShutdownWrite, Step::Finished]);
    }
}

#[test]
fn empty_input_sends_nothing() {
    let (seen, ops) = drive_uplink(Uplink::new(false, false), &[], &[8], 8);
    assert!(seen.is_empty());
    assert_eq!(ops, vec![Step::ShutdownWrite, Step::Finished]);
}

#[test]
fn eof_policy_matrix() {
    let cases = [
        (true, false, vec![Step::Finished]),
        (true, true, vec![Step::Finished]),
        (false, true, vec![Step::SendEmptyMessage, Step::ShutdownWrite, Step::Finished]),
        (false, false, vec![Step::ShutdownWrite, Step::Finished]),
    ];
    for (close_on_stdin_eof, close_write, expected) in cases {
        let (seen, ops) = drive_uplink(Uplink::new(close_on_stdin_eof, close_write), b"abc", &[2], 2);
        assert_eq!(seen, b"abc".to_vec());
        assert_eq!(ops, expected);
    }
}

#[test]
fn pipe_session_sends_empty_message_before_half_close() {
    let mut u = Uplink::new(false, true);
    assert_eq!(u.step(), Step::ReadSource);
    u.on_event(Event::Read(Vec::new()));
    assert_eq!(u.step(), Step::SendEmptyMessage);
    assert_eq!(u.phase, UpPhase::SendingEmpty);
    u.on_event(Event::Done);
    assert_eq!(u.step(), Step::ShutdownWrite);
    u.on_event(Event::Done);
    assert_eq!(u.step(), Step::Finished);
}

#[test]
fn zero_length_write_fails_input_direction() {
    let mut u = Uplink::new(false, false);
    u.on_event(Event::Read(b"xy".to_vec()));
    assert_eq!(u.step(), Step::WriteSink);
    u.on_event(Event::Wrote(0));
    assert_eq!(u.step(), Step::Failed);
}

#[test]
fn input_read_error_fails_input_direction() {
    let mut u = Uplink::new(false, false);
    u.on_event(Event::Error(IoClass::BrokenPipe));
    assert_eq!(u.phase, UpPhase::Failed);
}

#[test]
fn tcp_session_relays_hello_then_ends() {
    let up = Uplink::new(false, false);
    let mut down = Downlink::new(true);
    let mut stdout = Vec::new();
    assert_eq!(down.step(), Step::ReadSource);
    down.on_event(Event::Read(b"hello".to_vec()));
    assert_eq!(down.step(), Step::WriteSink);
    let bytes = down.pending_bytes();
    stdout.extend_from_slice(&bytes[..3]);
    down.on_event(Event::Wrote(3));
    assert_eq!(down.step(), Step::WriteSink);
    let bytes = down.pending_bytes();
    stdout.extend_from_slice(&bytes);
    down.on_event(Event::Wrote(bytes.len()));
    assert_eq!(session_status(up.phase, down.phase), SessionStatus::Running);
    down.on_event(Event::Read(Vec::new()));
    assert_eq!(down.step(), Step::Finished);
    assert_eq!(stdout, b"hello".to_vec());
    assert_eq!(session_status(up.phase, down.phase), SessionStatus::Finished);
}

#[test]
fn pipe_eof_is_probed_until_broken_pipe() {
    let mut d = Downlink::new(false);
    d.on_event(Event::Read(Vec::new()));
    assert_eq!(d.step(), Step::Probe);
    d.on_event(Event::ProbeOk);
    assert_eq!(d.step(), Step::Wait(PROBE_INTERVAL_MS));
    assert_eq!(PROBE_INTERVAL_MS, 50);
    d.on_event(Event::Done);
    assert_eq!(d.step(), Step::Probe);
    d.on_event(Event::Error(IoClass::BrokenPipe));
    assert_eq!(d.step(), Step::Finished);
}

#[test]
fn probe_with_other_error_fails() {
    let mut d = Downlink::new(false);
    d.on_event(Event::Read(Vec::new()));
    d.on_event(Event::Error(IoClass::Other));
    assert_eq!(d.phase, DownPhase::Failed);
}

#[test]
fn read_after_peer_teardown_is_success() {
    for class in [IoClass::BrokenPipe, IoClass::NotConnected] {
        let mut d = Downlink::new(false);
        d.on_event(Event::Error(class));
        assert_eq!(d.phase, DownPhase::Finished);
    }
    let mut d = Downlink::new(false);
    d.on_event(Event::Error(IoClass::Other));
    assert_eq!(d.phase, DownPhase::Failed);
}

#[test]
fn stdout_write_error_fails_output_direction() {
    let mut d = Downlink::new(true);
    d.on_event(Event::Read(b"z".to_vec()));
    d.on_event(Event::Error(IoClass::BrokenPipe));
    assert_eq!(d.phase, DownPhase::Failed);
}

#[test]
fn transport_bytes_reach_stdout_unchanged() {
    let input = sample(300);
    let mut d = Downlink::new(true);
    let mut out = Vec::new();
    let mut at = 0;
    loop {
        match d.step() {
            Step::ReadSource => {
                let size = 17.min(input.len() - at);
                d.on_event(Event::Read(input[at..at + size].to_vec()));
                at += size;
            }
            Step::WriteSink => {
                let b = d.pending_bytes();
                let n = b.len().min(4);
                out.extend_from_slice(&b[..n]);
                d.on_event(Event::Wrote(n));
            }
            s => {
                assert_eq!(s, Step::Finished);
                break;
            }
        }
    }
    assert_eq!(out, input);
}

#[test]
fn session_status_rules() {
    assert_eq!(session_status(UpPhase::Reading, DownPhase::Reading), SessionStatus::Running);
    assert_eq!(session_status(UpPhase::Finished, DownPhase::Reading), SessionStatus::Finished);
    assert_eq!(session_status(UpPhase::Finished, DownPhase::Probing), SessionStatus::Finished);
    assert_eq!(session_status(UpPhase::ShuttingDown, DownPhase::Waiting), SessionStatus::Running);
    assert_eq!(session_status(UpPhase::Finished, DownPhase::Failed), SessionStatus::Failed);
    assert_eq!(session_status(UpPhase::Finished, DownPhase::Finished), SessionStatus::Finished);
    assert_eq!(session_status(UpPhase::Writing, DownPhase::Finished), SessionStatus::Finished);
    assert_eq!(session_status(UpPhase::Failed, DownPhase::Finished), SessionStatus::Failed);
    assert_eq!(session_status(UpPhase::Reading, DownPhase::Failed), SessionStatus::Failed);
}
