use razer_chroma::dispatch::{
    Action, Event, Exchange, Transport, BUSY_BACKOFF_MICROS, FEATURE_REPORT_DELAY_MICROS,
};
use razer_chroma::razer::{RazerCmdStatus, RazerError, RazerPacket};

fn request() -> RazerPacket {
    RazerPacket::new(0x03, 0x0A, &[0x05, 0x00])
}

fn answer(status: RazerCmdStatus) -> Vec<u8> {
    let mut p = request();
    p.status = status;
    p.args[0] = 0x42;
    p.create_packet().to_vec()
}

fn timeout() -> RazerError {
    RazerError::HidError("timed out".to_string())
}

struct Tally {
    sends: usize,
    receives: usize,
    delays: usize,
    backoffs: usize,
}

/// Plays an exchange against scripted transport outcomes.
fn play(
    transport: Transport,
    delay: u64,
    mut sends: Vec<Result<(), RazerError>>,
    mut reads: Vec<Result<(usize, Vec<u8>), RazerError>>,
) -> (Result<RazerPacket, RazerError>, Tally) {
    sends.reverse();
    reads.reverse();
    let mut tally = Tally { sends: 0, receives: 0, delays: 0, backoffs: 0 };
    let (mut exchange, mut action) = Exchange::start(request(), transport, delay);
    for _ in 0..100 {
        let event = match action {
            Action::Send(bytes) => {
                assert_eq!(bytes, transport.encode(&request()));
                tally.sends += 1;
                match sends.pop().expect("more sends than scripted") {
                    Ok(()) => Event::Sent,
                    Err(e) => Event::SendFailed(e),
                }
            }
            Action::Sleep(micros) => {
                if micros == delay {
                    tally.delays += 1;
                } else {
                    assert_eq!(micros, BUSY_BACKOFF_MICROS);
                    tally.backoffs += 1;
                }
                Event::Slept
            }
            Action::Receive => {
                tally.receives += 1;
                match reads.pop().expect("more reads than scripted") {
                    Ok((count, bytes)) => Event::Received(count, bytes),
                    Err(e) => Event::ReceiveFailed(e),
                }
            }
            Action::Done(result) => {
                assert!(exchange.is_finished());
                return (result, tally);
            }
        };
        let next = exchange.step(event);
        exchange = next.0;
        action = next.1;
    }
    panic!("the exchange did not end");
}

#[test]
fn success_on_first_attempt() {
    let bytes = answer(RazerCmdStatus::Successful);
    let (result, tally) = play(
        Transport::FeatureReport,
        FEATURE_REPORT_DELAY_MICROS,
        vec![Ok(())],
        vec![Ok((91, bytes.clone()))],
    );
    let response = result.unwrap();
    assert_eq!(response.create_packet().to_vec(), bytes);
    assert_eq!(response.status, RazerCmdStatus::Successful);
    assert!(request().is_same(&response));
    assert_eq!(tally.sends, 1);
    assert_eq!(tally.receives, 1);
    assert_eq!(tally.delays, 1);
    assert_eq!(tally.backoffs, 0);
}

#[test]
fn two_send_timeouts_then_success() {
    let bytes = answer(RazerCmdStatus::Successful);
    let (result, tally) = play(
        Transport::FeatureReport,
        400,
        vec![Err(timeout()), Err(timeout()), Ok(())],
        vec![Ok((91, bytes.clone()))],
    );
    assert_eq!(result.unwrap().create_packet().to_vec(), bytes);
    assert_eq!(tally.sends, 3);
    assert_eq!(tally.receives, 1);
    assert_eq!(tally.delays, 3);
    assert_eq!(tally.backoffs, 0);
}

#[test]
fn two_receive_timeouts_then_success() {
    let bytes = answer(RazerCmdStatus::Successful);
    let (result, tally) = play(
        Transport::FeatureReport,
        400,
        vec![Ok(()), Ok(()), Ok(())],
        vec![Err(timeout()), Err(timeout()), Ok((91, bytes.clone()))],
    );
    assert_eq!(result.unwrap().create_packet().to_vec(), bytes);
    assert_eq!(tally.sends, 3);
    assert_eq!(tally.receives, 3);
    assert_eq!(tally.delays, 3);
    assert_eq!(tally.backoffs, 0);
}

#[test]
fn three_failed_sends_give_the_last_transport_error() {
    let (result, tally) = play(
        Transport::FeatureReport,
        400,
        vec![
            Err(RazerError::HidError("one".to_string())),
            Err(RazerError::HidError("two".to_string())),
            Err(RazerError::HidError("three".to_string())),
        ],
        vec![],
    );
    assert_eq!(result, Err(RazerError::HidError("three".to_string())));
    assert_eq!(tally.sends, 3);
    assert_eq!(tally.receives, 0);
    assert_eq!(tally.delays, 3);
}

#[test]
fn never_more_than_three_attempts() {
    let busy = answer(RazerCmdStatus::Busy);
    let (result, tally) = play(
        Transport::FeatureReport,
        400,
        vec![Ok(()); 10],
        vec![Ok((91, busy.clone())); 10],
    );
    assert_eq!(result, Err(RazerError::ECBusy));
    assert_eq!(tally.sends, 3);
    assert_eq!(tally.receives, 3);
    assert_eq!(tally.delays, 3);
    assert_eq!(tally.backoffs, 3);
}

#[test]
fn busy_then_success_backs_off_once() {
    let (result, tally) = play(
        Transport::FeatureReport,
        400,
        vec![Ok(()), Ok(())],
        vec![
            Ok((91, answer(RazerCmdStatus::Busy))),
            Ok((91, answer(RazerCmdStatus::Successful))),
        ],
    );
    assert!(result.is_ok());
    assert_eq!(tally.sends, 2);
    assert_eq!(tally.delays, 2);
    assert_eq!(tally.backoffs, 1);
}

#[test]
fn device_statuses_map_to_their_errors() {
    let cases = [
        (RazerCmdStatus::Failure, RazerError::ECFailure),
        (RazerCmdStatus::Timeout, RazerError::ECTimeout),
        (RazerCmdStatus::NotSupported, RazerError::CmdNotSupported),
        (RazerCmdStatus::Busy, RazerError::ECBusy),
        (RazerCmdStatus::New, RazerError::InvalidResponse),
    ];
    for (status, error) in cases.iter() {
        let (result, tally) = play(
            Transport::FeatureReport,
            400,
            vec![Ok(()); 3],
            vec![Ok((91, answer(*status))); 3],
        );
        assert_eq!(result, Err(error.duplicate()));
        assert_eq!(tally.sends, 3);
    }
}

#[test]
fn not_supported_uses_the_whole_budget() {
    let (result, tally) = play(
        Transport::FeatureReport,
        400,
        vec![Ok(()); 3],
        vec![
            Ok((91, answer(RazerCmdStatus::NotSupported))),
            Ok((91, answer(RazerCmdStatus::NotSupported))),
            Ok((91, answer(RazerCmdStatus::Successful))),
        ],
    );
    assert!(result.is_ok());
    assert_eq!(tally.sends, 3);
    assert_eq!(tally.backoffs, 0);
}

#[test]
fn uncorrelated_answer_is_invalid() {
    let mut other = request();
    other.status = RazerCmdStatus::Successful;
    other.cmd_class = 0x07;
    let bytes = other.create_packet().to_vec();
    let (result, tally) = play(
        Transport::FeatureReport,
        400,
        vec![Ok(()); 3],
        vec![Ok((91, bytes.clone())); 3],
    );
    assert_eq!(result, Err(RazerError::InvalidResponse));
    assert_eq!(tally.sends, 3);
    assert_eq!(tally.backoffs, 0);
}

#[test]
fn unknown_status_byte_is_invalid() {
    let mut bytes = answer(RazerCmdStatus::Successful);
    bytes[1] = 9;
    let (result, _) = play(
        Transport::FeatureReport,
        400,
        vec![Ok(()); 3],
        vec![Ok((91, bytes.clone())); 3],
    );
    assert_eq!(result, Err(RazerError::InvalidResponse));
}

#[test]
fn short_reads_end_in_timeout() {
    let bytes = answer(RazerCmdStatus::Successful);
    let (result, tally) = play(
        Transport::FeatureReport,
        400,
        vec![Ok(()); 3],
        vec![Ok((90, bytes.clone())), Ok((0, bytes.clone())), Ok((64, bytes.clone()))],
    );
    assert_eq!(result, Err(RazerError::ECTimeout));
    assert_eq!(tally.sends, 3);
    assert_eq!(tally.receives, 3);
}

#[test]
fn short_read_keeps_the_recorded_error() {
    let bytes = answer(RazerCmdStatus::Successful);
    let (result, _) = play(
        Transport::FeatureReport,
        400,
        vec![Ok(()); 3],
        vec![
            Ok((91, answer(RazerCmdStatus::Failure))),
            Ok((12, bytes.clone())),
            Ok((12, bytes.clone())),
        ],
    );
    assert_eq!(result, Err(RazerError::ECFailure));
}

#[test]
fn short_buffer_counts_as_short_read() {
    let mut bytes = answer(RazerCmdStatus::Successful);
    bytes.truncate(50);
    let (result, _) = play(
        Transport::FeatureReport,
        400,
        vec![Ok(()); 3],
        vec![Ok((91, bytes.clone())); 3],
    );
    assert_eq!(result, Err(RazerError::ECTimeout));
}

#[test]
fn control_transfer_uses_ninety_byte_frames() {
    let mut p = request();
    p.status = RazerCmdStatus::Successful;
    let frame = p.create_frame().to_vec();
    assert_eq!(Transport::ControlTransfer.frame_len(), 90);
    assert_eq!(Transport::FeatureReport.frame_len(), 91);
    assert_eq!(Transport::ControlTransfer.encode(&request()), request().create_frame().to_vec());
    let (result, tally) = play(
        Transport::ControlTransfer,
        600,
        vec![Ok(()), Ok(())],
        vec![Ok((91, answer(RazerCmdStatus::Successful))), Ok((90, frame.clone()))],
    );
    assert_eq!(result, Ok(p));
    assert_eq!(tally.sends, 2);
    assert_eq!(tally.delays, 2);
}

#[test]
fn transport_decode_checks_the_length() {
    let p = request();
    assert_eq!(Transport::FeatureReport.decode(&p.create_packet()), Some(p));
    assert_eq!(Transport::FeatureReport.decode(&p.create_frame()), None);
    assert_eq!(Transport::ControlTransfer.decode(&p.create_frame()), Some(p));
    assert_eq!(Transport::ControlTransfer.decode(&p.create_packet()), None);
    assert_eq!(Transport::ControlTransfer.decode(&[]), None);
}

#[test]
fn unexpected_event_changes_nothing() {
    let (exchange, action) = Exchange::start(request(), Transport::FeatureReport, 400);
    assert_eq!(action, Action::Send(request().create_packet().to_vec()));
    let (exchange, action) = exchange.step(Event::Slept);
    assert_eq!(action, Action::Send(request().create_packet().to_vec()));
    assert_eq!(exchange.attempts(), 1);
    let (exchange, action) = exchange.step(Event::Received(91, answer(RazerCmdStatus::Successful)));
    assert_eq!(action, Action::Send(request().create_packet().to_vec()));
    let (exchange, action) = exchange.step(Event::Sent);
    assert_eq!(action, Action::Sleep(400));
    let (exchange, action) = exchange.step(Event::Sent);
    assert_eq!(action, Action::Sleep(400));
    let (exchange, action) = exchange.step(Event::Slept);
    assert_eq!(action, Action::Receive);
    assert_eq!(exchange.pending(), Action::Receive);
    assert!(!exchange.is_finished());
}

#[test]
fn finished_exchange_repeats_its_verdict() {
    let (exchange, _) = Exchange::start(request(), Transport::FeatureReport, 400);
    let (exchange, _) = exchange.step(Event::Sent);
    let (exchange, _) = exchange.step(Event::Slept);
    let (exchange, action) = exchange.step(Event::Received(91, answer(RazerCmdStatus::Successful)));
    let verdict = match action {
        Action::Done(Ok(p)) => p,
        other => panic!("expected success, got {:?}", other),
    };
    let (exchange, action) = exchange.step(Event::Slept);
    assert_eq!(action, Action::Done(Ok(verdict)));
    assert!(exchange.is_finished());
    assert_eq!(exchange.attempts(), 1);
}

#[test]
fn usb_failures_come_back_as_usb_errors() {
    let (result, tally) = play(
        Transport::ControlTransfer,
        600,
        vec![Ok(()), Err(RazerError::UsbError("pipe".to_string())), Ok(())],
        vec![
            Err(RazerError::UsbError("timeout".to_string())),
            Err(RazerError::UsbError("no device".to_string())),
        ],
    );
    assert_eq!(result, Err(RazerError::UsbError("no device".to_string())));
    assert_eq!(tally.sends, 3);
    assert_eq!(tally.receives, 2);
    assert_eq!(tally.delays, 3);
    assert_eq!(tally.backoffs, 0);
}

#[test]
fn later_error_replaces_earlier_one() {
    let (result, _) = play(
        Transport::FeatureReport,
        400,
        vec![Ok(()), Ok(()), Ok(())],
        vec![
            Err(timeout()),
            Ok((91, answer(RazerCmdStatus::Failure))),
            Ok((91, answer(RazerCmdStatus::NotSupported))),
        ],
    );
    assert_eq!(result, Err(RazerError::CmdNotSupported));
}
