//! The control socket and its replies.

use scurry::ipc::{
    ack_message, ack_name, dispatch, kind_name, local, no_answer, read_reply_header, refusal,
    socket_path, DaemonState, Dispatch, ReplyError,
};
use scurry::proto::{ack, kind, Header, MAX_PAYLOAD};
use scurry::transport::ble::Air;
use scurry::transport::{Dongle, LinkError};

/// Two requesters must not lose whichever reply arrives second.
#[test]
fn concurrent_requests_each_get_their_own_reply() {
    let mut state = DaemonState::default();
    let cfg = state.register(kind::CONFIG);
    let status = state.register(kind::STATUS);

    // Out of order on purpose: the second requester is answered first.
    assert!(state.deliver(kind::STATUS, vec![7]));
    assert!(cfg.is_waiting(&state));
    assert!(!status.is_waiting(&state));
    assert!(state.deliver(kind::CONFIG, vec![9]));
    assert_eq!(cfg.wait(&mut state), Some((kind::CONFIG, vec![9])));
    assert_eq!(status.wait(&mut state), Some((kind::STATUS, vec![7])));
}

#[test]
fn an_ack_goes_to_the_request_that_expects_one() {
    let mut state = DaemonState::default();
    let cfg = state.register(kind::CONFIG);
    let write = state.register(kind::ACK);

    state.deliver(kind::ACK, vec![ack::INVALID_LAYOUT]);
    let refused = Some((kind::ACK, vec![ack::INVALID_LAYOUT]));
    assert_eq!(write.wait(&mut state), refused);
    assert_eq!(cfg.wait(&mut state), None, "the layout query is still outstanding");
    assert!(cfg.is_waiting(&state));
}

#[test]
fn an_unexpected_ack_refuses_the_oldest_request() {
    let mut state = DaemonState::default();
    let first = state.register(kind::CONFIG);
    let second = state.register(kind::STATUS);

    state.deliver(kind::ACK, vec![ack::BAD_REQUEST]);
    assert_eq!(first.wait(&mut state), Some((kind::ACK, vec![ack::BAD_REQUEST])));
    assert_eq!(second.wait(&mut state), None);
}

#[test]
fn a_late_reply_is_dropped_rather_than_handed_to_the_next_requester() {
    let mut state = DaemonState::default();
    // A layout query that has already given up.
    let gone = state.register(kind::CONFIG);
    state.finish(gone);
    assert_eq!(state.outstanding(), 0, "a finished request is deregistered");

    let status = state.register(kind::STATUS);
    assert!(!state.deliver(kind::CONFIG, vec![9]));
    assert_eq!(status.wait(&mut state), None, "the status request wants a status");
    state.deliver(kind::STATUS, vec![7]);
    assert_eq!(status.wait(&mut state), Some((kind::STATUS, vec![7])));
}

#[test]
fn a_daemon_refusal_carries_its_reason_past_readers_that_want_a_code() {
    let reason = "the dongle did not answer a status request within 3s";
    let body = refusal(reason);
    assert_eq!(body[0], ack::BAD_REQUEST);
    assert_eq!(ack_message(&body), reason);
    // The dongle's own one-byte ACKs still read as their code.
    assert_eq!(ack_message(&[ack::INVALID_LAYOUT]), "invalid layout");
    assert_eq!(ack_message(&[]), "bad request");
}

#[test]
fn a_long_refusal_is_cut_to_fit_the_wire_without_splitting_a_character() {
    let body = refusal(&"é".repeat(MAX_PAYLOAD));
    assert!(body.len() <= MAX_PAYLOAD);
    assert!(std::str::from_utf8(&body[1..]).is_ok());
}

#[test]
fn requests_are_named_for_people() {
    assert_eq!(kind_name(kind::GET_CONFIG), "a request for the layout");
    assert_eq!(kind_name(kind::SET_CONFIG), "a layout write");
    assert_eq!(kind_name(kind::GET_STATUS), "a status request");
    assert_eq!(kind_name(kind::PING), "a ping");
    assert_eq!(kind_name(0x0a), "a 0x0a request");
    assert_eq!(
        no_answer(kind::PING, "3s"),
        "the dongle did not answer a ping within 3s"
    );
}

#[test]
fn acknowledgements_read_as_words() {
    assert_eq!(ack_name(ack::OK), "ok");
    assert_eq!(ack_name(ack::STORAGE_FAILED), "storage failed");
    assert_eq!(ack_name(200), "unknown error");
    assert_eq!(ack_message(&[1, 0xff]), "\u{fffd}");
    assert_eq!(refusal(""), vec![ack::BAD_REQUEST]);
    let whole = "x".repeat(MAX_PAYLOAD - 1);
    assert_eq!(ack_message(&refusal(&whole)), whole);
    // 510 bytes of two-byte characters and one more that does not fit.
    let cut = refusal(&"\u{e9}".repeat(256));
    assert_eq!(cut.len(), 511);
}

#[test]
fn the_daemon_answers_for_itself_and_forwards_the_rest() {
    assert_eq!(
        dispatch(local::GET_DAEMON_STATUS, 3),
        Dispatch::Answer { kind: local::DAEMON_STATUS, focus: 3, link_ok: 1 }
    );
    for (req, want) in [
        (kind::GET_CONFIG, kind::CONFIG),
        (kind::GET_STATUS, kind::STATUS),
        (kind::GET_WIRELESS, kind::WIRELESS),
        (kind::GET_FIRMWARE, kind::FIRMWARE),
        (kind::OTA_DATA, kind::OTA_STATUS),
        (kind::PING, kind::PONG),
        (kind::SET_CONFIG, kind::ACK),
        (kind::OTA_BEGIN, kind::ACK),
    ] {
        assert_eq!(dispatch(req, 0), Dispatch::Forward { want });
    }
}

#[test]
fn a_request_is_registered_before_it_is_sent() {
    let mut state = DaemonState::default();
    let mut link = Dongle::open("/dev/ttyACM0");
    let air = Air::connected();
    assert!(state.has_ids());
    let (pending, out) =
        state.request(&mut link, &air, kind::GET_STATUS, &[], kind::STATUS).unwrap();
    assert_eq!(out, scurry::transport::encode(kind::GET_STATUS, 0, &[]));
    assert_eq!(state.outstanding(), 1);
    state.deliver(kind::STATUS, vec![0]);
    assert!(!pending.is_waiting(&state));
    assert_eq!(pending.wait(&mut state), Some((kind::STATUS, vec![0])));
    state.finish(pending);
    let err = state
        .request(&mut link, &air, kind::SET_CONFIG, &vec![0u8; MAX_PAYLOAD + 1], kind::ACK)
        .unwrap_err();
    assert_eq!(err, LinkError::PayloadTooLong(MAX_PAYLOAD + 1));
    assert_eq!(state.outstanding(), 0, "a request that was not sent waits for nothing");
}

#[test]
fn a_reply_header_is_checked() {
    let head = Header::encode(kind::CONFIG, 0, 300);
    assert_eq!(read_reply_header(&head), Ok((kind::CONFIG, 300)));
    let mut foreign = head;
    foreign[1] = 2;
    let err = read_reply_header(&foreign).unwrap_err();
    assert_eq!(err.message(), "reply is not a scurry message");
    let err = read_reply_header(&Header::encode(kind::CONFIG, 0, 513)).unwrap_err();
    assert_eq!(err, ReplyError::Implausible(513));
    assert_eq!(err.message(), "reply payload of 513 bytes is implausible");
}

#[test]
fn the_socket_lives_in_the_session_or_at_home() {
    assert_eq!(socket_path(Some("/run/user/1000"), Some("/home/a")), "/run/user/1000/scurry.sock");
    assert_eq!(socket_path(None, Some("/home/a/")), "/home/a/.scurry.sock");
    assert_eq!(socket_path(None, None), ".scurry.sock");
}

/// Whatever order requests and replies come in, an answer is of the kind that
/// was asked for, or an ACK.
#[test]
fn no_request_is_handed_another_kind() {
    let mut state = DaemonState::default();
    let wants = [kind::CONFIG, kind::ACK, kind::STATUS, kind::CONFIG, kind::PONG];
    let replies = [kind::STATUS, kind::FOCUS, kind::CONFIG, kind::ACK, kind::ACK, kind::CONFIG];
    for turn in 0..30 {
        let held: Vec<_> = (0..wants.len())
            .map(|i| wants[(i + turn) % wants.len()])
            .map(|want| (want, state.register(want)))
            .collect();
        for i in 0..replies.len() {
            state.deliver(replies[(i * 5 + turn) % replies.len()], vec![i as u8]);
        }
        for (want, pending) in held {
            if let Some((got, _)) = pending.wait(&mut state) {
                assert!(got == want || got == kind::ACK, "wanted {want}, got {got}");
                assert!(pending.is_waiting(&state), "an answer is taken once");
            }
            state.finish(pending);
        }
        assert_eq!(state.outstanding(), 0);
    }
}

#[test]
fn a_cut_refusal_keeps_every_character_that_fits() {
    for extra in 0..4 {
        let reason = format!("{}{}", "x".repeat(extra), "\u{20ac}".repeat(MAX_PAYLOAD));
        let out = refusal(&reason);
        let room = MAX_PAYLOAD - 1 - extra;
        assert_eq!(out.len(), 1 + extra + room / 3 * 3);
        assert!(reason.as_bytes().starts_with(&out[1..]));
    }
}
