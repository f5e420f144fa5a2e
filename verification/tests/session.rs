use udp_discovery::session::effective_timeout_secs;
use udp_discovery::session::probe_payload;
use udp_discovery::session::RecvEvent;
use udp_discovery::session::RecvFailure;
use udp_discovery::session::session_step;
use udp_discovery::session::SessionStep;
use udp_discovery::session::DEFAULT_PORT;
use udp_discovery::session::DEFAULT_TIMEOUT_SECS;
use udp_discovery::session::MAX_DATAGRAM_LEN;
use udp_discovery::session::PROBE_BYTE;

#[test]
fn probe_is_the_single_discovery_byte() {
    let p = probe_payload();
    assert_eq!(p, vec![0x44u8]);
    assert_eq!(p.as_slice(), b"D");
    assert_eq!(PROBE_BYTE, b'D');
}

#[test]
fn configuration_defaults() {
    assert_eq!(DEFAULT_PORT, 30303);
    assert_eq!(DEFAULT_TIMEOUT_SECS, 1);
    assert_eq!(MAX_DATAGRAM_LEN, 256);
}

#[test]
fn zero_timeout_falls_back_to_the_default_second() {
    assert_eq!(effective_timeout_secs(0), 1);
    assert_eq!(effective_timeout_secs(1), 1);
    assert_eq!(effective_timeout_secs(7), 7);
    assert_eq!(effective_timeout_secs(u64::MAX), u64::MAX);
}

#[test]
fn timed_out_read_terminates_the_round() {
    assert!(matches!(
        session_step(RecvEvent::Failed(RecvFailure::TimedOut)),
        SessionStep::Terminate
    ));
}

#[test]
fn would_block_read_terminates_the_round() {
    assert!(matches!(
        session_step(RecvEvent::Failed(RecvFailure::WouldBlock)),
        SessionStep::Terminate
    ));
}

#[test]
fn other_receive_failure_is_skipped_not_terminal() {
    assert!(matches!(
        session_step(RecvEvent::Failed(RecvFailure::Other)),
        SessionStep::Skip
    ));
}

#[test]
fn malformed_datagram_never_stops_the_session() {
    let step = session_step(RecvEvent::Datagram {
        payload: vec![0xff, 0xfe, 0xfd],
        source: String::from("10.0.0.9:30303"),
    });
    assert!(matches!(step, SessionStep::Skip));
    let step = session_step(RecvEvent::Datagram {
        payload: b"not a record".to_vec(),
        source: String::from("10.0.0.9:30303"),
    });
    assert!(matches!(step, SessionStep::Skip));
}

#[test]
fn valid_datagram_emits_its_record_with_its_source() {
    let step = session_step(RecvEvent::Datagram {
        payload: b"host\r\nFF:FF:FF:FF:FF:FF\r\n0".to_vec(),
        source: String::from("192.168.1.50:30303"),
    });
    match step {
        SessionStep::Emit { record, source } => {
            assert_eq!(record.name, "host");
            assert_eq!(record.mac_id, "FF:FF:FF:FF:FF:FF");
            assert_eq!(record.status, "0");
            assert_eq!(record.owner_ip, "");
            assert_eq!(source, "192.168.1.50:30303");
        }
        _ => panic!("expected an emitted record"),
    }
}

#[test]
fn two_datagrams_from_distinct_sources_emit_two_rows_in_receipt_order() {
    let events = vec![
        RecvEvent::Datagram {
            payload: b"router\r\nAA:BB:CC:DD:EE:FF\r\n1192.168.1.1".to_vec(),
            source: String::from("192.168.1.1:30303"),
        },
        RecvEvent::Datagram {
            payload: b"host\r\nFF:FF:FF:FF:FF:FF\r\n0".to_vec(),
            source: String::from("192.168.1.2:30303"),
        },
        RecvEvent::Failed(RecvFailure::TimedOut),
    ];
    let mut rows: Vec<(String, String)> = Vec::new();
    let mut terminated = false;
    for event in events {
        match session_step(event) {
            SessionStep::Emit { record, source } => rows.push((record.name, source)),
            SessionStep::Skip => {}
            SessionStep::Terminate => {
                terminated = true;
                break;
            }
        }
    }
    assert!(terminated);
    assert_eq!(rows.len(), 2);
    assert_eq!(rows[0], (String::from("router"), String::from("192.168.1.1:30303")));
    assert_eq!(rows[1], (String::from("host"), String::from("192.168.1.2:30303")));
}
