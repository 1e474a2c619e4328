use multiwii_serial_protocol::encode;
use multiwii_serial_protocol::Delivery;
use multiwii_serial_protocol::MspDispatcher;
use multiwii_serial_protocol::MspPacket;
use multiwii_serial_protocol::MspPacketDirection;
use multiwii_serial_protocol::MspPacketParseError;
use multiwii_serial_protocol::MspVersion;

fn request(cmd: u16) -> MspPacket {
    MspPacket { cmd, direction: MspPacketDirection::ToFlightController, data: vec![] }
}

fn response(cmd: u16, data: Vec<u8>) -> MspPacket {
    MspPacket { cmd, direction: MspPacketDirection::FromFlightController, data }
}

fn inject(d: &mut MspDispatcher, frame: &MspPacket, now: u64) -> Vec<Delivery> {
    let bytes = encode(frame, MspVersion::V2).unwrap();
    let mut all = Vec::new();
    for b in bytes {
        let (deliveries, complaint) = d.on_byte(b, now);
        assert_eq!(None, complaint);
        all.extend(deliveries);
    }
    all
}

#[test]
fn dispatcher_matches_response_to_request() {
    let mut d = MspDispatcher::new(MspVersion::V2, 100);
    let bytes = d.submit(&request(42), 7, 0).unwrap();
    assert_eq!(vec![0x24, 0x58, 0x3C, 0x00, 0x2A, 0x00, 0x00, 0x00], bytes[..8].to_vec());
    assert_eq!(9, bytes.len());
    assert_eq!(1, d.pending_len());

    let answer = response(42, vec![0x01]);
    let out = inject(&mut d, &answer, 10);
    assert_eq!(vec![Delivery { ticket: 7, outcome: Ok(answer) }], out);
    assert_eq!(0, d.pending_len());
}

#[test]
fn dispatcher_is_fifo_within_a_command() {
    let mut d = MspDispatcher::new(MspVersion::V2, 1000);
    d.submit(&request(5), 1, 0).unwrap();
    d.submit(&request(5), 2, 1).unwrap();
    let a = response(5, vec![0xA]);
    let b = response(5, vec![0xB]);
    assert_eq!(vec![Delivery { ticket: 1, outcome: Ok(a.clone()) }], inject(&mut d, &a, 2));
    assert_eq!(vec![Delivery { ticket: 2, outcome: Ok(b.clone()) }], inject(&mut d, &b, 3));
    assert_eq!(0, d.pending_len());
}

#[test]
fn dispatcher_scans_past_other_commands() {
    let mut d = MspDispatcher::new(MspVersion::V2, 1000);
    d.submit(&request(1), 10, 0).unwrap();
    d.submit(&request(2), 20, 0).unwrap();
    d.submit(&request(3), 30, 0).unwrap();
    let b = response(2, vec![9]);
    assert_eq!(vec![Delivery { ticket: 20, outcome: Ok(b.clone()) }], inject(&mut d, &b, 5));
    assert_eq!(2, d.pending_len());
    let c = response(3, vec![]);
    assert_eq!(vec![Delivery { ticket: 30, outcome: Ok(c.clone()) }], inject(&mut d, &c, 5));
    let a = response(1, vec![]);
    assert_eq!(vec![Delivery { ticket: 10, outcome: Ok(a.clone()) }], inject(&mut d, &a, 5));
    assert_eq!(0, d.pending_len());
}

#[test]
fn dispatcher_drops_unsolicited_response() {
    let mut d = MspDispatcher::new(MspVersion::V2, 1000);
    d.submit(&request(1), 10, 0).unwrap();
    assert_eq!(Vec::<Delivery>::new(), inject(&mut d, &response(99, vec![1, 2]), 5));
    assert_eq!(1, d.pending_len());
}

#[test]
fn dispatcher_times_out_on_tick() {
    let mut d = MspDispatcher::new(MspVersion::V2, 100);
    d.submit(&request(1), 10, 50).unwrap();
    assert_eq!(Vec::<Delivery>::new(), d.reap(149));
    assert_eq!(Vec::<Delivery>::new(), d.reap(150));
    assert_eq!(1, d.pending_len());
    assert_eq!(
        vec![Delivery { ticket: 10, outcome: Err(MspPacketParseError::TimedOut) }],
        d.reap(151)
    );
    assert_eq!(0, d.pending_len());
}

#[test]
fn dispatcher_reaps_heads_before_matching() {
    let mut d = MspDispatcher::new(MspVersion::V2, 100);
    d.submit(&request(5), 1, 0).unwrap();
    d.submit(&request(6), 2, 10).unwrap();
    d.submit(&request(5), 3, 200).unwrap();
    let answer = response(5, vec![0x77]);
    let out = inject(&mut d, &answer, 250);
    assert_eq!(
        vec![
            Delivery { ticket: 1, outcome: Err(MspPacketParseError::TimedOut) },
            Delivery { ticket: 2, outcome: Err(MspPacketParseError::TimedOut) },
            Delivery { ticket: 3, outcome: Ok(answer) },
        ],
        out
    );
    assert_eq!(0, d.pending_len());
}

#[test]
fn dispatcher_sweep_stops_at_live_head() {
    let mut d = MspDispatcher::new(MspVersion::V2, 100);
    d.submit(&request(1), 1, 500).unwrap();
    d.submit(&request(2), 2, 0).unwrap();
    assert_eq!(Vec::<Delivery>::new(), d.reap(300));
    assert_eq!(2, d.pending_len());
}

#[test]
fn dispatcher_parse_error_fails_no_request() {
    let mut d = MspDispatcher::new(MspVersion::V2, 100);
    d.submit(&request(42), 7, 0).unwrap();
    let mut bytes = encode(&response(42, vec![1]), MspVersion::V2).unwrap();
    let last = bytes.len() - 1;
    let sum = bytes[last];
    bytes[last] ^= 0x01;
    for b in &bytes[..last] {
        assert_eq!((Vec::<Delivery>::new(), None), d.on_byte(*b, 1));
    }
    assert_eq!(
        (
            Vec::<Delivery>::new(),
            Some(MspPacketParseError::CrcMismatch { expected: sum ^ 0x01, calculated: sum })
        ),
        d.on_byte(bytes[last], 1)
    );
    assert_eq!(1, d.pending_len());
    let good = response(42, vec![1]);
    assert_eq!(vec![Delivery { ticket: 7, outcome: Ok(good.clone()) }], inject(&mut d, &good, 2));
}

#[test]
fn dispatcher_shutdown_cancels_everything() {
    let mut d = MspDispatcher::new(MspVersion::V2, 100);
    d.submit(&request(1), 1, 0).unwrap();
    d.submit(&request(2), 2, 0).unwrap();
    assert_eq!(
        vec![
            Delivery { ticket: 1, outcome: Err(MspPacketParseError::Cancelled) },
            Delivery { ticket: 2, outcome: Err(MspPacketParseError::Cancelled) },
        ],
        d.shutdown()
    );
    assert_eq!(0, d.pending_len());
    assert_eq!(Vec::<Delivery>::new(), d.shutdown());
}

#[test]
fn dispatcher_v1_refuses_what_v1_cannot_hold() {
    let mut d = MspDispatcher::new(MspVersion::V1, 100);
    assert_eq!(Err(MspPacketParseError::PayloadTooLarge), d.submit(&request(300), 1, 0));
    assert_eq!(0, d.pending_len());
    let bytes = d.submit(&request(10), 2, 0).unwrap();
    assert_eq!(vec![0x24, 0x4D, 0x3C, 0x00, 0x0A, 0x0A], bytes);
    assert_eq!(1, d.pending_len());
}

#[test]
fn dispatcher_deadline_saturates() {
    let mut d = MspDispatcher::new(MspVersion::V2, u64::MAX);
    d.submit(&request(1), 1, 5).unwrap();
    assert_eq!(Vec::<Delivery>::new(), d.reap(u64::MAX));
    assert_eq!(1, d.pending_len());
}

#[test]
fn encode_both_versions() {
    let frame = MspPacket {
        cmd: 2,
        direction: MspPacketDirection::ToFlightController,
        data: vec![0xBE, 0xEF],
    };
    assert_eq!(
        Ok(vec![0x24, 0x4D, 0x3C, 0x02, 0x02, 0xBE, 0xEF, 0x51]),
        encode(&frame, MspVersion::V1)
    );
    let v2 = encode(&frame, MspVersion::V2).unwrap();
    assert_eq!(11, v2.len());
    assert_eq!(vec![0x24, 0x58, 0x3C, 0x00, 0x02, 0x00, 0x02, 0x00, 0xBE, 0xEF], v2[..10].to_vec());
}

#[test]
fn dispatcher_write_failure_removes_that_request() {
    let mut d = MspDispatcher::new(MspVersion::V2, 100);
    d.submit(&request(1), 1, 0).unwrap();
    d.submit(&request(2), 2, 0).unwrap();
    d.submit(&request(3), 3, 0).unwrap();
    assert_eq!(
        Some(Delivery { ticket: 2, outcome: Err(MspPacketParseError::Transport) }),
        d.write_failed(2)
    );
    assert_eq!(2, d.pending_len());
    assert_eq!(None, d.write_failed(2));
    assert_eq!(2, d.pending_len());
    let c = response(3, vec![]);
    assert_eq!(vec![Delivery { ticket: 3, outcome: Ok(c.clone()) }], inject(&mut d, &c, 1));
    let b = response(2, vec![]);
    assert_eq!(Vec::<Delivery>::new(), inject(&mut d, &b, 1));
}

#[test]
fn dispatcher_read_failure_fails_everything() {
    let mut d = MspDispatcher::new(MspVersion::V2, 100);
    d.submit(&request(1), 1, 0).unwrap();
    d.submit(&request(2), 2, 0).unwrap();
    assert_eq!(
        vec![
            Delivery { ticket: 1, outcome: Err(MspPacketParseError::Transport) },
            Delivery { ticket: 2, outcome: Err(MspPacketParseError::Transport) },
        ],
        d.fail_all(MspPacketParseError::Transport)
    );
    assert_eq!(0, d.pending_len());
}
