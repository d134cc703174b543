use sensor_hub::codec::{build_packet, parse_packet};
use sensor_hub::raw::{
    SnsRawRegisterOp, SnsRawRegisterReq, SnsRawRegisterRsp, SnsRawRegisterSequenceReq,
};

#[test]
fn sns_raw_test() {
    let mut read_seq = SnsRawRegisterSequenceReq::default();
    read_seq.reqs.push(SnsRawRegisterReq {
        op: Some(SnsRawRegisterOp::Read as i32),
        addr_len: Some(1),
        data_len: Some(1),
        duration: Some(1000),
        addr: Some(0x00),
        data: Some(vec![0x00]),
    });

    read_seq.reqs.push(SnsRawRegisterReq {
        op: Some(SnsRawRegisterOp::Read as i32),
        addr_len: Some(1),
        data_len: Some(1),
        duration: Some(1000),
        addr: Some(0x02),
        data: Some(vec![0x00]),
    });

    let mut write_seq = SnsRawRegisterSequenceReq::default();
    write_seq.reqs.push(SnsRawRegisterReq {
        op: Some(SnsRawRegisterOp::Write as i32),
        addr_len: Some(1),
        data_len: Some(2),
        duration: Some(1000),
        addr: Some(0x00),
        data: Some(vec![0x01, 0x02]),
    });

    println!("Read sequence: {read_seq:?}");
    println!("Write sequence: {write_seq:?}");

    assert_eq!(read_seq.reqs[0].op, Some(SnsRawRegisterOp::Read as i32));
    assert_eq!(read_seq.reqs[1].op, Some(SnsRawRegisterOp::Read as i32));
    assert_eq!(write_seq.reqs[0].op, Some(SnsRawRegisterOp::Write as i32));
    assert_eq!(write_seq.reqs[0].data, Some(vec![0x01, 0x02]));
    assert_eq!(write_seq.reqs[0].data_len, Some(2));

    let mut rsp = SnsRawRegisterRsp::default();
    rsp.data.push(0x01);
    rsp.data.push(0x02);
    println!("Read response: {rsp:#x?}");
    assert_ne!(rsp.data, vec![0x01, 0x02, 0x03]);
}

#[test]
fn packet_round_trip_test() {
    let payload = vec![0x08u8, 0x96, 0x01, 0xff, 0x00];
    let packet = build_packet(&payload);
    assert_eq!(packet[0], 0xAA);
    assert_eq!(packet[1], 0x55);
    assert_eq!(packet[2], payload.len() as u8);
    assert_eq!(packet[3], 0);
    assert_eq!(packet.len(), payload.len() + 6);
    let parsed = parse_packet(&packet).expect("round trip must parse");
    assert_eq!(parsed, &payload[..]);
}

#[test]
fn packet_empty_payload_test() {
    let packet = build_packet(&[]);
    assert_eq!(packet.len(), 6);
    let parsed = parse_packet(&packet).expect("empty payload frames fine");
    assert_eq!(parsed.len(), 0);
}

#[test]
fn packet_rejects_garbage_test() {
    // too short
    assert!(parse_packet(&[0xAA, 0x55, 0x00, 0x00, 0x00]).is_none());
    // wrong magic
    let mut packet = build_packet(&[1, 2, 3]);
    packet[0] = 0xAB;
    assert!(parse_packet(&packet).is_none());
    // corrupted payload breaks the checksum
    let mut packet = build_packet(&[1, 2, 3]);
    packet[4] ^= 0xFF;
    assert!(parse_packet(&packet).is_none());
    // truncated payload
    let packet = build_packet(&[1, 2, 3]);
    assert!(parse_packet(&packet[..packet.len() - 1]).is_none());
}
