use qmk_state_daemon::vial_qsid::{
    build_get_packet, build_query_packet, build_set_packet, is_qsid_response, known_qsids,
    parse_get_response, parse_query_response, parse_set_response, resolve_width, QsidError,
    CMD_QSID_GET, CMD_QSID_QUERY, CMD_QSID_SET, PACKET_LEN, VIAL_PREFIX,
};

#[test]
fn get_packet_shape() {
    let p = build_get_packet(28);
    assert_eq!(p.len(), PACKET_LEN);
    assert_eq!(p[0], VIAL_PREFIX);
    assert_eq!(p[1], CMD_QSID_GET);
    assert_eq!(u16::from_le_bytes([p[2], p[3]]), 28);
    assert!(p[4..].iter().all(|&b| b == 0));
}

#[test]
fn set_packet_shape_u8() {
    let p = build_set_packet(29, 15, 1).unwrap();
    assert_eq!(p[0], VIAL_PREFIX);
    assert_eq!(p[1], CMD_QSID_SET);
    assert_eq!(u16::from_le_bytes([p[2], p[3]]), 29);
    assert_eq!(p[4], 15);
    assert!(p[5..].iter().all(|&b| b == 0));
}

#[test]
fn set_packet_shape_u16() {
    let p = build_set_packet(28, 500, 2).unwrap();
    assert_eq!(u16::from_le_bytes([p[4], p[5]]), 500);
}

#[test]
fn set_out_of_range() {
    // 1 byte max = 255
    assert!(build_set_packet(29, 300, 1).is_err());
    assert!(build_set_packet(28, 70000, 2).is_err());
}

#[test]
fn set_packet_width_checks() {
    assert_eq!(build_set_packet(28, 1, 3), Err(QsidError::InvalidWidth));
    assert_eq!(build_set_packet(28, 1, 0), Err(QsidError::InvalidWidth));
    assert_eq!(
        build_set_packet(29, 256, 1),
        Err(QsidError::ValueOutOfRange { value: 256, width: 1 })
    );
    let p = build_set_packet(0x1234, 0xDEAD_BEEF, 4).unwrap();
    assert_eq!(&p[..8], &[0xFE, 0x0B, 0x34, 0x12, 0xEF, 0xBE, 0xAD, 0xDE]);
    assert!(p[8..].iter().all(|&b| b == 0));
    assert_eq!(build_set_packet(29, 255, 1).unwrap()[4], 255);
}

#[test]
fn query_packet_shape() {
    let p = build_query_packet(0);
    assert_eq!(p[0], VIAL_PREFIX);
    assert_eq!(p[1], CMD_QSID_QUERY);
    assert_eq!(u16::from_le_bytes([p[2], p[3]]), 0);
}

#[test]
fn parse_get_ok() {
    let mut buf = vec![0u8; PACKET_LEN];
    buf[0] = 0;
    buf[1] = 0x19; // 25
    buf[2] = 0x00;
    assert_eq!(parse_get_response(&buf, 2).unwrap(), 25);
}

#[test]
fn parse_get_error() {
    let mut buf = vec![0u8; PACKET_LEN];
    buf[0] = 1;
    assert!(parse_get_response(&buf, 2).is_err());
}

#[test]
fn parse_get_responses() {
    assert_eq!(parse_get_response(&[], 2), Err(QsidError::EmptyResponse));
    assert_eq!(parse_get_response(&[7, 1, 2], 2), Err(QsidError::DeviceStatus(7)));
    assert_eq!(
        parse_get_response(&[0, 1], 2),
        Err(QsidError::ShortResponse { len: 2, need: 3 })
    );
    assert_eq!(parse_get_response(&[0, 0x01, 0x02, 0x03, 0x04], 4), Ok(0x0403_0201));
    assert_eq!(parse_get_response(&[0, 0x01, 0x02, 0x03, 0x04], 1), Ok(1));
}

#[test]
fn set_value_reads_back() {
    for (value, width) in [(0u32, 1usize), (255, 1), (500, 2), (65535, 2), (u32::MAX, 4), (70000, 4)] {
        let p = build_set_packet(28, value, width).unwrap();
        let mut resp = vec![0u8];
        resp.extend_from_slice(&p[4..4 + width]);
        assert_eq!(parse_get_response(&resp, width), Ok(value));
    }
}

#[test]
fn parse_set_responses() {
    assert_eq!(parse_set_response(&[]), Err(QsidError::EmptyResponse));
    assert_eq!(parse_set_response(&[3]), Err(QsidError::DeviceStatus(3)));
    assert_eq!(parse_set_response(&[0, 9]), Ok(()));
}

#[test]
fn parse_query_bulk() {
    let mut buf = vec![0u8; PACKET_LEN];
    // qsids: 1, 2, 28, 29, 0xFFFF
    for (i, q) in [1u16, 2, 28, 29, 0xFFFF].iter().enumerate() {
        let bytes = q.to_le_bytes();
        buf[i * 2] = bytes[0];
        buf[i * 2 + 1] = bytes[1];
    }
    let (list, end) = parse_query_response(&buf);
    assert_eq!(list, vec![1, 2, 28, 29]);
    assert!(end);
}

#[test]
fn parse_query_without_terminator() {
    let (list, end) = parse_query_response(&[5, 0, 6, 1, 7]);
    assert_eq!(list, vec![5, 0x106]);
    assert!(!end);
    let (list, end) = parse_query_response(&[]);
    assert!(list.is_empty());
    assert!(!end);
}

#[test]
fn is_qsid_response_distinguishes() {
    assert!(!is_qsid_response(&[0xAB, 1, 2]));
    assert!(is_qsid_response(&[0x00, 25]));
    assert!(!is_qsid_response(&[]));
}

#[test]
fn resolve_width_hints() {
    assert_eq!(resolve_width(28, None).unwrap(), 2);
    assert_eq!(resolve_width(29, None).unwrap(), 1);
    assert_eq!(resolve_width(999, Some(4)).unwrap(), 4);
    assert!(resolve_width(999, None).is_err());
    assert!(resolve_width(999, Some(3)).is_err());
}

#[test]
fn known_qsids_table() {
    let known = known_qsids();
    assert_eq!(known.len(), 2);
    assert_eq!(known.get(&28), Some(&("flow_tap_shift_delta", 2)));
    assert_eq!(known.get(&29), Some(&("flow_tap_shift_min_clamp", 1)));
    assert_eq!(resolve_width(999, None), Err(QsidError::UnknownQsid(999)));
    assert_eq!(resolve_width(999, Some(3)), Err(QsidError::InvalidWidth));
}

#[test]
fn known_width_wins_over_hint() {
    assert_eq!(resolve_width(28, Some(4)), Ok(2));
    assert_eq!(resolve_width(29, Some(2)), Ok(1));
    assert_eq!(resolve_width(28, Some(3)), Ok(2));
    assert_eq!(resolve_width(1000, Some(2)), Ok(2));
}

#[test]
fn qsid_error_messages() {
    assert_eq!(QsidError::InvalidWidth.message(), "width must be 1, 2, or 4 bytes");
    assert_eq!(
        QsidError::ValueOutOfRange { value: 300, width: 1 }.message(),
        "value 300 out of range for width=1B"
    );
    assert_eq!(
        QsidError::UnknownQsid(999).message(),
        "qsid 999 not in known_qsids; supply an explicit width"
    );
    assert_eq!(QsidError::EmptyResponse.message(), "empty response");
    assert_eq!(QsidError::DeviceStatus(7).message(), "device returned status 7");
    assert_eq!(
        QsidError::ShortResponse { len: 2, need: 3 }.message(),
        "short response: 2 < 3"
    );
    assert_eq!(resolve_width(999, None).unwrap_err().message(), "qsid 999 not in known_qsids; supply an explicit width");
}
