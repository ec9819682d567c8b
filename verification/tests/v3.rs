use snmp_parser::{
    parse_snmp_generic_message, parse_snmp_v3, ErrorStatus, HeaderData, PduType, ScopedPdu,
    ScopedPduData, SecurityModel, SecurityParameters, SnmpGenericMessage, SnmpGenericPdu,
    SnmpPdu, SnmpV3Message, UsmSecurityParameters,
};

const SNMPV3_REQ: &[u8] = &[
    0x30, 0x4b, 0x02, 0x01, 0x03, 0x30, 0x11, 0x02, 0x04, 0x30, 0xf6, 0xf3, 0xd4, 0x02, 0x03,
    0x00, 0xff, 0xe3, 0x04, 0x01, 0x04, 0x02, 0x01, 0x03, 0x04, 0x10, 0x30, 0x0e, 0x04, 0x00,
    0x02, 0x01, 0x00, 0x02, 0x01, 0x00, 0x04, 0x00, 0x04, 0x00, 0x04, 0x00, 0x30, 0x21, 0x04,
    0x0d, 0x80, 0x00, 0x1f, 0x88, 0x80, 0x59, 0xdc, 0x48, 0x61, 0x45, 0xa2, 0x63, 0x22, 0x04,
    0x00, 0xa0, 0x0e, 0x02, 0x04, 0x7d, 0x0e, 0x08, 0x2e, 0x02, 0x01, 0x00, 0x02, 0x01, 0x00,
    0x30, 0x00,
];

#[test]
fn test_snmp_v3_req() {
    let bytes = SNMPV3_REQ;
    let sp = SecurityParameters::USM(UsmSecurityParameters {
        msg_authoritative_engine_id: b"",
        msg_authoritative_engine_boots: 0,
        msg_authoritative_engine_time: 0,
        msg_user_name: String::from(""),
        msg_authentication_parameters: b"",
        msg_privacy_parameters: b"",
    });
    let cei = [
        0x80, 0x00, 0x1f, 0x88, 0x80, 0x59, 0xdc, 0x48, 0x61, 0x45, 0xa2, 0x63, 0x22,
    ];
    let data = SnmpPdu::Generic(SnmpGenericPdu {
        pdu_type: PduType(0),
        req_id: 2098071598,
        err: ErrorStatus(0),
        err_index: 0,
        var: vec![],
    });
    let expected = SnmpV3Message {
        version: 3,
        header_data: HeaderData {
            msg_id: 821490644,
            msg_max_size: 65507,
            msg_flags: 4,
            msg_security_model: SecurityModel(3),
        },
        security_params: sp,
        data: ScopedPduData::Plaintext(ScopedPdu {
            ctx_engine_id: &cei,
            ctx_engine_name: b"",
            data,
        }),
    };
    let (rem, res) = parse_snmp_v3(bytes).expect("parsing failed");
    assert!(rem.is_empty());
    assert_eq!(res, expected);
}

const SNMPV3_REQ_ENCRYPTED: &[u8] = &[
    0x30, 0x67, 0x02, 0x01, 0x03, 0x30, 0x11, 0x02, 0x04, 0x30, 0xf6, 0xf3, 0xd5, 0x02, 0x03,
    0x00, 0xff, 0xe3, 0x04, 0x01, 0x03, 0x02, 0x01, 0x03, 0x04, 0x35, 0x30, 0x33, 0x04, 0x0d,
    0x80, 0x00, 0x1f, 0x88, 0x80, 0x59, 0xdc, 0x48, 0x61, 0x45, 0xa2, 0x63, 0x22, 0x02, 0x01,
    0x01, 0x02, 0x01, 0x02, 0x04, 0x04, 0x75, 0x73, 0x65, 0x72, 0x04, 0x0c, 0xaa, 0xaa, 0xaa,
    0xaa, 0xaa, 0xaa, 0xaa, 0xaa, 0xaa, 0xaa, 0xaa, 0xaa, 0x04, 0x08, 0x01, 0x02, 0x03, 0x04,
    0x05, 0x06, 0x07, 0x08, 0x04, 0x18, 0x40, 0x41, 0x42, 0x43, 0x44, 0x45, 0x46, 0x47, 0x48,
    0x49, 0x4a, 0x4b, 0x4c, 0x4d, 0x4e, 0x4f, 0x50, 0x51, 0x52, 0x53, 0x54, 0x55, 0x56, 0x57,
];

#[test]
fn test_snmp_v3_req_encrypted() {
    let bytes = SNMPV3_REQ_ENCRYPTED;
    let (rem, msg) = parse_snmp_v3(bytes).expect("parsing failed");
    assert!(rem.is_empty());
    assert_eq!(msg.version, 3);
    assert_eq!(msg.header_data.msg_security_model, SecurityModel(3));
    // The privacy bit is set, so the scoped PDU is surfaced verbatim.
    assert!(msg.header_data.is_encrypted());
    assert!(msg.header_data.is_authenticated());
    assert!(!msg.header_data.is_reportable());
    let expected_blob: Vec<u8> = (0x40u8..0x58).collect();
    match msg.data {
        ScopedPduData::Encrypted(blob) => assert_eq!(blob, &expected_blob as &[u8]),
        _ => panic!("expected the encrypted variant"),
    }
    assert!(matches!(msg.security_params, SecurityParameters::USM(_)));
}

const SNMPV3_REPORT: &[u8] = &[
    0x30, 0x6a, 0x02, 0x01, 0x03, 0x30, 0x0e, 0x02, 0x01, 0x63, 0x02, 0x03, 0x00, 0xff, 0xe3,
    0x04, 0x01, 0x00, 0x02, 0x01, 0x03, 0x04, 0x24, 0x30, 0x22, 0x04, 0x0d, 0x80, 0x00, 0x1f,
    0x88, 0x80, 0x59, 0xdc, 0x48, 0x61, 0x45, 0xa2, 0x63, 0x22, 0x02, 0x01, 0x05, 0x02, 0x02,
    0x04, 0xd2, 0x04, 0x06, 0x72, 0x65, 0x70, 0x6f, 0x72, 0x74, 0x04, 0x00, 0x04, 0x00, 0x30,
    0x2f, 0x04, 0x0d, 0x80, 0x00, 0x1f, 0x88, 0x80, 0x59, 0xdc, 0x48, 0x61, 0x45, 0xa2, 0x63,
    0x22, 0x04, 0x00, 0xa8, 0x1c, 0x02, 0x01, 0x2a, 0x02, 0x01, 0x00, 0x02, 0x01, 0x00, 0x30,
    0x11, 0x30, 0x0f, 0x06, 0x0a, 0x2b, 0x06, 0x01, 0x06, 0x03, 0x0f, 0x01, 0x01, 0x04, 0x00,
    0x41, 0x01, 0x07,
];

#[test]
fn test_snmp_v3_report() {
    let bytes = SNMPV3_REPORT;
    let (rem, msg) = parse_snmp_v3(bytes).expect("parsing failed");
    assert!(rem.is_empty());
    assert_eq!(msg.version, 3);
    assert_eq!(msg.header_data.msg_security_model, SecurityModel(3));
}

#[test]
fn test_snmp_v3_generic() {
    let bytes = SNMPV3_REQ;
    let res = parse_snmp_generic_message(bytes);
    let (rem, m) = res.expect("parse_snmp_generic_message");
    assert!(rem.is_empty());
    if let SnmpGenericMessage::V3(msg) = m {
        assert_eq!(msg.version, 3);
        assert_eq!(msg.header_data.msg_security_model, SecurityModel(3));
    } else {
        panic!("unexpected PDU type");
    }
}
