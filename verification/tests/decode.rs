use snmp_parser::{
    parse_snmp_generic_message, parse_snmp_v1, parse_snmp_v2c, parse_snmp_v3,
    parse_usm_security_parameters, BerErrorKind, BitString, ErrorStatus, HeaderData, NetworkAddress,
    ObjectSyntax, Oid, PduType, ScopedPduData, SecurityModel, SecurityParameters, SnmpError,
    SnmpGenericMessage, SnmpPdu, TrapType, VarBindValue,
};

const SNMPV1_REQ: &[u8] = &[
    0x30, 0x26, 0x02, 0x01, 0x00, 0x04, 0x06, 0x70, 0x75, 0x62, 0x6c, 0x69, 0x63, 0xa0, 0x19,
    0x02, 0x01, 0x26, 0x02, 0x01, 0x00, 0x02, 0x01, 0x00, 0x30, 0x0e, 0x30, 0x0c, 0x06, 0x08,
    0x2b, 0x06, 0x01, 0x02, 0x01, 0x01, 0x02, 0x00, 0x05, 0x00,
];

#[test]
fn test_generic_dispatch_v1() {
    let (rem, m) = parse_snmp_generic_message(SNMPV1_REQ).expect("parsing failed");
    assert!(rem.is_empty());
    match m {
        SnmpGenericMessage::V1(msg) => {
            assert_eq!(msg.version, 0);
            assert_eq!(&msg.community as &str, "public");
        }
        _ => panic!("wrong version branch"),
    }
}

#[test]
fn test_deterministic() {
    let r1 = parse_snmp_generic_message(SNMPV1_REQ);
    let r2 = parse_snmp_generic_message(SNMPV1_REQ);
    assert_eq!(r1, r2);
    let bad: &[u8] = &[0x30, 0x02, 0x05, 0x00];
    assert_eq!(
        parse_snmp_generic_message(bad),
        parse_snmp_generic_message(bad)
    );
}

#[test]
fn test_trailing_bytes_returned() {
    let mut bytes = SNMPV1_REQ.to_vec();
    bytes.push(0xab);
    bytes.push(0xcd);
    let (rem, _) = parse_snmp_generic_message(&bytes).expect("parsing failed");
    assert_eq!(rem, &[0xab, 0xcd]);
}

#[test]
fn test_totality_on_arbitrary_inputs() {
    // The decoder must return a typed result on any byte sequence.
    assert!(parse_snmp_generic_message(&[]).is_err());
    assert!(parse_snmp_generic_message(&[0x30]).is_err());
    assert!(parse_snmp_generic_message(&[0x30, 0x80]).is_err());
    assert!(parse_snmp_generic_message(&[0x30, 0xff, 0x00]).is_err());
    let mut probe: Vec<u8> = Vec::new();
    for i in 0..255u8 {
        probe.push(i.wrapping_mul(37).wrapping_add(11));
        let _ = parse_snmp_generic_message(&probe);
    }
    let mut truncated = SNMPV1_REQ.to_vec();
    while truncated.pop().is_some() {
        let _ = parse_snmp_generic_message(&truncated);
    }
}

#[test]
fn test_invalid_message_not_a_sequence() {
    assert_eq!(
        parse_snmp_generic_message(&[0x02, 0x01, 0x00]),
        Err(SnmpError::InvalidMessage)
    );
    assert_eq!(parse_snmp_v1(&[]), Err(SnmpError::InvalidMessage));
    assert_eq!(parse_snmp_v2c(&[0x04, 0x00]), Err(SnmpError::InvalidMessage));
    assert_eq!(parse_snmp_v3(&[0x02, 0x01, 0x03]), Err(SnmpError::InvalidMessage));
}

const VERSION2: &[u8] = &[
    0x30, 0x18, 0x02, 0x01, 0x02, 0x04, 0x06, 0x70, 0x75, 0x62, 0x6c, 0x69, 0x63, 0xa0, 0x0b,
    0x02, 0x01, 0x01, 0x02, 0x01, 0x00, 0x02, 0x01, 0x00, 0x30, 0x00,
];

const SNMPV2C_MINIMAL: &[u8] = &[
    0x30, 0x18, 0x02, 0x01, 0x01, 0x04, 0x06, 0x70, 0x75, 0x62, 0x6c, 0x69, 0x63, 0xa0, 0x0b,
    0x02, 0x01, 0x01, 0x02, 0x01, 0x00, 0x02, 0x01, 0x00, 0x30, 0x00,
];

#[test]
fn test_version_gating() {
    // Version 2 is valid for no entry point.
    assert_eq!(parse_snmp_v1(VERSION2), Err(SnmpError::InvalidVersion));
    assert_eq!(parse_snmp_v2c(VERSION2), Err(SnmpError::InvalidVersion));
    assert_eq!(parse_snmp_v3(VERSION2), Err(SnmpError::InvalidVersion));
    assert_eq!(
        parse_snmp_generic_message(VERSION2),
        Err(SnmpError::InvalidVersion)
    );
    // A v2c message is not accepted by the v1 or v3 entry points.
    assert_eq!(parse_snmp_v1(SNMPV2C_MINIMAL), Err(SnmpError::InvalidVersion));
    assert_eq!(parse_snmp_v3(SNMPV2C_MINIMAL), Err(SnmpError::InvalidVersion));
    // And a v1 message is not accepted by the v2c entry point.
    assert_eq!(parse_snmp_v2c(SNMPV1_REQ), Err(SnmpError::InvalidVersion));
}

const V1_BULK_TAG: &[u8] = &[
    0x30, 0x18, 0x02, 0x01, 0x00, 0x04, 0x06, 0x70, 0x75, 0x62, 0x6c, 0x69, 0x63, 0xa5, 0x0b,
    0x02, 0x01, 0x01, 0x02, 0x01, 0x00, 0x02, 0x01, 0x00, 0x30, 0x00,
];

#[test]
fn test_v1_tag_gating() {
    // Tags 5 to 8 are outside the v1 matrix; the same body under the
    // v2c envelope (with version 1) is accepted.
    assert_eq!(parse_snmp_v1(V1_BULK_TAG), Err(SnmpError::InvalidPduType));
    for tag in [0xa5u8, 0xa6, 0xa7, 0xa8, 0xa9] {
        let mut bytes = V1_BULK_TAG.to_vec();
        bytes[13] = tag;
        assert_eq!(parse_snmp_v1(&bytes), Err(SnmpError::InvalidPduType));
    }
    let mut bulk_v2c = V1_BULK_TAG.to_vec();
    bulk_v2c[4] = 0x01;
    let (_, msg) = parse_snmp_v2c(&bulk_v2c).expect("v2c bulk should parse");
    assert!(matches!(msg.pdu, SnmpPdu::Bulk(_)));
}

#[test]
fn test_flag_predicates() {
    for flags in 0u8..=255 {
        let hdr = HeaderData {
            msg_id: 1,
            msg_max_size: 484,
            msg_flags: flags,
            msg_security_model: SecurityModel(3),
        };
        assert_eq!(hdr.is_authenticated(), flags & 0b001 != 0);
        assert_eq!(hdr.is_encrypted(), flags & 0b010 != 0);
        assert_eq!(hdr.is_reportable(), flags & 0b100 != 0);
    }
}

const V2C_BAD_EXCEPTION: &[u8] = &[
    0x30, 0x21, 0x02, 0x01, 0x01, 0x04, 0x06, 0x70, 0x75, 0x62, 0x6c, 0x69, 0x63, 0xa2, 0x14,
    0x02, 0x01, 0x01, 0x02, 0x01, 0x00, 0x02, 0x01, 0x00, 0x30, 0x09, 0x30, 0x07, 0x06, 0x03,
    0x2b, 0x06, 0x01, 0x83, 0x00,
];

const V1_TRAP_BIG_GENERIC: &[u8] = &[
    0x30, 0x24, 0x02, 0x01, 0x00, 0x04, 0x06, 0x70, 0x75, 0x62, 0x6c, 0x69, 0x63, 0xa4, 0x17,
    0x06, 0x03, 0x2b, 0x06, 0x01, 0x40, 0x04, 0x01, 0x02, 0x03, 0x04, 0x02, 0x02, 0x01, 0x00,
    0x02, 0x01, 0x00, 0x43, 0x01, 0x00, 0x30, 0x00,
];

const V1_TRAP_BAD_ADDR: &[u8] = &[
    0x30, 0x22, 0x02, 0x01, 0x00, 0x04, 0x06, 0x70, 0x75, 0x62, 0x6c, 0x69, 0x63, 0xa4, 0x15,
    0x06, 0x03, 0x2b, 0x06, 0x01, 0x40, 0x03, 0x01, 0x02, 0x03, 0x02, 0x01, 0x00, 0x02, 0x01,
    0x00, 0x43, 0x01, 0x00, 0x30, 0x00,
];

#[test]
fn test_invalid_pdu_cases() {
    // A VarBind exception tag outside {0, 1, 2}.
    assert_eq!(parse_snmp_v2c(V2C_BAD_EXCEPTION), Err(SnmpError::InvalidPdu));
    // A generic-trap number that does not fit in one octet.
    assert_eq!(parse_snmp_v1(V1_TRAP_BIG_GENERIC), Err(SnmpError::InvalidPdu));
    // An agent address that is not 4 octets.
    assert_eq!(parse_snmp_v1(V1_TRAP_BAD_ADDR), Err(SnmpError::InvalidPdu));
}

const V3_BAD_FLAGS: &[u8] = &[
    0x30, 0x39, 0x02, 0x01, 0x03, 0x30, 0x0f, 0x02, 0x01, 0x01, 0x02, 0x03, 0x00, 0xff, 0xe3,
    0x04, 0x02, 0x00, 0x01, 0x02, 0x01, 0x03, 0x04, 0x10, 0x30, 0x0e, 0x04, 0x00, 0x02, 0x01,
    0x00, 0x02, 0x01, 0x00, 0x04, 0x00, 0x04, 0x00, 0x04, 0x00, 0x30, 0x11, 0x04, 0x00, 0x04,
    0x00, 0xa0, 0x0b, 0x02, 0x01, 0x01, 0x02, 0x01, 0x00, 0x02, 0x01, 0x00, 0x30, 0x00,
];

const V3_BAD_SCOPED: &[u8] = &[
    0x30, 0x21, 0x02, 0x01, 0x03, 0x30, 0x0e, 0x02, 0x01, 0x01, 0x02, 0x03, 0x00, 0xff, 0xe3,
    0x04, 0x01, 0x00, 0x02, 0x01, 0x00, 0x04, 0x03, 0x72, 0x61, 0x77, 0x04, 0x07, 0x6e, 0x6f,
    0x74, 0x61, 0x73, 0x65, 0x71,
];

const V3_BAD_USM: &[u8] = &[
    0x30, 0x2a, 0x02, 0x01, 0x03, 0x30, 0x0e, 0x02, 0x01, 0x01, 0x02, 0x03, 0x00, 0xff, 0xe3,
    0x04, 0x01, 0x00, 0x02, 0x01, 0x03, 0x04, 0x02, 0xde, 0xad, 0x30, 0x11, 0x04, 0x00, 0x04,
    0x00, 0xa0, 0x0b, 0x02, 0x01, 0x01, 0x02, 0x01, 0x00, 0x02, 0x01, 0x00, 0x30, 0x00,
];

const V3_RAW_MODEL: &[u8] = &[
    0x30, 0x2e, 0x02, 0x01, 0x03, 0x30, 0x0e, 0x02, 0x01, 0x01, 0x02, 0x03, 0x00, 0xff, 0xe3,
    0x04, 0x01, 0x00, 0x02, 0x01, 0x00, 0x04, 0x03, 0x72, 0x61, 0x77, 0x30, 0x14, 0x04, 0x03,
    0x63, 0x74, 0x78, 0x04, 0x00, 0xa0, 0x0b, 0x02, 0x01, 0x01, 0x02, 0x01, 0x00, 0x02, 0x01,
    0x00, 0x30, 0x00,
];

#[test]
fn test_v3_error_cases() {
    // msgFlags must be exactly one octet.
    assert_eq!(parse_snmp_v3(V3_BAD_FLAGS), Err(SnmpError::InvalidHeaderData));
    // The plaintext scoped PDU must be a SEQUENCE.
    assert_eq!(
        parse_snmp_v3(V3_BAD_SCOPED),
        Err(SnmpError::InvalidScopedPduData)
    );
    // Under the USM model the parameter blob must decode.
    assert_eq!(
        parse_snmp_v3(V3_BAD_USM),
        Err(SnmpError::InvalidSecurityModel)
    );
}

#[test]
fn test_v3_raw_security_model() {
    // Under any non-USM model the inner bytes are returned verbatim.
    let (rem, msg) = parse_snmp_v3(V3_RAW_MODEL).expect("parsing failed");
    assert!(rem.is_empty());
    assert_eq!(msg.header_data.msg_security_model, SecurityModel(0));
    assert_eq!(msg.security_params, SecurityParameters::Raw(b"raw"));
    match msg.data {
        ScopedPduData::Plaintext(sp) => assert_eq!(sp.ctx_engine_id, b"ctx"),
        _ => panic!("expected plaintext"),
    }
}

const V1_TRUNCATED: &[u8] = &[0x30, 0x03, 0x02, 0x01, 0x00];

const V1_BAD_CHARSET: &[u8] = &[
    0x30, 0x14, 0x02, 0x01, 0x00, 0x04, 0x02, 0xff, 0xfe, 0xa0, 0x0b, 0x02, 0x01, 0x01, 0x02,
    0x01, 0x00, 0x02, 0x01, 0x00, 0x30, 0x00,
];

const V1_UTF8_COMMUNITY: &[u8] = &[
    0x30, 0x18, 0x02, 0x01, 0x00, 0x04, 0x06, 0x68, 0xc3, 0xa9, 0x6c, 0x6c, 0x6f, 0xa0, 0x0b,
    0x02, 0x01, 0x01, 0x02, 0x01, 0x00, 0x02, 0x01, 0x00, 0x30, 0x00,
];

#[test]
fn test_ber_error_passthrough() {
    assert_eq!(
        parse_snmp_v1(V1_TRUNCATED),
        Err(SnmpError::BerError(BerErrorKind::BufferTooShort))
    );
}

#[test]
fn test_community_charset() {
    // A community that is not UTF-8 fails; a non-ASCII UTF-8 one is
    // decoded, not passed through as raw bytes.
    assert_eq!(
        parse_snmp_v1(V1_BAD_CHARSET),
        Err(SnmpError::BerError(BerErrorKind::InvalidCharset))
    );
    let (_, msg) = parse_snmp_v1(V1_UTF8_COMMUNITY).expect("parsing failed");
    assert_eq!(&msg.community as &str, "h\u{e9}llo");
    assert_eq!(msg.community.chars().count(), 5);
}

const V2C_VALUES: &[u8] = &[
    0x30, 0x81, 0x89, 0x02, 0x01, 0x01, 0x04, 0x06, 0x70, 0x75, 0x62, 0x6c, 0x69, 0x63, 0xa2,
    0x7c, 0x02, 0x01, 0x07, 0x02, 0x01, 0x00, 0x02, 0x01, 0x00, 0x30, 0x71, 0x30, 0x09, 0x06,
    0x04, 0x2b, 0x06, 0x01, 0x01, 0x02, 0x01, 0xff, 0x30, 0x11, 0x06, 0x04, 0x2b, 0x06, 0x01,
    0x02, 0x46, 0x09, 0x00, 0xff, 0xff, 0xff, 0xff, 0xff, 0xff, 0xff, 0xff, 0x30, 0x0a, 0x06,
    0x04, 0x2b, 0x06, 0x01, 0x03, 0x47, 0x02, 0x30, 0x39, 0x30, 0x0c, 0x06, 0x04, 0x2b, 0x06,
    0x01, 0x04, 0x40, 0x04, 0x0a, 0x00, 0x00, 0x01, 0x30, 0x0a, 0x06, 0x04, 0x2b, 0x06, 0x01,
    0x05, 0x03, 0x02, 0x04, 0xf0, 0x30, 0x0a, 0x06, 0x04, 0x2b, 0x06, 0x01, 0x06, 0x44, 0x02,
    0x01, 0x02, 0x30, 0x0a, 0x06, 0x04, 0x2b, 0x06, 0x01, 0x07, 0x04, 0x02, 0x68, 0x69, 0x30,
    0x08, 0x06, 0x04, 0x2b, 0x06, 0x01, 0x08, 0x13, 0x00, 0x30, 0x09, 0x06, 0x04, 0x2b, 0x06,
    0x01, 0x09, 0x13, 0x01, 0x41,
];

#[test]
fn test_object_syntax_values() {
    let (rem, msg) = parse_snmp_v2c(V2C_VALUES).expect("parsing failed");
    assert!(rem.is_empty());
    let vars = msg.vars_iter();
    assert_eq!(vars.len(), 9);
    assert_eq!(vars[0].val, VarBindValue::Value(ObjectSyntax::Number(-1)));
    assert_eq!(
        vars[1].val,
        VarBindValue::Value(ObjectSyntax::Counter64(u64::MAX))
    );
    assert_eq!(
        vars[2].val,
        VarBindValue::Value(ObjectSyntax::UInteger32(12345))
    );
    assert_eq!(
        vars[3].val,
        VarBindValue::Value(ObjectSyntax::IpAddress(NetworkAddress::IPv4(10, 0, 0, 1)))
    );
    assert_eq!(
        vars[4].val,
        VarBindValue::Value(ObjectSyntax::BitString(BitString {
            unused_bits: 4,
            data: &[0xf0],
        }))
    );
    assert_eq!(
        vars[5].val,
        VarBindValue::Value(ObjectSyntax::Opaque(&[0x01, 0x02]))
    );
    assert_eq!(vars[6].val, VarBindValue::Value(ObjectSyntax::String(b"hi")));
    // A zero-length payload of an unknown universal tag is Empty.
    assert_eq!(vars[7].val, VarBindValue::Value(ObjectSyntax::Empty));
    // A nonempty one is preserved verbatim.
    match &vars[8].val {
        VarBindValue::Value(ObjectSyntax::UnknownSimple(a)) => {
            assert_eq!(a.tag, 19);
            assert_eq!(a.data, &[0x41]);
        }
        other => panic!("unexpected value: {:?}", other),
    }
    assert_eq!(vars[8].oid, Oid { content: &[0x2b, 0x06, 0x01, 0x09] });
}

const V2C_COUNTER_NEG: &[u8] = &[
    0x30, 0x22, 0x02, 0x01, 0x01, 0x04, 0x06, 0x70, 0x75, 0x62, 0x6c, 0x69, 0x63, 0xa2, 0x15,
    0x02, 0x01, 0x07, 0x02, 0x01, 0x00, 0x02, 0x01, 0x00, 0x30, 0x0a, 0x30, 0x08, 0x06, 0x03,
    0x2b, 0x06, 0x01, 0x41, 0x01, 0xff,
];

const V2C_COUNTER_BIG: &[u8] = &[
    0x30, 0x26, 0x02, 0x01, 0x01, 0x04, 0x06, 0x70, 0x75, 0x62, 0x6c, 0x69, 0x63, 0xa2, 0x19,
    0x02, 0x01, 0x07, 0x02, 0x01, 0x00, 0x02, 0x01, 0x00, 0x30, 0x0e, 0x30, 0x0c, 0x06, 0x03,
    0x2b, 0x06, 0x01, 0x41, 0x05, 0x01, 0x00, 0x00, 0x00, 0x00,
];

#[test]
fn test_unsigned_integer_bounds() {
    assert_eq!(
        parse_snmp_v2c(V2C_COUNTER_NEG),
        Err(SnmpError::BerError(BerErrorKind::IntegerNegative))
    );
    assert_eq!(
        parse_snmp_v2c(V2C_COUNTER_BIG),
        Err(SnmpError::BerError(BerErrorKind::IntegerTooLarge))
    );
}

const USM_BLOB: &[u8] = &[
    0x30, 0x1a, 0x04, 0x04, 0x80, 0x00, 0x1f, 0x88, 0x02, 0x01, 0x07, 0x02, 0x01, 0x08, 0x04,
    0x05, 0x61, 0x6c, 0x69, 0x63, 0x65, 0x04, 0x02, 0x01, 0x02, 0x04, 0x01, 0x03,
];

#[test]
fn test_usm_security_parameters() {
    let (rem, usm) = parse_usm_security_parameters(USM_BLOB).expect("parsing failed");
    assert!(rem.is_empty());
    assert_eq!(usm.msg_authoritative_engine_id, &[0x80, 0x00, 0x1f, 0x88]);
    assert_eq!(usm.msg_authoritative_engine_boots, 7);
    assert_eq!(usm.msg_authoritative_engine_time, 8);
    assert_eq!(&usm.msg_user_name as &str, "alice");
    assert_eq!(usm.msg_authentication_parameters, &[0x01, 0x02]);
    assert_eq!(usm.msg_privacy_parameters, &[0x03]);
}

#[test]
fn test_labels() {
    assert_eq!(&PduType(0).label() as &str, "GetRequest");
    assert_eq!(&PduType(2).label() as &str, "Response");
    assert_eq!(&PduType(8).label() as &str, "Report");
    assert_eq!(&PduType(9).label() as &str, "PduType(9)");
    assert_eq!(&PduType(4000000000).label() as &str, "PduType(4000000000)");
    assert_eq!(&TrapType(0).label() as &str, "coldStart");
    assert_eq!(&TrapType(6).label() as &str, "enterpriseSpecific");
    assert_eq!(&TrapType(200).label() as &str, "TrapType(200)");
    assert_eq!(&ErrorStatus(0).label() as &str, "NoError");
    assert_eq!(&ErrorStatus(5).label() as &str, "GenErr");
    assert_eq!(&ErrorStatus(10).label() as &str, "ErrorStatus(10)");
    assert_eq!(&SecurityModel(3).label() as &str, "USM");
    assert_eq!(&SecurityModel(77).label() as &str, "SecurityModel(77)");
}

const V1_INDEFINITE_COMMUNITY: &[u8] = &[0x30, 0x07, 0x02, 0x01, 0x00, 0x04, 0x80, 0x00, 0x00];

const V1_TRAILING_IN_VARBIND_LIST: &[u8] = &[
    0x30, 0x27, 0x02, 0x01, 0x00, 0x04, 0x06, 0x70, 0x75, 0x62, 0x6c, 0x69, 0x63, 0xa0, 0x1a,
    0x02, 0x01, 0x26, 0x02, 0x01, 0x00, 0x02, 0x01, 0x00, 0x30, 0x0f, 0x30, 0x0c, 0x06, 0x08,
    0x2b, 0x06, 0x01, 0x02, 0x01, 0x01, 0x02, 0x00, 0x05, 0x00, 0x00,
];

#[test]
fn test_indefinite_length_rejected() {
    assert_eq!(
        parse_snmp_v1(V1_INDEFINITE_COMMUNITY),
        Err(SnmpError::BerError(BerErrorKind::IndefiniteLength))
    );
}

#[test]
fn test_trailing_bytes_in_varbind_list_fail() {
    assert!(parse_snmp_v1(V1_TRAILING_IN_VARBIND_LIST).is_err());
}
