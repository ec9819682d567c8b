use snmp_parser::{
    parse_snmp_v1, ErrorStatus, NetworkAddress, Oid, PduType, SnmpGenericPdu, SnmpMessage,
    SnmpPdu, SnmpVariable, VarBindValue,
};

const SNMPV1_RESPONSE: &[u8] = &[
    0x30, 0x82, 0x00, 0x59, 0x02, 0x01, 0x00, 0x04, 0x06, 0x70, 0x75, 0x62, 0x6c, 0x69, 0x63,
    0xa2, 0x82, 0x00, 0x4a, 0x02, 0x02, 0x26, 0x72, 0x02, 0x01, 0x00, 0x02, 0x01, 0x00, 0x30,
    0x82, 0x00, 0x3c, 0x30, 0x82, 0x00, 0x10, 0x06, 0x0b, 0x2b, 0x06, 0x01, 0x02, 0x01, 0x19,
    0x03, 0x02, 0x01, 0x05, 0x01, 0x02, 0x01, 0x03, 0x30, 0x82, 0x00, 0x10, 0x06, 0x0b, 0x2b,
    0x06, 0x01, 0x02, 0x01, 0x19, 0x03, 0x05, 0x01, 0x01, 0x01, 0x02, 0x01, 0x03, 0x30, 0x82,
    0x00, 0x10, 0x06, 0x0b, 0x2b, 0x06, 0x01, 0x02, 0x01, 0x19, 0x03, 0x05, 0x01, 0x02, 0x01,
    0x04, 0x01, 0xa0,
];

#[test]
fn test_snmp_v1_response() {
    let bytes: &[u8] = SNMPV1_RESPONSE;
    match parse_snmp_v1(bytes) {
        Ok((rem, pdu)) => {
            assert!(rem.is_empty());
            assert_eq!(pdu.version, 0);
            assert_eq!(&pdu.community as &str, "public");
            assert_eq!(pdu.pdu_type(), PduType(2));
        }
        e => panic!("Error: {:?}", e),
    }
}

const SNMPV1_REQ: &[u8] = &[
    0x30, 0x26, 0x02, 0x01, 0x00, 0x04, 0x06, 0x70, 0x75, 0x62, 0x6c, 0x69, 0x63, 0xa0, 0x19,
    0x02, 0x01, 0x26, 0x02, 0x01, 0x00, 0x02, 0x01, 0x00, 0x30, 0x0e, 0x30, 0x0c, 0x06, 0x08,
    0x2b, 0x06, 0x01, 0x02, 0x01, 0x01, 0x02, 0x00, 0x05, 0x00,
];

#[test]
fn test_snmp_v1_req() {
    let bytes = SNMPV1_REQ;
    let expected = SnmpMessage {
        version: 0,
        community: String::from("public"),
        pdu: SnmpPdu::Generic(SnmpGenericPdu {
            pdu_type: PduType(0),
            req_id: 38,
            err: ErrorStatus(0),
            err_index: 0,
            var: vec![SnmpVariable {
                // 1.3.6.1.2.1.1.2.0 as encoded content octets
                oid: Oid {
                    content: &[0x2b, 0x06, 0x01, 0x02, 0x01, 0x01, 0x02, 0x00],
                },
                val: VarBindValue::Unspecified,
            }],
        }),
    };
    let (rem, r) = parse_snmp_v1(bytes).expect("parsing failed");
    println!(
        "SNMP: v={}, c={:?}, pdu_type={:?}",
        r.version,
        r.community,
        r.pdu_type()
    );
    for v in r.vars_iter() {
        println!("v: {:?}", v);
    }
    assert!(rem.is_empty());
    assert_eq!(r, expected);
}

const SNMPV1_TRAP_COLDSTART: &[u8] = &[
    0x30, 0x29, 0x02, 0x01, 0x00, 0x04, 0x06, 0x70, 0x75, 0x62, 0x6c, 0x69, 0x63, 0xa4, 0x1c,
    0x06, 0x09, 0x2b, 0x06, 0x01, 0x04, 0x01, 0x04, 0x01, 0x02, 0x15, 0x40, 0x04, 0x7f, 0x00,
    0x00, 0x01, 0x02, 0x01, 0x00, 0x02, 0x01, 0x00, 0x43, 0x01, 0x00, 0x30, 0x00,
];

#[test]
fn test_snmp_v1_trap_coldstart() {
    let bytes = SNMPV1_TRAP_COLDSTART;
    let (rem, pdu) = parse_snmp_v1(bytes).expect("parsing failed");
    assert!(rem.is_empty());
    assert_eq!(pdu.version, 0);
    assert_eq!(&pdu.community as &str, "public");
    assert_eq!(pdu.pdu_type(), PduType(4));
    match pdu.pdu {
        SnmpPdu::TrapV1(trap) => {
            // 1.3.6.1.4.1.4.1.2.21 as encoded content octets
            assert_eq!(
                trap.enterprise,
                Oid {
                    content: &[0x2b, 0x06, 0x01, 0x04, 0x01, 0x04, 0x01, 0x02, 0x15],
                }
            );
            assert_eq!(trap.agent_addr, NetworkAddress::IPv4(127, 0, 0, 1));
        }
        _ => panic!("unexpected pdu type"),
    }
}
