use snmp_parser::{
    parse_snmp_v2c, ErrorStatus, ObjectSyntax, Oid, PduType, SnmpGenericPdu, SnmpMessage,
    SnmpPdu, SnmpVariable, VarBindValue,
};

const SNMPV2_GET: &[u8] = &[
    0x30, 0x4c, 0x02, 0x01, 0x01, 0x04, 0x06, 0x70, 0x75, 0x62, 0x6c, 0x69, 0x63, 0xa2, 0x3f,
    0x02, 0x04, 0x05, 0xc9, 0x61, 0x0e, 0x02, 0x01, 0x00, 0x02, 0x01, 0x00, 0x30, 0x31, 0x30,
    0x10, 0x06, 0x09, 0x2b, 0x06, 0x01, 0x02, 0x01, 0x19, 0x01, 0x01, 0x00, 0x43, 0x03, 0x0e,
    0xcd, 0x55, 0x30, 0x0e, 0x06, 0x09, 0x2b, 0x06, 0x01, 0x02, 0x01, 0x19, 0x01, 0x05, 0x00,
    0x42, 0x01, 0x03, 0x30, 0x0d, 0x06, 0x09, 0x2b, 0x06, 0x01, 0x02, 0x01, 0x19, 0x01, 0x05,
    0x01, 0x81, 0x00,
];

#[test]
fn test_snmp_v2_get() {
    let bytes = SNMPV2_GET;
    let expected = SnmpMessage {
        version: 1,
        community: String::from("public"),
        pdu: SnmpPdu::Generic(SnmpGenericPdu {
            pdu_type: PduType(2),
            req_id: 97083662,
            err: ErrorStatus(0),
            err_index: 0,
            var: vec![
                SnmpVariable {
                    // 1.3.6.1.2.1.25.1.1.0 as encoded content octets
                    oid: Oid {
                        content: &[0x2b, 0x06, 0x01, 0x02, 0x01, 0x19, 0x01, 0x01, 0x00],
                    },
                    val: VarBindValue::Value(ObjectSyntax::TimeTicks(970069)),
                },
                SnmpVariable {
                    // 1.3.6.1.2.1.25.1.5.0 as encoded content octets
                    oid: Oid {
                        content: &[0x2b, 0x06, 0x01, 0x02, 0x01, 0x19, 0x01, 0x05, 0x00],
                    },
                    val: VarBindValue::Value(ObjectSyntax::Gauge32(3)),
                },
                SnmpVariable {
                    // 1.3.6.1.2.1.25.1.5.1 as encoded content octets
                    oid: Oid {
                        content: &[0x2b, 0x06, 0x01, 0x02, 0x01, 0x19, 0x01, 0x05, 0x01],
                    },
                    val: VarBindValue::NoSuchInstance,
                },
            ],
        }),
    };
    let (rem, r) = parse_snmp_v2c(bytes).expect("parsing failed");
    println!(
        "SNMP: v={}, c={:?}, pdu_type={:?}",
        r.version,
        r.community,
        r.pdu_type()
    );
    for v in r.vars_iter() {
        println!("v: {:?}", v);
    }
    assert!(rem.is_empty());
    assert_eq!(r, expected);
}
