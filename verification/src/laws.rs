//! Laws of the decoder, stated over the specification parsers and
//! proved once and for all: determinism, version gating, tag gating
//! for the v1 envelope, and the purity of the encrypted path.

use vstd::prelude::*;

verus! {

use crate::ber;
use crate::error::SnmpError;
use crate::generic::{SpecSnmpGenericMessage, spec_parse_snmp_generic_message};
use crate::snmp::{spec_parse_snmp_v1, spec_parse_snmp_v2c, spec_parse_pdu_v1, SpecSnmpMessage};
use crate::snmpv3::{
    spec_parse_snmp_v3,
    spec_parse_scoped_pdu_data,
    HeaderData,
    SpecScopedPduData,
    SpecSnmpV3Message,
};

/// Determinism: decoding is a function of the input bytes alone.  The
/// contract of `parse_snmp_generic_message` says its result equals
/// `spec_parse_snmp_generic_message` of the input, so any two results
/// obtained for the same bytes are equal.
pub proof fn lemma_generic_message_deterministic(
    s: Seq<u8>,
    r1: Result<(Seq<u8>, SpecSnmpGenericMessage), SnmpError>,
    r2: Result<(Seq<u8>, SpecSnmpGenericMessage), SnmpError>,
)
    requires
        r1 == spec_parse_snmp_generic_message(s),
        r2 == spec_parse_snmp_generic_message(s),
    ensures
        r1 == r2,
{
}

/// Version gating for the v1 entry point: a decoded message always
/// carries version 0, and an input whose version field decodes to
/// anything else is rejected with `InvalidVersion`.
pub proof fn lemma_v1_version_gating(s: Seq<u8>)
    ensures
        spec_parse_snmp_v1(s) matches Ok((rest, m)) ==> m.version == 0,
        (match ber::spec_parse_framed(s, ber::CLASS_UNIVERSAL, true, ber::TAG_SEQUENCE) {
            Ok((content, _)) => match ber::spec_parse_ber_u32(content) {
                Ok((_, version)) => version != 0 ==> spec_parse_snmp_v1(s) == Err::<
                    (Seq<u8>, SpecSnmpMessage),
                    SnmpError,
                >(SnmpError::InvalidVersion),
                Err(_) => true,
            },
            Err(_) => true,
        }),
{
}

/// Version gating for the v2c entry point: a decoded message always
/// carries version 1, and an input whose version field decodes to
/// anything else is rejected with `InvalidVersion`.
pub proof fn lemma_v2c_version_gating(s: Seq<u8>)
    ensures
        spec_parse_snmp_v2c(s) matches Ok((rest, m)) ==> m.version == 1,
        (match ber::spec_parse_framed(s, ber::CLASS_UNIVERSAL, true, ber::TAG_SEQUENCE) {
            Ok((content, _)) => match ber::spec_parse_ber_u32(content) {
                Ok((_, version)) => version != 1 ==> spec_parse_snmp_v2c(s) == Err::<
                    (Seq<u8>, SpecSnmpMessage),
                    SnmpError,
                >(SnmpError::InvalidVersion),
                Err(_) => true,
            },
            Err(_) => true,
        }),
{
}

/// Version gating for the v3 entry point: a decoded message always
/// carries version 3, and an input whose version field decodes to
/// anything else is rejected with `InvalidVersion`.
pub proof fn lemma_v3_version_gating(s: Seq<u8>)
    ensures
        spec_parse_snmp_v3(s) matches Ok((rest, m)) ==> m.version == 3,
        (match ber::spec_parse_framed(s, ber::CLASS_UNIVERSAL, true, ber::TAG_SEQUENCE) {
            Ok((content, _)) => match ber::spec_parse_ber_u32(content) {
                Ok((_, version)) => version != 3 ==> spec_parse_snmp_v3(s) == Err::<
                    (Seq<u8>, SpecSnmpV3Message),
                    SnmpError,
                >(SnmpError::InvalidVersion),
                Err(_) => true,
            },
            Err(_) => true,
        }),
{
}

/// Tag gating for the v1 envelope: a PDU whose tag is 5
/// (GetBulkRequest), 6 (InformRequest), 7 (TrapV2) or 8 (Report) is
/// outside the v1 matrix and fails with `InvalidPduType`, both at the
/// PDU decoder and at the v1 entry point.
pub proof fn lemma_v1_tag_gating(s: Seq<u8>)
    ensures
        (match ber::spec_parse_header(s) {
            Ok((rem, h)) => (h.tag == 5 || h.tag == 6 || h.tag == 7 || h.tag == 8)
                ==> spec_parse_pdu_v1(s) == Err::<
                (Seq<u8>, crate::snmp::SpecSnmpPdu),
                SnmpError,
            >(SnmpError::InvalidPduType),
            Err(_) => true,
        }),
        (match ber::spec_parse_framed(s, ber::CLASS_UNIVERSAL, true, ber::TAG_SEQUENCE) {
            Ok((content, _)) => match ber::spec_parse_ber_u32(content) {
                Ok((i1, version)) => version == 0 ==> match ber::spec_parse_octetstring_utf8(i1) {
                    Ok((i2, _)) => match ber::spec_parse_header(i2) {
                        Ok((rem, h)) => (h.tag == 5 || h.tag == 6 || h.tag == 7 || h.tag == 8)
                            ==> spec_parse_snmp_v1(s) == Err::<
                            (Seq<u8>, SpecSnmpMessage),
                            SnmpError,
                        >(SnmpError::InvalidPduType),
                        Err(_) => true,
                    },
                    Err(_) => true,
                },
                Err(_) => true,
            },
            Err(_) => true,
        }),
{
}

/// Purity of the encrypted path: when the privacy bit of the header's
/// flags is set, the scoped PDU data is the `Encrypted` variant
/// carrying the entire content of the one OCTET STRING element, and no
/// scoped-PDU decoding is attempted on it.
pub proof fn lemma_encrypted_path_purity(s: Seq<u8>, hdr: HeaderData)
    requires
        hdr.msg_flags & 0b010 != 0,
    ensures
        (match spec_parse_scoped_pdu_data(s, hdr) {
            Ok((rest, d)) => d matches SpecScopedPduData::Encrypted(b)
                && ber::spec_parse_octetstring(s) == Ok::<
                (Seq<u8>, Seq<u8>),
                crate::error::BerErrorKind,
            >((rest, b)),
            Err(e) => ber::spec_parse_octetstring(s) matches Err(k) && e == SnmpError::BerError(k),
        }),
{
}

/// Purity of the encrypted path at the v3 entry point: a decoded
/// message whose privacy flag is set always carries `Encrypted` data.
pub proof fn lemma_v3_encrypted_message(s: Seq<u8>)
    ensures
        (match spec_parse_snmp_v3(s) {
            Ok((rest, m)) => m.header_data.msg_flags & 0b010 != 0 ==> m.data
                matches SpecScopedPduData::Encrypted(_),
            Err(_) => true,
        }),
{
}

} // verus!
