//! The zero-copy witness: every borrowed byte field of a decoded
//! message views a contiguous subrange of the input buffer, and the
//! returned remainder is one as well.  The executable parsers build
//! those fields only by subslicing, so this is stated and proved over
//! the specification parsers.

use vstd::prelude::*;

verus! {

use crate::ber;
use crate::generic::{SpecSnmpGenericMessage, spec_parse_snmp_generic_message};
use crate::snmp::{
    SpecObjectSyntax,
    SpecSnmpMessage,
    SpecSnmpPdu,
    SpecSnmpVariable,
    SpecVarBindValue,
    spec_object_syntax,
    spec_parse_bulk_pdu_body,
    spec_parse_generic_pdu_body,
    spec_parse_pdu_v1,
    spec_parse_pdu_v2c,
    spec_parse_snmp_v1,
    spec_parse_snmp_v2c,
    spec_parse_trap_pdu_body,
    spec_parse_v1_body,
    spec_parse_v2c_body,
    spec_parse_varbind,
    spec_parse_varbind_list,
    spec_parse_varbinds,
    spec_varbind_value,
    PduType,
};
use crate::snmpv3::{
    SpecScopedPduData,
    SpecSecurityParameters,
    SpecSnmpV3Message,
    spec_parse_plaintext_pdu,
    spec_parse_scoped_pdu_data,
    spec_parse_secp,
    spec_parse_snmp_v3,
    spec_parse_v3_body,
    HeaderData,
};
use crate::usm::spec_parse_usm_security_parameters;

/// `sub` is one contiguous subrange of `s`.
pub open spec fn is_subrange_of(sub: Seq<u8>, s: Seq<u8>) -> bool {
    exists|i: int|
        0 <= i && i + sub.len() <= s.len() && sub == #[trigger] s.subrange(i, i + sub.len() as int)
}

/// Every sequence is a subrange of itself.
pub proof fn lemma_subrange_refl(s: Seq<u8>)
    ensures
        is_subrange_of(s, s),
{
    assert(s == s.subrange(0, 0 + s.len() as int)) by {
        assert(s =~= s.subrange(0, s.len() as int));
    }
}

/// A prefix is a subrange.
pub proof fn lemma_take_subrange(s: Seq<u8>, n: int)
    requires
        0 <= n <= s.len(),
    ensures
        is_subrange_of(s.take(n), s),
{
    assert(s.take(n) == s.subrange(0, 0 + s.take(n).len() as int)) by {
        assert(s.take(n) =~= s.subrange(0, n));
    }
}

/// A suffix is a subrange.
pub proof fn lemma_skip_subrange(s: Seq<u8>, n: int)
    requires
        0 <= n <= s.len(),
    ensures
        is_subrange_of(s.skip(n), s),
{
    assert(s.skip(n) == s.subrange(n, n + s.skip(n).len() as int)) by {
        assert(s.skip(n) =~= s.subrange(n, s.len() as int));
    }
}

/// Being a subrange is transitive.
pub proof fn lemma_subrange_trans(a: Seq<u8>, b: Seq<u8>, c: Seq<u8>)
    requires
        is_subrange_of(a, b),
        is_subrange_of(b, c),
    ensures
        is_subrange_of(a, c),
{
    let i = choose|i: int|
        0 <= i && i + a.len() <= b.len() && a == #[trigger] b.subrange(i, i + a.len() as int);
    let j = choose|j: int|
        0 <= j && j + b.len() <= c.len() && b == #[trigger] c.subrange(j, j + b.len() as int);
    assert(a == c.subrange(j + i, j + i + a.len() as int)) by {
        assert(a =~= c.subrange(j + i, j + i + a.len() as int));
    }
}

/// What a successful header read returns is a suffix of the input.
proof fn lemma_header_borrows(s: Seq<u8>)
    ensures
        ber::spec_parse_header(s) matches Ok((after, h)) ==> is_subrange_of(after, s),
{
    ber::lemma_spec_parse_header_consumes(s);
    match ber::spec_parse_header(s) {
        Ok((after, h)) => {
            let n = choose|n: int| 0 < n <= s.len() && after == s.skip(n);
            lemma_skip_subrange(s, n);
        },
        Err(_) => (),
    }
}

/// Content and rest of a framed element are subranges of the input.
proof fn lemma_framed_borrows(s: Seq<u8>, class: u8, constructed: bool, tag: u32)
    ensures
        ber::spec_parse_framed(s, class, constructed, tag) matches Ok((content, rest))
            ==> is_subrange_of(content, s) && is_subrange_of(rest, s),
{
    lemma_header_borrows(s);
    match ber::spec_parse_header(s) {
        Ok((after, h)) => {
            if h.length <= after.len() {
                lemma_take_subrange(after, h.length as int);
                lemma_skip_subrange(after, h.length as int);
                lemma_subrange_trans(after.take(h.length as int), after, s);
                lemma_subrange_trans(after.skip(h.length as int), after, s);
            }
        },
        Err(_) => (),
    }
}

/// Content and rest of a verbatim element are subranges of the input.
proof fn lemma_any_borrows(s: Seq<u8>)
    ensures
        ber::spec_parse_any(s) matches Ok((rest, a)) ==> is_subrange_of(a.data, s)
            && is_subrange_of(rest, s),
{
    lemma_header_borrows(s);
    match ber::spec_parse_header(s) {
        Ok((after, h)) => {
            if h.length <= after.len() {
                lemma_take_subrange(after, h.length as int);
                lemma_skip_subrange(after, h.length as int);
                lemma_subrange_trans(after.take(h.length as int), after, s);
                lemma_subrange_trans(after.skip(h.length as int), after, s);
            }
        },
        Err(_) => (),
    }
}

/// The rest after an INTEGER is a subrange of the input.
proof fn lemma_u32_rest_borrows(s: Seq<u8>)
    ensures
        ber::spec_parse_ber_u32(s) matches Ok((rest, v)) ==> is_subrange_of(rest, s),
{
    lemma_framed_borrows(s, ber::CLASS_UNIVERSAL, false, ber::TAG_INTEGER);
}

/// Content and rest of an OCTET STRING are subranges of the input.
proof fn lemma_octetstring_borrows(s: Seq<u8>)
    ensures
        ber::spec_parse_octetstring(s) matches Ok((rest, content)) ==> is_subrange_of(content, s)
            && is_subrange_of(rest, s),
{
    lemma_framed_borrows(s, ber::CLASS_UNIVERSAL, false, ber::TAG_OCTETSTRING);
}

/// The rest after a UTF-8 OCTET STRING is a subrange of the input.
proof fn lemma_octetstring_utf8_rest_borrows(s: Seq<u8>)
    ensures
        ber::spec_parse_octetstring_utf8(s) matches Ok((rest, text)) ==> is_subrange_of(rest, s),
{
    lemma_octetstring_borrows(s);
}

/// The borrowed bytes of an ObjectSyntax value, all subranges of `s`.
pub open spec fn object_syntax_borrows_from(v: SpecObjectSyntax, s: Seq<u8>) -> bool {
    match v {
        SpecObjectSyntax::String(b) => is_subrange_of(b, s),
        SpecObjectSyntax::Object(b) => is_subrange_of(b, s),
        SpecObjectSyntax::BitString(bs) => is_subrange_of(bs.data, s),
        SpecObjectSyntax::UnknownSimple(a) => is_subrange_of(a.data, s),
        SpecObjectSyntax::Opaque(b) => is_subrange_of(b, s),
        SpecObjectSyntax::NsapAddress(b) => is_subrange_of(b, s),
        SpecObjectSyntax::UnknownApplication(a) => is_subrange_of(a.data, s),
        _ => true,
    }
}

/// The borrowed bytes of a VarBind value.
pub open spec fn varbind_value_borrows_from(v: SpecVarBindValue, s: Seq<u8>) -> bool {
    match v {
        SpecVarBindValue::Value(o) => object_syntax_borrows_from(o, s),
        _ => true,
    }
}

/// The borrowed bytes of one variable binding.
pub open spec fn varbind_borrows_from(v: SpecSnmpVariable, s: Seq<u8>) -> bool {
    is_subrange_of(v.oid, s) && varbind_value_borrows_from(v.val, s)
}

/// The borrowed bytes of a binding list.
pub open spec fn varbinds_borrow_from(vs: Seq<SpecSnmpVariable>, s: Seq<u8>) -> bool {
    forall|i: int| 0 <= i < vs.len() ==> varbind_borrows_from(#[trigger] vs[i], s)
}

/// The borrowed bytes of a PDU.
pub open spec fn pdu_borrows_from(p: SpecSnmpPdu, s: Seq<u8>) -> bool {
    match p {
        SpecSnmpPdu::Generic(g) => varbinds_borrow_from(g.var, s),
        SpecSnmpPdu::Bulk(b) => varbinds_borrow_from(b.var, s),
        SpecSnmpPdu::TrapV1(t) => is_subrange_of(t.enterprise, s) && varbinds_borrow_from(
            t.var,
            s,
        ),
    }
}

/// The borrowed bytes of a v1/v2c message (the community string is
/// owned).
pub open spec fn message_borrows_from(m: SpecSnmpMessage, s: Seq<u8>) -> bool {
    pdu_borrows_from(m.pdu, s)
}

/// The borrowed bytes of the security parameters (the user name is
/// owned).
pub open spec fn secp_borrows_from(p: SpecSecurityParameters, s: Seq<u8>) -> bool {
    match p {
        SpecSecurityParameters::Raw(b) => is_subrange_of(b, s),
        SpecSecurityParameters::USM(u) => is_subrange_of(u.msg_authoritative_engine_id, s)
            && is_subrange_of(u.msg_authentication_parameters, s) && is_subrange_of(
            u.msg_privacy_parameters,
            s,
        ),
    }
}

/// The borrowed bytes of the scoped PDU data.
pub open spec fn scoped_pdu_data_borrows_from(d: SpecScopedPduData, s: Seq<u8>) -> bool {
    match d {
        SpecScopedPduData::Encrypted(b) => is_subrange_of(b, s),
        SpecScopedPduData::Plaintext(p) => is_subrange_of(p.ctx_engine_id, s) && is_subrange_of(
            p.ctx_engine_name,
            s,
        ) && pdu_borrows_from(p.data, s),
    }
}

/// The borrowed bytes of a v3 message.
pub open spec fn v3_message_borrows_from(m: SpecSnmpV3Message, s: Seq<u8>) -> bool {
    secp_borrows_from(m.security_params, s) && scoped_pdu_data_borrows_from(m.data, s)
}

/// The borrowed bytes of a message of any version.
pub open spec fn generic_message_borrows_from(m: SpecSnmpGenericMessage, s: Seq<u8>) -> bool {
    match m {
        SpecSnmpGenericMessage::V1(v) => message_borrows_from(v, s),
        SpecSnmpGenericMessage::V2(v) => message_borrows_from(v, s),
        SpecSnmpGenericMessage::V3(v) => v3_message_borrows_from(v, s),
    }
}

/// Borrowing is monotone: what borrows from a subrange borrows from
/// the whole.
proof fn lemma_object_syntax_borrows_mono(v: SpecObjectSyntax, s0: Seq<u8>, s: Seq<u8>)
    requires
        object_syntax_borrows_from(v, s0),
        is_subrange_of(s0, s),
    ensures
        object_syntax_borrows_from(v, s),
{
    match v {
        SpecObjectSyntax::String(b) => lemma_subrange_trans(b, s0, s),
        SpecObjectSyntax::Object(b) => lemma_subrange_trans(b, s0, s),
        SpecObjectSyntax::BitString(bs) => lemma_subrange_trans(bs.data, s0, s),
        SpecObjectSyntax::UnknownSimple(a) => lemma_subrange_trans(a.data, s0, s),
        SpecObjectSyntax::Opaque(b) => lemma_subrange_trans(b, s0, s),
        SpecObjectSyntax::NsapAddress(b) => lemma_subrange_trans(b, s0, s),
        SpecObjectSyntax::UnknownApplication(a) => lemma_subrange_trans(a.data, s0, s),
        _ => (),
    }
}

/// Borrowing is monotone for one binding.
proof fn lemma_varbind_borrows_mono(v: SpecSnmpVariable, s0: Seq<u8>, s: Seq<u8>)
    requires
        varbind_borrows_from(v, s0),
        is_subrange_of(s0, s),
    ensures
        varbind_borrows_from(v, s),
{
    lemma_subrange_trans(v.oid, s0, s);
    match v.val {
        SpecVarBindValue::Value(o) => lemma_object_syntax_borrows_mono(o, s0, s),
        _ => (),
    }
}

/// Borrowing is monotone for a binding list.
proof fn lemma_varbinds_borrow_mono(vs: Seq<SpecSnmpVariable>, s0: Seq<u8>, s: Seq<u8>)
    requires
        varbinds_borrow_from(vs, s0),
        is_subrange_of(s0, s),
    ensures
        varbinds_borrow_from(vs, s),
{
    assert forall|i: int| 0 <= i < vs.len() implies varbind_borrows_from(#[trigger] vs[i], s) by {
        lemma_varbind_borrows_mono(vs[i], s0, s);
    }
}

/// Borrowing is monotone for a PDU.
proof fn lemma_pdu_borrows_mono(p: SpecSnmpPdu, s0: Seq<u8>, s: Seq<u8>)
    requires
        pdu_borrows_from(p, s0),
        is_subrange_of(s0, s),
    ensures
        pdu_borrows_from(p, s),
{
    match p {
        SpecSnmpPdu::Generic(g) => lemma_varbinds_borrow_mono(g.var, s0, s),
        SpecSnmpPdu::Bulk(b) => lemma_varbinds_borrow_mono(b.var, s0, s),
        SpecSnmpPdu::TrapV1(t) => {
            lemma_subrange_trans(t.enterprise, s0, s);
            lemma_varbinds_borrow_mono(t.var, s0, s);
        },
    }
}

/// An ObjectSyntax read from an element whose content is a subrange of
/// `s` borrows from `s`.
proof fn lemma_object_syntax_borrows(a: crate::ber::SpecAny, s: Seq<u8>)
    requires
        is_subrange_of(a.data, s),
    ensures
        spec_object_syntax(a) matches Ok(v) ==> object_syntax_borrows_from(v, s),
{
    if a.class != ber::CLASS_APPLICATION && a.tag == ber::TAG_BITSTRING && a.data.len() > 0 {
        lemma_skip_subrange(a.data, 1);
        lemma_subrange_trans(a.data.skip(1), a.data, s);
    }
}

/// A VarBind value read from such an element borrows from `s`.
proof fn lemma_varbind_value_borrows(a: crate::ber::SpecAny, s: Seq<u8>)
    requires
        is_subrange_of(a.data, s),
    ensures
        spec_varbind_value(a) matches Ok(v) ==> varbind_value_borrows_from(v, s),
{
    lemma_object_syntax_borrows(a, s);
}

/// A decoded VarBind, and the rest after it, borrow from the input.
proof fn lemma_varbind_borrows(s: Seq<u8>)
    ensures
        spec_parse_varbind(s) matches Ok((rest, v)) ==> varbind_borrows_from(v, s)
            && is_subrange_of(rest, s),
{
    lemma_framed_borrows(s, ber::CLASS_UNIVERSAL, true, ber::TAG_SEQUENCE);
    match ber::spec_parse_framed(s, ber::CLASS_UNIVERSAL, true, ber::TAG_SEQUENCE) {
        Err(_) => (),
        Ok((content, rest)) => {
            lemma_framed_borrows(content, ber::CLASS_UNIVERSAL, false, ber::TAG_OID);
            match ber::spec_parse_framed(content, ber::CLASS_UNIVERSAL, false, ber::TAG_OID) {
                Err(_) => (),
                Ok((oid_content, rem)) => {
                    lemma_subrange_trans(oid_content, content, s);
                    lemma_any_borrows(rem);
                    match ber::spec_parse_any(rem) {
                        Err(_) => (),
                        Ok((_, choice)) => {
                            lemma_subrange_trans(choice.data, rem, content);
                            lemma_subrange_trans(choice.data, content, s);
                            lemma_varbind_value_borrows(choice, s);
                        },
                    }
                },
            }
        },
    }
}

/// Every binding of a decoded list body borrows from the input.
proof fn lemma_varbinds_borrow(s: Seq<u8>)
    ensures
        spec_parse_varbinds(s) matches Ok(vs) ==> varbinds_borrow_from(vs, s),
    decreases s.len(),
{
    if s.len() > 0 {
        lemma_varbind_borrows(s);
        match spec_parse_varbind(s) {
            Err(_) => (),
            Ok((rem, v)) => {
                if rem.len() < s.len() {
                    lemma_varbinds_borrow(rem);
                    match spec_parse_varbinds(rem) {
                        Err(_) => (),
                        Ok(vs) => {
                            lemma_varbinds_borrow_mono(vs, rem, s);
                            assert forall|i: int| 0 <= i < (seq![v] + vs).len() implies
                                varbind_borrows_from(#[trigger] (seq![v] + vs)[i], s) by {
                                if i > 0 {
                                    assert((seq![v] + vs)[i] == vs[i - 1]);
                                }
                            }
                        },
                    }
                }
            },
        }
    }
}

/// A decoded VarBind list, and the rest after it, borrow from the
/// input.
proof fn lemma_varbind_list_borrows(s: Seq<u8>)
    ensures
        spec_parse_varbind_list(s) matches Ok((rest, vs)) ==> varbinds_borrow_from(vs, s)
            && is_subrange_of(rest, s),
{
    lemma_framed_borrows(s, ber::CLASS_UNIVERSAL, true, ber::TAG_SEQUENCE);
    match ber::spec_parse_framed(s, ber::CLASS_UNIVERSAL, true, ber::TAG_SEQUENCE) {
        Err(_) => (),
        Ok((content, rest)) => {
            lemma_varbinds_borrow(content);
            match spec_parse_varbinds(content) {
                Err(_) => (),
                Ok(vs) => lemma_varbinds_borrow_mono(vs, content, s),
            }
        },
    }
}

/// A decoded generic PDU body borrows from the input.
proof fn lemma_generic_pdu_body_borrows(s: Seq<u8>, t: PduType)
    ensures
        spec_parse_generic_pdu_body(s, t) matches Ok((rest, p)) ==> pdu_borrows_from(p, s),
{
    lemma_u32_rest_borrows(s);
    match ber::spec_parse_ber_u32(s) {
        Err(_) => (),
        Ok((i1, _)) => {
            lemma_u32_rest_borrows(i1);
            match ber::spec_parse_ber_u32(i1) {
                Err(_) => (),
                Ok((i2, _)) => {
                    lemma_u32_rest_borrows(i2);
                    match ber::spec_parse_ber_u32(i2) {
                        Err(_) => (),
                        Ok((i3, _)) => {
                            lemma_varbind_list_borrows(i3);
                            match spec_parse_varbind_list(i3) {
                                Err(_) => (),
                                Ok((_, vs)) => {
                                    lemma_subrange_trans(i2, i1, s);
                                    lemma_subrange_trans(i3, i2, s);
                                    lemma_varbinds_borrow_mono(vs, i3, s);
                                },
                            }
                        },
                    }
                },
            }
        },
    }
}

/// A decoded bulk PDU body borrows from the input.
proof fn lemma_bulk_pdu_body_borrows(s: Seq<u8>)
    ensures
        spec_parse_bulk_pdu_body(s) matches Ok((rest, p)) ==> pdu_borrows_from(p, s),
{
    lemma_u32_rest_borrows(s);
    match ber::spec_parse_ber_u32(s) {
        Err(_) => (),
        Ok((i1, _)) => {
            lemma_u32_rest_borrows(i1);
            match ber::spec_parse_ber_u32(i1) {
                Err(_) => (),
                Ok((i2, _)) => {
                    lemma_u32_rest_borrows(i2);
                    match ber::spec_parse_ber_u32(i2) {
                        Err(_) => (),
                        Ok((i3, _)) => {
                            lemma_varbind_list_borrows(i3);
                            match spec_parse_varbind_list(i3) {
                                Err(_) => (),
                                Ok((_, vs)) => {
                                    lemma_subrange_trans(i2, i1, s);
                                    lemma_subrange_trans(i3, i2, s);
                                    lemma_varbinds_borrow_mono(vs, i3, s);
                                },
                            }
                        },
                    }
                },
            }
        },
    }
}

/// A decoded trap PDU tail borrows from the input, and carries the
/// enterprise OID it was given.
proof fn lemma_trap_tail_borrows(s: Seq<u8>, enterprise: Seq<u8>, agent: crate::snmp::NetworkAddress)
    ensures
        crate::snmp::spec_parse_trap_pdu_tail(s, enterprise, agent) matches Ok((rest, p)) ==> (p
            matches SpecSnmpPdu::TrapV1(t) && t.enterprise == enterprise && varbinds_borrow_from(
            t.var,
            s,
        )),
{
    lemma_u32_rest_borrows(s);
    match ber::spec_parse_ber_u32(s) {
        Err(_) => (),
        Ok((i3, _)) => {
            lemma_u32_rest_borrows(i3);
            match ber::spec_parse_ber_u32(i3) {
                Err(_) => (),
                Ok((i4, _)) => {
                    lemma_framed_borrows(i4, ber::CLASS_APPLICATION, false, 3);
                    match crate::snmp::spec_parse_timeticks(i4) {
                        Err(_) => (),
                        Ok((i5, _)) => {
                            lemma_varbind_list_borrows(i5);
                            match spec_parse_varbind_list(i5) {
                                Err(_) => (),
                                Ok((_, vs)) => {
                                    lemma_subrange_trans(i4, i3, s);
                                    lemma_subrange_trans(i5, i4, s);
                                    lemma_varbinds_borrow_mono(vs, i5, s);
                                },
                            }
                        },
                    }
                },
            }
        },
    }
}

/// A decoded trap PDU body borrows from the input.
proof fn lemma_trap_pdu_body_borrows(s: Seq<u8>)
    ensures
        spec_parse_trap_pdu_body(s) matches Ok((rest, p)) ==> pdu_borrows_from(p, s),
{
    lemma_framed_borrows(s, ber::CLASS_UNIVERSAL, false, ber::TAG_OID);
    match ber::spec_parse_framed(s, ber::CLASS_UNIVERSAL, false, ber::TAG_OID) {
        Err(_) => (),
        Ok((enterprise, i1)) => {
            lemma_any_borrows(i1);
            match ber::spec_parse_any(i1) {
                Err(_) => (),
                Ok((i2, addr)) => {
                    if addr.class == ber::CLASS_APPLICATION && addr.tag == 0 && addr.data.len()
                        == 4 {
                        let agent = crate::snmp::NetworkAddress::IPv4(
                            addr.data[0],
                            addr.data[1],
                            addr.data[2],
                            addr.data[3],
                        );
                        lemma_trap_tail_borrows(i2, enterprise, agent);
                        lemma_subrange_trans(i2, i1, s);
                        match crate::snmp::spec_parse_trap_pdu_tail(i2, enterprise, agent) {
                            Err(_) => (),
                            Ok((_, p)) => match p {
                                SpecSnmpPdu::TrapV1(t) => {
                                    lemma_varbinds_borrow_mono(t.var, i2, s);
                                },
                                _ => (),
                            },
                        }
                    }
                },
            }
        },
    }
}

/// A decoded v1 PDU borrows from the input.
proof fn lemma_pdu_v1_borrows(s: Seq<u8>)
    ensures
        spec_parse_pdu_v1(s) matches Ok((rest, p)) ==> pdu_borrows_from(p, s),
{
    lemma_header_borrows(s);
    match ber::spec_parse_header(s) {
        Err(_) => (),
        Ok((rem, h)) => {
            lemma_generic_pdu_body_borrows(rem, PduType(h.tag));
            lemma_trap_pdu_body_borrows(rem);
            match spec_parse_pdu_v1(s) {
                Err(_) => (),
                Ok((_, p)) => lemma_pdu_borrows_mono(p, rem, s),
            }
        },
    }
}

/// A decoded v2c PDU borrows from the input.
proof fn lemma_pdu_v2c_borrows(s: Seq<u8>)
    ensures
        spec_parse_pdu_v2c(s) matches Ok((rest, p)) ==> pdu_borrows_from(p, s),
{
    lemma_header_borrows(s);
    match ber::spec_parse_header(s) {
        Err(_) => (),
        Ok((rem, h)) => {
            lemma_generic_pdu_body_borrows(rem, PduType(h.tag));
            lemma_bulk_pdu_body_borrows(rem);
            lemma_trap_pdu_body_borrows(rem);
            match spec_parse_pdu_v2c(s) {
                Err(_) => (),
                Ok((_, p)) => lemma_pdu_borrows_mono(p, rem, s),
            }
        },
    }
}

/// A decoded v1 message body borrows from the input.
proof fn lemma_v1_body_borrows(s: Seq<u8>, version: u32)
    ensures
        spec_parse_v1_body(s, version) matches Ok(m) ==> message_borrows_from(m, s),
{
    lemma_octetstring_utf8_rest_borrows(s);
    match ber::spec_parse_octetstring_utf8(s) {
        Err(_) => (),
        Ok((i1, _)) => {
            lemma_pdu_v1_borrows(i1);
            match spec_parse_pdu_v1(i1) {
                Err(_) => (),
                Ok((_, p)) => lemma_pdu_borrows_mono(p, i1, s),
            }
        },
    }
}

/// A decoded v2c message body borrows from the input.
proof fn lemma_v2c_body_borrows(s: Seq<u8>, version: u32)
    ensures
        spec_parse_v2c_body(s, version) matches Ok(m) ==> message_borrows_from(m, s),
{
    lemma_octetstring_utf8_rest_borrows(s);
    match ber::spec_parse_octetstring_utf8(s) {
        Err(_) => (),
        Ok((i1, _)) => {
            lemma_pdu_v2c_borrows(i1);
            match spec_parse_pdu_v2c(i1) {
                Err(_) => (),
                Ok((_, p)) => lemma_pdu_borrows_mono(p, i1, s),
            }
        },
    }
}

/// Decoded USM parameters borrow from the input.
proof fn lemma_usm_borrows(s: Seq<u8>)
    ensures
        spec_parse_usm_security_parameters(s) matches Ok((rest, u)) ==> is_subrange_of(
            u.msg_authoritative_engine_id,
            s,
        ) && is_subrange_of(u.msg_authentication_parameters, s) && is_subrange_of(
            u.msg_privacy_parameters,
            s,
        ),
{
    lemma_framed_borrows(s, ber::CLASS_UNIVERSAL, true, ber::TAG_SEQUENCE);
    match ber::spec_parse_framed(s, ber::CLASS_UNIVERSAL, true, ber::TAG_SEQUENCE) {
        Err(_) => (),
        Ok((content, _)) => {
            lemma_octetstring_borrows(content);
            match ber::spec_parse_octetstring(content) {
                Err(_) => (),
                Ok((i1, engine_id)) => {
                    lemma_subrange_trans(engine_id, content, s);
                    lemma_u32_rest_borrows(i1);
                    match ber::spec_parse_ber_u32(i1) {
                        Err(_) => (),
                        Ok((i2, _)) => {
                            lemma_u32_rest_borrows(i2);
                            match ber::spec_parse_ber_u32(i2) {
                                Err(_) => (),
                                Ok((i3, _)) => {
                                    lemma_octetstring_utf8_rest_borrows(i3);
                                    match ber::spec_parse_octetstring_utf8(i3) {
                                        Err(_) => (),
                                        Ok((i4, _)) => {
                                            lemma_octetstring_borrows(i4);
                                            match ber::spec_parse_octetstring(i4) {
                                                Err(_) => (),
                                                Ok((i5, auth)) => {
                                                    lemma_octetstring_borrows(i5);
                                                    match ber::spec_parse_octetstring(i5) {
                                                        Err(_) => (),
                                                        Ok((_, privacy)) => {
                                                            lemma_subrange_trans(i2, i1, content);
                                                            lemma_subrange_trans(i3, i2, content);
                                                            lemma_subrange_trans(i4, i3, content);
                                                            lemma_subrange_trans(i5, i4, content);
                                                            lemma_subrange_trans(auth, i4, content);
                                                            lemma_subrange_trans(
                                                                privacy,
                                                                i5,
                                                                content,
                                                            );
                                                            lemma_subrange_trans(auth, content, s);
                                                            lemma_subrange_trans(
                                                                privacy,
                                                                content,
                                                                s,
                                                            );
                                                        },
                                                    }
                                                },
                                            }
                                        },
                                    }
                                },
                            }
                        },
                    }
                },
            }
        },
    }
}

/// Decoded security parameters borrow from the input.
proof fn lemma_secp_borrows(s: Seq<u8>, model: crate::snmpv3::SecurityModel)
    ensures
        spec_parse_secp(s, model) matches Ok(p) ==> secp_borrows_from(p, s),
{
    lemma_usm_borrows(s);
    lemma_subrange_refl(s);
}

/// A decoded plaintext scoped PDU borrows from the input.
proof fn lemma_plaintext_pdu_borrows(s: Seq<u8>)
    ensures
        spec_parse_plaintext_pdu(s) matches Ok((rest, d)) ==> scoped_pdu_data_borrows_from(d, s),
{
    lemma_framed_borrows(s, ber::CLASS_UNIVERSAL, true, ber::TAG_SEQUENCE);
    match ber::spec_parse_framed(s, ber::CLASS_UNIVERSAL, true, ber::TAG_SEQUENCE) {
        Err(_) => (),
        Ok((content, _)) => {
            lemma_octetstring_borrows(content);
            match ber::spec_parse_octetstring(content) {
                Err(_) => (),
                Ok((i1, engine_id)) => {
                    lemma_octetstring_borrows(i1);
                    match ber::spec_parse_octetstring(i1) {
                        Err(_) => (),
                        Ok((i2, engine_name)) => {
                            lemma_pdu_v2c_borrows(i2);
                            match spec_parse_pdu_v2c(i2) {
                                Err(_) => (),
                                Ok((_, p)) => {
                                    lemma_subrange_trans(engine_id, content, s);
                                    lemma_subrange_trans(engine_name, i1, content);
                                    lemma_subrange_trans(engine_name, content, s);
                                    lemma_subrange_trans(i2, i1, content);
                                    lemma_pdu_borrows_mono(p, i2, content);
                                    lemma_pdu_borrows_mono(p, content, s);
                                },
                            }
                        },
                    }
                },
            }
        },
    }
}

/// Decoded scoped PDU data borrows from the input.
proof fn lemma_scoped_pdu_data_borrows(s: Seq<u8>, hdr: HeaderData)
    ensures
        spec_parse_scoped_pdu_data(s, hdr) matches Ok((rest, d)) ==> scoped_pdu_data_borrows_from(
            d,
            s,
        ),
{
    lemma_octetstring_borrows(s);
    lemma_plaintext_pdu_borrows(s);
}

/// A decoded v3 message body borrows from the input.
proof fn lemma_v3_body_borrows(s: Seq<u8>, version: u32)
    ensures
        spec_parse_v3_body(s, version) matches Ok(m) ==> v3_message_borrows_from(m, s),
{
    match crate::snmpv3::spec_parse_headerdata(s) {
        Err(_) => (),
        Ok((i1, hdr)) => {
            lemma_framed_borrows(s, ber::CLASS_UNIVERSAL, true, ber::TAG_SEQUENCE);
            lemma_octetstring_borrows(i1);
            match ber::spec_parse_octetstring(i1) {
                Err(_) => (),
                Ok((i2, secp_bytes)) => {
                    lemma_secp_borrows(secp_bytes, hdr.msg_security_model);
                    lemma_scoped_pdu_data_borrows(i2, hdr);
                    match spec_parse_secp(secp_bytes, hdr.msg_security_model) {
                        Err(_) => (),
                        Ok(p) => {
                            lemma_headerdata_rest_borrows(s);
                            lemma_subrange_trans(secp_bytes, i1, s);
                            match p {
                                SpecSecurityParameters::Raw(b) => lemma_subrange_trans(
                                    b,
                                    secp_bytes,
                                    s,
                                ),
                                SpecSecurityParameters::USM(u) => {
                                    lemma_subrange_trans(
                                        u.msg_authoritative_engine_id,
                                        secp_bytes,
                                        s,
                                    );
                                    lemma_subrange_trans(
                                        u.msg_authentication_parameters,
                                        secp_bytes,
                                        s,
                                    );
                                    lemma_subrange_trans(u.msg_privacy_parameters, secp_bytes, s);
                                },
                            }
                            match spec_parse_scoped_pdu_data(i2, hdr) {
                                Err(_) => (),
                                Ok((_, d)) => {
                                    lemma_subrange_trans(i2, i1, s);
                                    lemma_scoped_pdu_data_mono(d, i2, s);
                                },
                            }
                        },
                    }
                },
            }
        },
    }
}

/// The rest after the v3 header data is a subrange of the input.
proof fn lemma_headerdata_rest_borrows(s: Seq<u8>)
    ensures
        crate::snmpv3::spec_parse_headerdata(s) matches Ok((rest, h)) ==> is_subrange_of(rest, s),
{
    lemma_framed_borrows(s, ber::CLASS_UNIVERSAL, true, ber::TAG_SEQUENCE);
}

/// Borrowing is monotone for scoped PDU data.
proof fn lemma_scoped_pdu_data_mono(d: SpecScopedPduData, s0: Seq<u8>, s: Seq<u8>)
    requires
        scoped_pdu_data_borrows_from(d, s0),
        is_subrange_of(s0, s),
    ensures
        scoped_pdu_data_borrows_from(d, s),
{
    match d {
        SpecScopedPduData::Encrypted(b) => lemma_subrange_trans(b, s0, s),
        SpecScopedPduData::Plaintext(p) => {
            lemma_subrange_trans(p.ctx_engine_id, s0, s);
            lemma_subrange_trans(p.ctx_engine_name, s0, s);
            lemma_pdu_borrows_mono(p.data, s0, s);
        },
    }
}

/// The zero-copy witness for the v1 entry point: every borrowed byte
/// field of the decoded message, and the returned remainder, views a
/// contiguous subrange of the input.
pub proof fn lemma_zero_copy_v1(s: Seq<u8>)
    ensures
        spec_parse_snmp_v1(s) matches Ok((rest, m)) ==> message_borrows_from(m, s)
            && is_subrange_of(rest, s),
{
    lemma_framed_borrows(s, ber::CLASS_UNIVERSAL, true, ber::TAG_SEQUENCE);
    match ber::spec_parse_framed(s, ber::CLASS_UNIVERSAL, true, ber::TAG_SEQUENCE) {
        Err(_) => (),
        Ok((content, rest)) => {
            lemma_u32_rest_borrows(content);
            match ber::spec_parse_ber_u32(content) {
                Err(_) => (),
                Ok((i1, version)) => {
                    lemma_v1_body_borrows(i1, version);
                    match spec_parse_v1_body(i1, version) {
                        Err(_) => (),
                        Ok(m) => {
                            lemma_subrange_trans(i1, content, s);
                            lemma_pdu_borrows_mono(m.pdu, i1, s);
                        },
                    }
                },
            }
        },
    }
}

/// The zero-copy witness for the v2c entry point.
pub proof fn lemma_zero_copy_v2c(s: Seq<u8>)
    ensures
        spec_parse_snmp_v2c(s) matches Ok((rest, m)) ==> message_borrows_from(m, s)
            && is_subrange_of(rest, s),
{
    lemma_framed_borrows(s, ber::CLASS_UNIVERSAL, true, ber::TAG_SEQUENCE);
    match ber::spec_parse_framed(s, ber::CLASS_UNIVERSAL, true, ber::TAG_SEQUENCE) {
        Err(_) => (),
        Ok((content, rest)) => {
            lemma_u32_rest_borrows(content);
            match ber::spec_parse_ber_u32(content) {
                Err(_) => (),
                Ok((i1, version)) => {
                    lemma_v2c_body_borrows(i1, version);
                    match spec_parse_v2c_body(i1, version) {
                        Err(_) => (),
                        Ok(m) => {
                            lemma_subrange_trans(i1, content, s);
                            lemma_pdu_borrows_mono(m.pdu, i1, s);
                        },
                    }
                },
            }
        },
    }
}

/// The zero-copy witness for the v3 entry point.
pub proof fn lemma_zero_copy_v3(s: Seq<u8>)
    ensures
        spec_parse_snmp_v3(s) matches Ok((rest, m)) ==> v3_message_borrows_from(m, s)
            && is_subrange_of(rest, s),
{
    lemma_framed_borrows(s, ber::CLASS_UNIVERSAL, true, ber::TAG_SEQUENCE);
    match ber::spec_parse_framed(s, ber::CLASS_UNIVERSAL, true, ber::TAG_SEQUENCE) {
        Err(_) => (),
        Ok((content, rest)) => {
            lemma_u32_rest_borrows(content);
            match ber::spec_parse_ber_u32(content) {
                Err(_) => (),
                Ok((i1, version)) => {
                    lemma_v3_body_borrows(i1, version);
                    match spec_parse_v3_body(i1, version) {
                        Err(_) => (),
                        Ok(m) => {
                            lemma_subrange_trans(i1, content, s);
                            match m.security_params {
                                SpecSecurityParameters::Raw(b) => lemma_subrange_trans(b, i1, s),
                                SpecSecurityParameters::USM(u) => {
                                    lemma_subrange_trans(u.msg_authoritative_engine_id, i1, s);
                                    lemma_subrange_trans(u.msg_authentication_parameters, i1, s);
                                    lemma_subrange_trans(u.msg_privacy_parameters, i1, s);
                                },
                            }
                            lemma_scoped_pdu_data_mono(m.data, i1, s);
                        },
                    }
                },
            }
        },
    }
}

/// The zero-copy witness for the generic entry point: every borrowed
/// byte field of the decoded message, and the returned remainder,
/// views a contiguous subrange of the input buffer.
pub proof fn lemma_zero_copy_generic(s: Seq<u8>)
    ensures
        spec_parse_snmp_generic_message(s) matches Ok((rest, m)) ==> generic_message_borrows_from(
            m,
            s,
        ) && is_subrange_of(rest, s),
{
    lemma_framed_borrows(s, ber::CLASS_UNIVERSAL, true, ber::TAG_SEQUENCE);
    match ber::spec_parse_framed(s, ber::CLASS_UNIVERSAL, true, ber::TAG_SEQUENCE) {
        Err(_) => (),
        Ok((content, rest)) => {
            lemma_u32_rest_borrows(content);
            match ber::spec_parse_ber_u32(content) {
                Err(_) => (),
                Ok((i1, version)) => {
                    lemma_subrange_trans(i1, content, s);
                    lemma_v1_body_borrows(i1, version);
                    lemma_v2c_body_borrows(i1, version);
                    lemma_v3_body_borrows(i1, version);
                    match spec_parse_v1_body(i1, version) {
                        Ok(m) => lemma_pdu_borrows_mono(m.pdu, i1, s),
                        Err(_) => (),
                    }
                    match spec_parse_v2c_body(i1, version) {
                        Ok(m) => lemma_pdu_borrows_mono(m.pdu, i1, s),
                        Err(_) => (),
                    }
                    match spec_parse_v3_body(i1, version) {
                        Ok(m) => {
                            match m.security_params {
                                SpecSecurityParameters::Raw(b) => lemma_subrange_trans(b, i1, s),
                                SpecSecurityParameters::USM(u) => {
                                    lemma_subrange_trans(u.msg_authoritative_engine_id, i1, s);
                                    lemma_subrange_trans(u.msg_authentication_parameters, i1, s);
                                    lemma_subrange_trans(u.msg_privacy_parameters, i1, s);
                                },
                            }
                            lemma_scoped_pdu_data_mono(m.data, i1, s);
                        },
                        Err(_) => (),
                    }
                },
            }
        },
    }
}

} // verus!
