//! The generic dispatcher: accepts an SNMP message of version 1, 2c
//! or 3 by peeking at the version field of the outer SEQUENCE and
//! routing to the matching decoder.

use vstd::prelude::*;

verus! {

use crate::ber;
use crate::error::SnmpError;
use crate::snmp::{
    SnmpMessage,
    SpecSnmpMessage,
    spec_parse_v1_body,
    spec_parse_v2c_body,
    parse_v1_body,
    parse_v2c_body,
};
use crate::snmpv3::{SnmpV3Message, SpecSnmpV3Message, spec_parse_v3_body, parse_v3_body};

/// An SNMP message of any supported version.
#[derive(Debug, PartialEq)]
pub enum SnmpGenericMessage<'a> {
    /// An SNMP version 1 message.
    V1(SnmpMessage<'a>),
    /// An SNMP version 2c message.
    V2(SnmpMessage<'a>),
    /// An SNMP version 3 message.
    V3(SnmpV3Message<'a>),
}

/// The mathematical view of [`SnmpGenericMessage`].
pub enum SpecSnmpGenericMessage {
    V1(SpecSnmpMessage),
    V2(SpecSnmpMessage),
    V3(SpecSnmpV3Message),
}

impl<'a> DeepView for SnmpGenericMessage<'a> {
    type V = SpecSnmpGenericMessage;

    open spec fn deep_view(&self) -> SpecSnmpGenericMessage {
        match *self {
            SnmpGenericMessage::V1(ref m) => SpecSnmpGenericMessage::V1(m.deep_view()),
            SnmpGenericMessage::V2(ref m) => SpecSnmpGenericMessage::V2(m.deep_view()),
            SnmpGenericMessage::V3(ref m) => SpecSnmpGenericMessage::V3(m.deep_view()),
        }
    }
}

/// An SNMP message of any version: the outer element must be a
/// universal SEQUENCE, else `InvalidMessage`; the version INTEGER
/// inside selects the decoder, 0 for v1, 1 for v2c and 3 for v3, and
/// any other version (or one that does not decode) fails with
/// `InvalidVersion`.  Only the outer SEQUENCE is consumed: the bytes
/// after it are returned untouched.
pub open spec fn spec_parse_snmp_generic_message(s: Seq<u8>) -> Result<
    (Seq<u8>, SpecSnmpGenericMessage),
    SnmpError,
> {
    match ber::spec_parse_framed(s, ber::CLASS_UNIVERSAL, true, ber::TAG_SEQUENCE) {
        Err(_) => Err(SnmpError::InvalidMessage),
        Ok((content, rest)) => match ber::spec_parse_ber_u32(content) {
            Err(_) => Err(SnmpError::InvalidVersion),
            Ok((i1, version)) => {
                if version == 0 {
                    match spec_parse_v1_body(i1, version) {
                        Err(e) => Err(e),
                        Ok(m) => Ok((rest, SpecSnmpGenericMessage::V1(m))),
                    }
                } else if version == 1 {
                    match spec_parse_v2c_body(i1, version) {
                        Err(e) => Err(e),
                        Ok(m) => Ok((rest, SpecSnmpGenericMessage::V2(m))),
                    }
                } else if version == 3 {
                    match spec_parse_v3_body(i1, version) {
                        Err(e) => Err(e),
                        Ok(m) => Ok((rest, SpecSnmpGenericMessage::V3(m))),
                    }
                } else {
                    Err(SnmpError::InvalidVersion)
                }
            },
        },
    }
}

/// Parses an SNMP message of version 1, 2c or 3 from `bytes`; the
/// result equals [`spec_parse_snmp_generic_message`] applied to the
/// input, so the parse is total and deterministic: for every input it
/// returns the decoded message or a typed error, and never panics.
pub fn parse_snmp_generic_message<'a>(bytes: &'a [u8]) -> (r: Result<
    (&'a [u8], SnmpGenericMessage<'a>),
    SnmpError,
>)
    ensures
        ber::parsed(r) == spec_parse_snmp_generic_message(bytes@),
{
    let (content, rest) = match ber::parse_framed(
        bytes,
        ber::CLASS_UNIVERSAL,
        true,
        ber::TAG_SEQUENCE,
    ) {
        Ok(p) => p,
        Err(_) => {
            return Err(SnmpError::InvalidMessage);
        },
    };
    let (i1, version) = match ber::parse_ber_u32(content) {
        Ok(p) => p,
        Err(_) => {
            return Err(SnmpError::InvalidVersion);
        },
    };
    if version == 0 {
        match parse_v1_body(i1, version) {
            Err(e) => Err(e),
            Ok(m) => Ok((rest, SnmpGenericMessage::V1(m))),
        }
    } else if version == 1 {
        match parse_v2c_body(i1, version) {
            Err(e) => Err(e),
            Ok(m) => Ok((rest, SnmpGenericMessage::V2(m))),
        }
    } else if version == 3 {
        match parse_v3_body(i1, version) {
            Err(e) => Err(e),
            Ok(m) => Ok((rest, SnmpGenericMessage::V3(m))),
        }
    } else {
        Err(SnmpError::InvalidVersion)
    }
}

} // verus!
