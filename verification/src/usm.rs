//! The User-based Security Model (USM) parameter block of SNMPv3
//! (RFC 3414): a SEQUENCE of engine id, boots, time, user name and the
//! two parameter strings.  Only the user name is an owned string; the
//! other OCTET STRINGs are borrowed.

use vstd::prelude::*;

verus! {

use crate::ber;
use crate::error::BerErrorKind;

/// The USM security parameters.  The authentication digest and the
/// privacy salt are surfaced as opaque bytes; no cryptography is
/// performed.
#[derive(Debug, PartialEq)]
pub struct UsmSecurityParameters<'a> {
    pub msg_authoritative_engine_id: &'a [u8],
    pub msg_authoritative_engine_boots: u32,
    pub msg_authoritative_engine_time: u32,
    pub msg_user_name: String,
    pub msg_authentication_parameters: &'a [u8],
    pub msg_privacy_parameters: &'a [u8],
}

/// The mathematical view of [`UsmSecurityParameters`].
pub struct SpecUsmSecurityParameters {
    pub msg_authoritative_engine_id: Seq<u8>,
    pub msg_authoritative_engine_boots: u32,
    pub msg_authoritative_engine_time: u32,
    pub msg_user_name: Seq<char>,
    pub msg_authentication_parameters: Seq<u8>,
    pub msg_privacy_parameters: Seq<u8>,
}

impl<'a> DeepView for UsmSecurityParameters<'a> {
    type V = SpecUsmSecurityParameters;

    open spec fn deep_view(&self) -> SpecUsmSecurityParameters {
        SpecUsmSecurityParameters {
            msg_authoritative_engine_id: self.msg_authoritative_engine_id@,
            msg_authoritative_engine_boots: self.msg_authoritative_engine_boots,
            msg_authoritative_engine_time: self.msg_authoritative_engine_time,
            msg_user_name: self.msg_user_name@,
            msg_authentication_parameters: self.msg_authentication_parameters@,
            msg_privacy_parameters: self.msg_privacy_parameters@,
        }
    }
}

/// The USM parameter SEQUENCE: engine id, boots, time, user name
/// (UTF-8), authentication parameters and privacy parameters.
/// Trailing bytes inside the SEQUENCE body are ignored; the bytes
/// after it are returned.
pub open spec fn spec_parse_usm_security_parameters(s: Seq<u8>) -> Result<
    (Seq<u8>, SpecUsmSecurityParameters),
    BerErrorKind,
> {
    match ber::spec_parse_framed(s, ber::CLASS_UNIVERSAL, true, ber::TAG_SEQUENCE) {
        Err(e) => Err(e),
        Ok((content, rest)) => match ber::spec_parse_octetstring(content) {
            Err(e) => Err(e),
            Ok((i1, engine_id)) => match ber::spec_parse_ber_u32(i1) {
                Err(e) => Err(e),
                Ok((i2, boots)) => match ber::spec_parse_ber_u32(i2) {
                    Err(e) => Err(e),
                    Ok((i3, time)) => match ber::spec_parse_octetstring_utf8(i3) {
                        Err(e) => Err(e),
                        Ok((i4, user)) => match ber::spec_parse_octetstring(i4) {
                            Err(e) => Err(e),
                            Ok((i5, auth)) => match ber::spec_parse_octetstring(i5) {
                                Err(e) => Err(e),
                                Ok((_, privacy)) => Ok(
                                    (
                                        rest,
                                        SpecUsmSecurityParameters {
                                            msg_authoritative_engine_id: engine_id,
                                            msg_authoritative_engine_boots: boots,
                                            msg_authoritative_engine_time: time,
                                            msg_user_name: user,
                                            msg_authentication_parameters: auth,
                                            msg_privacy_parameters: privacy,
                                        },
                                    ),
                                ),
                            },
                        },
                    },
                },
            },
        },
    }
}

/// Parses a USM security-parameter block; the result equals
/// [`spec_parse_usm_security_parameters`] applied to the input.
pub fn parse_usm_security_parameters<'a>(bytes: &'a [u8]) -> (r: Result<
    (&'a [u8], UsmSecurityParameters<'a>),
    BerErrorKind,
>)
    ensures
        ber::parsed(r) == spec_parse_usm_security_parameters(bytes@),
{
    let (content, rest) = match ber::parse_framed(
        bytes,
        ber::CLASS_UNIVERSAL,
        true,
        ber::TAG_SEQUENCE,
    ) {
        Ok(p) => p,
        Err(e) => {
            return Err(e);
        },
    };
    let (i1, engine_id) = match ber::parse_octetstring(content) {
        Ok(p) => p,
        Err(e) => {
            return Err(e);
        },
    };
    let (i2, boots) = match ber::parse_ber_u32(i1) {
        Ok(p) => p,
        Err(e) => {
            return Err(e);
        },
    };
    let (i3, time) = match ber::parse_ber_u32(i2) {
        Ok(p) => p,
        Err(e) => {
            return Err(e);
        },
    };
    let (i4, user) = match ber::parse_octetstring_utf8(i3) {
        Ok(p) => p,
        Err(e) => {
            return Err(e);
        },
    };
    let (i5, auth) = match ber::parse_octetstring(i4) {
        Ok(p) => p,
        Err(e) => {
            return Err(e);
        },
    };
    match ber::parse_octetstring(i5) {
        Err(e) => Err(e),
        Ok((_, privacy)) => Ok(
            (
                rest,
                UsmSecurityParameters {
                    msg_authoritative_engine_id: engine_id,
                    msg_authoritative_engine_boots: boots,
                    msg_authoritative_engine_time: time,
                    msg_user_name: user,
                    msg_authentication_parameters: auth,
                    msg_privacy_parameters: privacy,
                },
            ),
        ),
    }
}

} // verus!
