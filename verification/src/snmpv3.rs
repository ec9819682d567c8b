//! SNMPv3 messages (RFC 3412): the global header data, the security
//! parameters (USM or raw), and the scoped PDU, plain or encrypted.
//!
//! The decoder is intentionally ignorant of cryptography: when the
//! privacy flag is set the encrypted scoped PDU is surfaced verbatim,
//! and the USM block's digest and salt are opaque bytes.

use vstd::prelude::*;
use vstd::string::StringExecFns;

verus! {

use crate::ber;
use crate::error::SnmpError;
use crate::snmp::{SnmpPdu, SpecSnmpPdu, spec_parse_pdu_v2c, parse_pdu_v2c};
use crate::usm::{
    UsmSecurityParameters,
    SpecUsmSecurityParameters,
    spec_parse_usm_security_parameters,
    parse_usm_security_parameters,
};

/// The security model number of an SNMPv3 message; 1 is SNMPv1, 2 is
/// SNMPv2c and 3 is the User-based Security Model.
#[derive(Clone, Copy, Debug, PartialEq, Eq, Structural)]
pub struct SecurityModel(pub u32);

impl DeepView for SecurityModel {
    type V = SecurityModel;

    open spec fn deep_view(&self) -> SecurityModel {
        *self
    }
}

/// The human-readable label of a security model; an unknown number
/// `n` is shown as `SecurityModel(n)`.
pub open spec fn spec_security_model_label(t: SecurityModel) -> Seq<char> {
    if t.0 == 1 {
        "SnmpV1"@
    } else if t.0 == 2 {
        "SnmpV2c"@
    } else if t.0 == 3 {
        "USM"@
    } else {
        "SecurityModel("@ + crate::decimal::spec_decimal(t.0 as nat) + ")"@
    }
}

impl SecurityModel {
    /// The human-readable label of this model; mirrors
    /// [`spec_security_model_label`].
    pub fn label(&self) -> (r: String)
        ensures
            r@ == spec_security_model_label(*self),
    {
        if self.0 == 1 {
            String::from_str("SnmpV1")
        } else if self.0 == 2 {
            String::from_str("SnmpV2c")
        } else if self.0 == 3 {
            String::from_str("USM")
        } else {
            crate::decimal::numbered_label("SecurityModel(", self.0)
        }
    }
}

/// The security parameters of an SNMPv3 message: decoded USM
/// parameters when the security model is 3, otherwise the raw inner
/// bytes verbatim.
#[derive(Debug, PartialEq)]
pub enum SecurityParameters<'a> {
    Raw(&'a [u8]),
    USM(UsmSecurityParameters<'a>),
}

/// The mathematical view of [`SecurityParameters`].
pub enum SpecSecurityParameters {
    Raw(Seq<u8>),
    USM(SpecUsmSecurityParameters),
}

impl<'a> DeepView for SecurityParameters<'a> {
    type V = SpecSecurityParameters;

    open spec fn deep_view(&self) -> SpecSecurityParameters {
        match *self {
            SecurityParameters::Raw(b) => SpecSecurityParameters::Raw(b@),
            SecurityParameters::USM(ref u) => SpecSecurityParameters::USM(u.deep_view()),
        }
    }
}

/// The global header data of an SNMPv3 message.
#[derive(Clone, Copy, Debug, PartialEq, Eq, Structural)]
pub struct HeaderData {
    pub msg_id: u32,
    pub msg_max_size: u32,
    /// One octet of flags: bit 0 is authentication, bit 1 privacy,
    /// bit 2 reportable.  Higher bits are preserved unvalidated.
    pub msg_flags: u8,
    pub msg_security_model: SecurityModel,
}

impl DeepView for HeaderData {
    type V = HeaderData;

    open spec fn deep_view(&self) -> HeaderData {
        *self
    }
}

impl HeaderData {
    /// Bit 0 of `msg_flags`: the message is authenticated.
    pub fn is_authenticated(&self) -> (r: bool)
        ensures
            r == (self.msg_flags & 0b001 != 0),
    {
        self.msg_flags & 0b001 != 0
    }

    /// Bit 1 of `msg_flags`: the scoped PDU is encrypted.
    pub fn is_encrypted(&self) -> (r: bool)
        ensures
            r == (self.msg_flags & 0b010 != 0),
    {
        self.msg_flags & 0b010 != 0
    }

    /// Bit 2 of `msg_flags`: a report is requested on failure.
    pub fn is_reportable(&self) -> (r: bool)
        ensures
            r == (self.msg_flags & 0b100 != 0),
    {
        self.msg_flags & 0b100 != 0
    }
}

/// The scoped PDU of an SNMPv3 message, decoded when it is plaintext
/// and surfaced verbatim when the privacy flag says it is encrypted.
#[derive(Debug, PartialEq)]
pub enum ScopedPduData<'a> {
    Plaintext(ScopedPdu<'a>),
    Encrypted(&'a [u8]),
}

/// The mathematical view of [`ScopedPduData`].
pub enum SpecScopedPduData {
    Plaintext(SpecScopedPdu),
    Encrypted(Seq<u8>),
}

impl<'a> DeepView for ScopedPduData<'a> {
    type V = SpecScopedPduData;

    open spec fn deep_view(&self) -> SpecScopedPduData {
        match *self {
            ScopedPduData::Plaintext(ref p) => SpecScopedPduData::Plaintext(p.deep_view()),
            ScopedPduData::Encrypted(b) => SpecScopedPduData::Encrypted(b@),
        }
    }
}

/// A plaintext scoped PDU: context engine id and name, and the inner
/// PDU, which uses the v2c tag set.
#[derive(Debug, PartialEq)]
pub struct ScopedPdu<'a> {
    pub ctx_engine_id: &'a [u8],
    pub ctx_engine_name: &'a [u8],
    pub data: SnmpPdu<'a>,
}

/// The mathematical view of [`ScopedPdu`].
pub struct SpecScopedPdu {
    pub ctx_engine_id: Seq<u8>,
    pub ctx_engine_name: Seq<u8>,
    pub data: SpecSnmpPdu,
}

impl<'a> DeepView for ScopedPdu<'a> {
    type V = SpecScopedPdu;

    open spec fn deep_view(&self) -> SpecScopedPdu {
        SpecScopedPdu {
            ctx_engine_id: self.ctx_engine_id@,
            ctx_engine_name: self.ctx_engine_name@,
            data: self.data.deep_view(),
        }
    }
}

/// An SNMPv3 message.
#[derive(Debug, PartialEq)]
pub struct SnmpV3Message<'a> {
    /// Version, as raw-encoded: 3 for SNMPv3.
    pub version: u32,
    pub header_data: HeaderData,
    pub security_params: SecurityParameters<'a>,
    pub data: ScopedPduData<'a>,
}

/// The mathematical view of [`SnmpV3Message`].
pub struct SpecSnmpV3Message {
    pub version: u32,
    pub header_data: HeaderData,
    pub security_params: SpecSecurityParameters,
    pub data: SpecScopedPduData,
}

impl<'a> DeepView for SnmpV3Message<'a> {
    type V = SpecSnmpV3Message;

    open spec fn deep_view(&self) -> SpecSnmpV3Message {
        SpecSnmpV3Message {
            version: self.version,
            header_data: self.header_data,
            security_params: self.security_params.deep_view(),
            data: self.data.deep_view(),
        }
    }
}

/// The v3 header data: `SEQUENCE { msgID, msgMaxSize, msgFlags,
/// msgSecurityModel }` where msgFlags must be an OCTET STRING of
/// exactly one octet.  Any malformation fails with
/// `InvalidHeaderData`.
pub open spec fn spec_parse_headerdata(s: Seq<u8>) -> Result<(Seq<u8>, HeaderData), SnmpError> {
    match ber::spec_parse_framed(s, ber::CLASS_UNIVERSAL, true, ber::TAG_SEQUENCE) {
        Err(_) => Err(SnmpError::InvalidHeaderData),
        Ok((content, rest)) => match ber::spec_parse_ber_u32(content) {
            Err(_) => Err(SnmpError::InvalidHeaderData),
            Ok((i1, msg_id)) => match ber::spec_parse_ber_u32(i1) {
                Err(_) => Err(SnmpError::InvalidHeaderData),
                Ok((i2, msg_max_size)) => match ber::spec_parse_octetstring(i2) {
                    Err(_) => Err(SnmpError::InvalidHeaderData),
                    Ok((i3, flags)) => {
                        if flags.len() != 1 {
                            Err(SnmpError::InvalidHeaderData)
                        } else {
                            match ber::spec_parse_ber_u32(i3) {
                                Err(_) => Err(SnmpError::InvalidHeaderData),
                                Ok((_, model)) => Ok(
                                    (
                                        rest,
                                        HeaderData {
                                            msg_id,
                                            msg_max_size,
                                            msg_flags: flags[0],
                                            msg_security_model: SecurityModel(model),
                                        },
                                    ),
                                ),
                            }
                        }
                    },
                },
            },
        },
    }
}

/// Reads the v3 header data; mirrors [`spec_parse_headerdata`].
pub(crate) fn parse_headerdata<'a>(s: &'a [u8]) -> (r: Result<(&'a [u8], HeaderData), SnmpError>)
    ensures
        ber::parsed(r) == spec_parse_headerdata(s@),
{
    let (content, rest) = match ber::parse_framed(
        s,
        ber::CLASS_UNIVERSAL,
        true,
        ber::TAG_SEQUENCE,
    ) {
        Ok(p) => p,
        Err(_) => {
            return Err(SnmpError::InvalidHeaderData);
        },
    };
    let (i1, msg_id) = match ber::parse_ber_u32(content) {
        Ok(p) => p,
        Err(_) => {
            return Err(SnmpError::InvalidHeaderData);
        },
    };
    let (i2, msg_max_size) = match ber::parse_ber_u32(i1) {
        Ok(p) => p,
        Err(_) => {
            return Err(SnmpError::InvalidHeaderData);
        },
    };
    let (i3, flags) = match ber::parse_octetstring(i2) {
        Ok(p) => p,
        Err(_) => {
            return Err(SnmpError::InvalidHeaderData);
        },
    };
    if flags.len() != 1 {
        return Err(SnmpError::InvalidHeaderData);
    }
    let msg_flags = flags[0];
    match ber::parse_ber_u32(i3) {
        Err(_) => Err(SnmpError::InvalidHeaderData),
        Ok((_, model)) => Ok(
            (
                rest,
                HeaderData {
                    msg_id,
                    msg_max_size,
                    msg_flags,
                    msg_security_model: SecurityModel(model),
                },
            ),
        ),
    }
}

/// The security parameters read from the inner bytes of the
/// msgSecurityParameters OCTET STRING: under the USM model (3) the
/// bytes must parse as USM parameters, failing with
/// `InvalidSecurityModel`; under any other model they are returned
/// verbatim.
pub open spec fn spec_parse_secp(s: Seq<u8>, model: SecurityModel) -> Result<
    SpecSecurityParameters,
    SnmpError,
> {
    if model == SecurityModel(3) {
        match spec_parse_usm_security_parameters(s) {
            Err(_) => Err(SnmpError::InvalidSecurityModel),
            Ok((_, usm)) => Ok(SpecSecurityParameters::USM(usm)),
        }
    } else {
        Ok(SpecSecurityParameters::Raw(s))
    }
}

/// Reads the security parameters; mirrors [`spec_parse_secp`].
pub(crate) fn parse_secp<'a>(s: &'a [u8], model: SecurityModel) -> (r: Result<
    SecurityParameters<'a>,
    SnmpError,
>)
    ensures
        match r {
            Ok(p) => spec_parse_secp(s@, model) == Ok::<SpecSecurityParameters, SnmpError>(
                p.deep_view(),
            ),
            Err(e) => spec_parse_secp(s@, model) == Err::<SpecSecurityParameters, SnmpError>(e),
        },
{
    if model.0 == 3 {
        proof {
            assert(model == SecurityModel(3));
        }
        match parse_usm_security_parameters(s) {
            Err(_) => Err(SnmpError::InvalidSecurityModel),
            Ok((_, usm)) => Ok(SecurityParameters::USM(usm)),
        }
    } else {
        proof {
            assert(model != SecurityModel(3));
        }
        Ok(SecurityParameters::Raw(s))
    }
}

/// A plaintext scoped PDU: `SEQUENCE { contextEngineID,
/// contextEngineName, pdu }`.  A malformed SEQUENCE or context string
/// fails with `InvalidScopedPduData`; the inner PDU's own errors pass
/// through unchanged.
pub open spec fn spec_parse_plaintext_pdu(s: Seq<u8>) -> Result<
    (Seq<u8>, SpecScopedPduData),
    SnmpError,
> {
    match ber::spec_parse_framed(s, ber::CLASS_UNIVERSAL, true, ber::TAG_SEQUENCE) {
        Err(_) => Err(SnmpError::InvalidScopedPduData),
        Ok((content, rest)) => match ber::spec_parse_octetstring(content) {
            Err(_) => Err(SnmpError::InvalidScopedPduData),
            Ok((i1, ctx_engine_id)) => match ber::spec_parse_octetstring(i1) {
                Err(_) => Err(SnmpError::InvalidScopedPduData),
                Ok((i2, ctx_engine_name)) => match spec_parse_pdu_v2c(i2) {
                    Err(e) => Err(e),
                    Ok((_, data)) => Ok(
                        (
                            rest,
                            SpecScopedPduData::Plaintext(
                                SpecScopedPdu { ctx_engine_id, ctx_engine_name, data },
                            ),
                        ),
                    ),
                },
            },
        },
    }
}

/// Reads a plaintext scoped PDU; mirrors
/// [`spec_parse_plaintext_pdu`].
fn parse_plaintext_pdu<'a>(s: &'a [u8]) -> (r: Result<(&'a [u8], ScopedPduData<'a>), SnmpError>)
    ensures
        ber::parsed(r) == spec_parse_plaintext_pdu(s@),
{
    let (content, rest) = match ber::parse_framed(
        s,
        ber::CLASS_UNIVERSAL,
        true,
        ber::TAG_SEQUENCE,
    ) {
        Ok(p) => p,
        Err(_) => {
            return Err(SnmpError::InvalidScopedPduData);
        },
    };
    let (i1, ctx_engine_id) = match ber::parse_octetstring(content) {
        Ok(p) => p,
        Err(_) => {
            return Err(SnmpError::InvalidScopedPduData);
        },
    };
    let (i2, ctx_engine_name) = match ber::parse_octetstring(i1) {
        Ok(p) => p,
        Err(_) => {
            return Err(SnmpError::InvalidScopedPduData);
        },
    };
    match parse_pdu_v2c(i2) {
        Err(e) => Err(e),
        Ok((_, data)) => Ok(
            (
                rest,
                ScopedPduData::Plaintext(ScopedPdu { ctx_engine_id, ctx_engine_name, data }),
            ),
        ),
    }
}

/// The scoped PDU data: when the privacy bit of the header's flags is
/// set, one OCTET STRING whose entire content is the encrypted scoped
/// PDU, surfaced verbatim with no further decoding; otherwise a
/// plaintext scoped PDU.
pub open spec fn spec_parse_scoped_pdu_data(s: Seq<u8>, hdr: HeaderData) -> Result<
    (Seq<u8>, SpecScopedPduData),
    SnmpError,
> {
    if hdr.msg_flags & 0b010 != 0 {
        match ber::spec_parse_octetstring(s) {
            Err(e) => Err(SnmpError::BerError(e)),
            Ok((rest, data)) => Ok((rest, SpecScopedPduData::Encrypted(data))),
        }
    } else {
        spec_parse_plaintext_pdu(s)
    }
}

/// Reads the scoped PDU data; mirrors
/// [`spec_parse_scoped_pdu_data`].
pub(crate) fn parse_scoped_pdu_data<'a>(s: &'a [u8], hdr: &HeaderData) -> (r: Result<
    (&'a [u8], ScopedPduData<'a>),
    SnmpError,
>)
    ensures
        ber::parsed(r) == spec_parse_scoped_pdu_data(s@, *hdr),
{
    if hdr.is_encrypted() {
        match ber::parse_octetstring(s) {
            Err(e) => Err(SnmpError::BerError(e)),
            Ok((rest, data)) => Ok((rest, ScopedPduData::Encrypted(data))),
        }
    } else {
        parse_plaintext_pdu(s)
    }
}

/// The body of a v3 message after its version field: header data,
/// the security-parameters OCTET STRING (whose inner bytes are decoded
/// per the security model), and the scoped PDU data; `version` is
/// recorded in the result.
pub open spec fn spec_parse_v3_body(s: Seq<u8>, version: u32) -> Result<
    SpecSnmpV3Message,
    SnmpError,
> {
    match spec_parse_headerdata(s) {
        Err(e) => Err(e),
        Ok((i1, header_data)) => match ber::spec_parse_octetstring(i1) {
            Err(e) => Err(SnmpError::BerError(e)),
            Ok((i2, secp_bytes)) => match spec_parse_secp(
                secp_bytes,
                header_data.msg_security_model,
            ) {
                Err(e) => Err(e),
                Ok(security_params) => match spec_parse_scoped_pdu_data(i2, header_data) {
                    Err(e) => Err(e),
                    Ok((_, data)) => Ok(
                        SpecSnmpV3Message { version, header_data, security_params, data },
                    ),
                },
            },
        },
    }
}

/// Reads the body of a v3 message; mirrors [`spec_parse_v3_body`].
pub(crate) fn parse_v3_body<'a>(s: &'a [u8], version: u32) -> (r: Result<
    SnmpV3Message<'a>,
    SnmpError,
>)
    ensures
        match r {
            Ok(m) => spec_parse_v3_body(s@, version) == Ok::<SpecSnmpV3Message, SnmpError>(
                m.deep_view(),
            ),
            Err(e) => spec_parse_v3_body(s@, version) == Err::<SpecSnmpV3Message, SnmpError>(e),
        },
{
    let (i1, header_data) = match parse_headerdata(s) {
        Ok(p) => p,
        Err(e) => {
            return Err(e);
        },
    };
    let (i2, secp_bytes) = match ber::parse_octetstring(i1) {
        Ok(p) => p,
        Err(e) => {
            return Err(SnmpError::BerError(e));
        },
    };
    let security_params = match parse_secp(secp_bytes, header_data.msg_security_model) {
        Ok(p) => p,
        Err(e) => {
            return Err(e);
        },
    };
    match parse_scoped_pdu_data(i2, &header_data) {
        Err(e) => Err(e),
        Ok((_, data)) => Ok(SnmpV3Message { version, header_data, security_params, data }),
    }
}

/// An SNMPv3 message: `SEQUENCE { version 3, headerData,
/// securityParameters, scopedPduData }`.
///
/// A malformed outer SEQUENCE fails with `InvalidMessage`; a version
/// that does not decode fails with `InvalidVersion`, as does any
/// version other than 3.  Trailing bytes after the outer SEQUENCE are
/// returned; trailing bytes inside it are ignored.
pub open spec fn spec_parse_snmp_v3(s: Seq<u8>) -> Result<(Seq<u8>, SpecSnmpV3Message), SnmpError> {
    match ber::spec_parse_framed(s, ber::CLASS_UNIVERSAL, true, ber::TAG_SEQUENCE) {
        Err(_) => Err(SnmpError::InvalidMessage),
        Ok((content, rest)) => match ber::spec_parse_ber_u32(content) {
            Err(_) => Err(SnmpError::InvalidVersion),
            Ok((i1, version)) => {
                if version != 3 {
                    Err(SnmpError::InvalidVersion)
                } else {
                    match spec_parse_v3_body(i1, version) {
                        Err(e) => Err(e),
                        Ok(msg) => Ok((rest, msg)),
                    }
                }
            },
        },
    }
}

/// Parses an SNMPv3 message from `bytes`; the result equals
/// [`spec_parse_snmp_v3`] applied to the input, so the parse is total,
/// deterministic, and accepts only version 3.
pub fn parse_snmp_v3<'a>(bytes: &'a [u8]) -> (r: Result<
    (&'a [u8], SnmpV3Message<'a>),
    SnmpError,
>)
    ensures
        ber::parsed(r) == spec_parse_snmp_v3(bytes@),
{
    let (content, rest) = match ber::parse_framed(
        bytes,
        ber::CLASS_UNIVERSAL,
        true,
        ber::TAG_SEQUENCE,
    ) {
        Ok(p) => p,
        Err(_) => {
            return Err(SnmpError::InvalidMessage);
        },
    };
    let (i1, version) = match ber::parse_ber_u32(content) {
        Ok(p) => p,
        Err(_) => {
            return Err(SnmpError::InvalidVersion);
        },
    };
    if version != 3 {
        return Err(SnmpError::InvalidVersion);
    }
    match parse_v3_body(i1, version) {
        Err(e) => Err(e),
        Ok(msg) => Ok((rest, msg)),
    }
}

} // verus!
