//! SNMP v1 and v2c messages: the data model, the object-syntax and
//! variable-binding decoders, the PDU decoders, and the two versioned
//! entry points.
//!
//! SNMP is defined by RFC 1157 (v1), RFC 3416 (v2) and RFC 2578
//! (SMIv2).  A PDU is an IMPLICIT context-specific tag over a SEQUENCE
//! body; the tag number selects the shape, and each message version
//! allows its own set of tags.

use vstd::prelude::*;
use vstd::string::StringExecFns;
use vstd::slice::slice_subrange;

verus! {

use crate::ber;
use crate::ber::{Any, SpecAny};
use crate::error::{BerErrorKind, SnmpError};

/// The tag number that frames a PDU and selects its shape.
#[derive(Clone, Copy, Debug, PartialEq, Eq, Structural)]
pub struct PduType(pub u32);

impl DeepView for PduType {
    type V = PduType;

    open spec fn deep_view(&self) -> PduType {
        *self
    }
}

/// The human-readable label of a PDU tag; an unknown number `n` is
/// shown as `PduType(n)`.
pub open spec fn spec_pdu_type_label(t: PduType) -> Seq<char> {
    if t.0 == 0 {
        "GetRequest"@
    } else if t.0 == 1 {
        "GetNextRequest"@
    } else if t.0 == 2 {
        "Response"@
    } else if t.0 == 3 {
        "SetRequest"@
    } else if t.0 == 4 {
        "TrapV1"@
    } else if t.0 == 5 {
        "GetBulkRequest"@
    } else if t.0 == 6 {
        "InformRequest"@
    } else if t.0 == 7 {
        "TrapV2"@
    } else if t.0 == 8 {
        "Report"@
    } else {
        "PduType("@ + crate::decimal::spec_decimal(t.0 as nat) + ")"@
    }
}

impl PduType {
    /// The human-readable label of this tag; mirrors
    /// [`spec_pdu_type_label`].
    pub fn label(&self) -> (r: String)
        ensures
            r@ == spec_pdu_type_label(*self),
    {
        if self.0 == 0 {
            String::from_str("GetRequest")
        } else if self.0 == 1 {
            String::from_str("GetNextRequest")
        } else if self.0 == 2 {
            String::from_str("Response")
        } else if self.0 == 3 {
            String::from_str("SetRequest")
        } else if self.0 == 4 {
            String::from_str("TrapV1")
        } else if self.0 == 5 {
            String::from_str("GetBulkRequest")
        } else if self.0 == 6 {
            String::from_str("InformRequest")
        } else if self.0 == 7 {
            String::from_str("TrapV2")
        } else if self.0 == 8 {
            String::from_str("Report")
        } else {
            crate::decimal::numbered_label("PduType(", self.0)
        }
    }
}

/// The generic-trap number of an SNMPv1 trap.
#[derive(Clone, Copy, Debug, PartialEq, Eq, Structural)]
pub struct TrapType(pub u8);

impl DeepView for TrapType {
    type V = TrapType;

    open spec fn deep_view(&self) -> TrapType {
        *self
    }
}

/// The human-readable label of a generic-trap number; an unknown
/// number `n` is shown as `TrapType(n)`.
pub open spec fn spec_trap_type_label(t: TrapType) -> Seq<char> {
    if t.0 == 0 {
        "coldStart"@
    } else if t.0 == 1 {
        "warmStart"@
    } else if t.0 == 2 {
        "linkDown"@
    } else if t.0 == 3 {
        "linkUp"@
    } else if t.0 == 4 {
        "authenticationFailure"@
    } else if t.0 == 5 {
        "egpNeighborLoss"@
    } else if t.0 == 6 {
        "enterpriseSpecific"@
    } else {
        "TrapType("@ + crate::decimal::spec_decimal(t.0 as nat) + ")"@
    }
}

impl TrapType {
    /// The human-readable label of this trap number; mirrors
    /// [`spec_trap_type_label`].
    pub fn label(&self) -> (r: String)
        ensures
            r@ == spec_trap_type_label(*self),
    {
        if self.0 == 0 {
            String::from_str("coldStart")
        } else if self.0 == 1 {
            String::from_str("warmStart")
        } else if self.0 == 2 {
            String::from_str("linkDown")
        } else if self.0 == 3 {
            String::from_str("linkUp")
        } else if self.0 == 4 {
            String::from_str("authenticationFailure")
        } else if self.0 == 5 {
            String::from_str("egpNeighborLoss")
        } else if self.0 == 6 {
            String::from_str("enterpriseSpecific")
        } else {
            crate::decimal::numbered_label("TrapType(", self.0 as u32)
        }
    }
}

/// The error-status number of a request or response PDU.
#[derive(Clone, Copy, Debug, PartialEq, Eq, Structural)]
pub struct ErrorStatus(pub u32);

impl DeepView for ErrorStatus {
    type V = ErrorStatus;

    open spec fn deep_view(&self) -> ErrorStatus {
        *self
    }
}

/// The human-readable label of an error status; an unknown number `n`
/// is shown as `ErrorStatus(n)`.
pub open spec fn spec_error_status_label(t: ErrorStatus) -> Seq<char> {
    if t.0 == 0 {
        "NoError"@
    } else if t.0 == 1 {
        "TooBig"@
    } else if t.0 == 2 {
        "NoSuchName"@
    } else if t.0 == 3 {
        "BadValue"@
    } else if t.0 == 4 {
        "ReadOnly"@
    } else if t.0 == 5 {
        "GenErr"@
    } else {
        "ErrorStatus("@ + crate::decimal::spec_decimal(t.0 as nat) + ")"@
    }
}

impl ErrorStatus {
    /// The human-readable label of this status; mirrors
    /// [`spec_error_status_label`].
    pub fn label(&self) -> (r: String)
        ensures
            r@ == spec_error_status_label(*self),
    {
        if self.0 == 0 {
            String::from_str("NoError")
        } else if self.0 == 1 {
            String::from_str("TooBig")
        } else if self.0 == 2 {
            String::from_str("NoSuchName")
        } else if self.0 == 3 {
            String::from_str("BadValue")
        } else if self.0 == 4 {
            String::from_str("ReadOnly")
        } else if self.0 == 5 {
            String::from_str("GenErr")
        } else {
            crate::decimal::numbered_label("ErrorStatus(", self.0)
        }
    }
}

/// An address from one of possibly several protocol families; only the
/// Internet family is present, as four octets in network byte order.
#[derive(Clone, Copy, Debug, PartialEq, Eq, Structural)]
pub enum NetworkAddress {
    /// An IPv4 address, most significant octet first.
    IPv4(u8, u8, u8, u8),
}

impl DeepView for NetworkAddress {
    type V = NetworkAddress;

    open spec fn deep_view(&self) -> NetworkAddress {
        *self
    }
}

/// This application-wide type represents a non-negative integer which
/// monotonically increases until it wraps at 2^32 - 1.
pub type Counter = u32;

/// This application-wide type represents a non-negative integer which
/// may increase or decrease, but latches at 2^32 - 1.
pub type Gauge = u32;

/// This application-wide type counts time in hundredths of a second
/// since some epoch.
pub type TimeTicks = u32;

/// An OBJECT IDENTIFIER, kept as its encoded content octets, borrowed
/// from the input.
#[derive(Clone, Copy, Debug, PartialEq, Eq)]
pub struct Oid<'a> {
    /// The BER content octets of the OID (base-128 sub-identifiers,
    /// the first two packed into one).
    pub content: &'a [u8],
}

impl<'a> DeepView for Oid<'a> {
    type V = Seq<u8>;

    open spec fn deep_view(&self) -> Seq<u8> {
        self.content@
    }
}

/// A BIT STRING: the count of unused trailing bits, and the bit bytes.
#[derive(Clone, Copy, Debug, PartialEq, Eq)]
pub struct BitString<'a> {
    /// How many low bits of the last byte are not part of the value.
    pub unused_bits: u8,
    /// The bit bytes, borrowed from the input.
    pub data: &'a [u8],
}

/// The mathematical view of [`BitString`].
pub struct SpecBitString {
    pub unused_bits: u8,
    pub data: Seq<u8>,
}

impl<'a> DeepView for BitString<'a> {
    type V = SpecBitString;

    open spec fn deep_view(&self) -> SpecBitString {
        SpecBitString { unused_bits: self.unused_bits, data: self.data@ }
    }
}

/// The value of one variable binding, as the SMI ObjectSyntax CHOICE:
/// universal tags give the simple syntaxes, application tags 0 to 7
/// give the application-wide types, and unknown but well-formed
/// elements are preserved verbatim.
#[derive(Clone, Copy, Debug, PartialEq, Eq)]
pub enum ObjectSyntax<'a> {
    /// A universal INTEGER.
    Number(i32),
    /// A universal OCTET STRING, borrowed from the input.
    String(&'a [u8]),
    /// A universal OBJECT IDENTIFIER.
    Object(Oid<'a>),
    /// A universal BIT STRING.
    BitString(BitString<'a>),
    /// A universal NULL, or a zero-length payload of an unknown
    /// universal tag.
    Empty,
    /// An unknown universal element with nonempty content, verbatim.
    UnknownSimple(Any<'a>),
    /// Application tag 0: an IPv4 address.
    IpAddress(NetworkAddress),
    /// Application tag 1: a wrapping counter.
    Counter32(Counter),
    /// Application tag 2: a latching gauge.
    Gauge32(Gauge),
    /// Application tag 3: hundredths of a second since an epoch.
    TimeTicks(TimeTicks),
    /// Application tag 4: an opaque blob, borrowed from the input.
    Opaque(&'a [u8]),
    /// Application tag 5: an NSAP address, borrowed from the input.
    NsapAddress(&'a [u8]),
    /// Application tag 6: a 64-bit counter.
    Counter64(u64),
    /// Application tag 7: an unsigned 32-bit integer.
    UInteger32(u32),
    /// An application element with a tag above 7, verbatim.
    UnknownApplication(Any<'a>),
}

/// The mathematical view of [`ObjectSyntax`].
pub enum SpecObjectSyntax {
    Number(i32),
    String(Seq<u8>),
    Object(Seq<u8>),
    BitString(SpecBitString),
    Empty,
    UnknownSimple(SpecAny),
    IpAddress(NetworkAddress),
    Counter32(u32),
    Gauge32(u32),
    TimeTicks(u32),
    Opaque(Seq<u8>),
    NsapAddress(Seq<u8>),
    Counter64(u64),
    UInteger32(u32),
    UnknownApplication(SpecAny),
}

impl<'a> DeepView for ObjectSyntax<'a> {
    type V = SpecObjectSyntax;

    open spec fn deep_view(&self) -> SpecObjectSyntax {
        match *self {
            ObjectSyntax::Number(n) => SpecObjectSyntax::Number(n),
            ObjectSyntax::String(b) => SpecObjectSyntax::String(b@),
            ObjectSyntax::Object(o) => SpecObjectSyntax::Object(o.deep_view()),
            ObjectSyntax::BitString(b) => SpecObjectSyntax::BitString(b.deep_view()),
            ObjectSyntax::Empty => SpecObjectSyntax::Empty,
            ObjectSyntax::UnknownSimple(a) => SpecObjectSyntax::UnknownSimple(a.deep_view()),
            ObjectSyntax::IpAddress(n) => SpecObjectSyntax::IpAddress(n),
            ObjectSyntax::Counter32(n) => SpecObjectSyntax::Counter32(n),
            ObjectSyntax::Gauge32(n) => SpecObjectSyntax::Gauge32(n),
            ObjectSyntax::TimeTicks(n) => SpecObjectSyntax::TimeTicks(n),
            ObjectSyntax::Opaque(b) => SpecObjectSyntax::Opaque(b@),
            ObjectSyntax::NsapAddress(b) => SpecObjectSyntax::NsapAddress(b@),
            ObjectSyntax::Counter64(n) => SpecObjectSyntax::Counter64(n),
            ObjectSyntax::UInteger32(n) => SpecObjectSyntax::UInteger32(n),
            ObjectSyntax::UnknownApplication(a) => SpecObjectSyntax::UnknownApplication(
                a.deep_view(),
            ),
        }
    }
}

/// The ObjectSyntax CHOICE read from one element taken verbatim.
///
/// Application tags are the SMI application-wide types; tag 0 must
/// hold exactly four octets.  Universal (and private) tags are the
/// simple syntaxes; NULL gives `Empty`, and a zero-length payload of
/// an unknown tag is also accepted as `Empty`, since some agents elide
/// the NULL.  Integer overflow and a bad IPv4 length fail.
pub open spec fn spec_object_syntax(a: SpecAny) -> Result<SpecObjectSyntax, SnmpError> {
    if a.class == ber::CLASS_APPLICATION {
        if a.tag == 0 {
            if a.data.len() == 4 {
                Ok(
                    SpecObjectSyntax::IpAddress(
                        NetworkAddress::IPv4(a.data[0], a.data[1], a.data[2], a.data[3]),
                    ),
                )
            } else {
                Err(SnmpError::InvalidPdu)
            }
        } else if a.tag == 1 || a.tag == 2 || a.tag == 3 {
            match ber::spec_u32_from_content(a.data) {
                Err(e) => Err(SnmpError::BerError(e)),
                Ok(x) => Ok(
                    if a.tag == 1 {
                        SpecObjectSyntax::Counter32(x)
                    } else if a.tag == 2 {
                        SpecObjectSyntax::Gauge32(x)
                    } else {
                        SpecObjectSyntax::TimeTicks(x)
                    },
                ),
            }
        } else if a.tag == 4 {
            Ok(SpecObjectSyntax::Opaque(a.data))
        } else if a.tag == 5 {
            Ok(SpecObjectSyntax::NsapAddress(a.data))
        } else if a.tag == 6 {
            match ber::spec_u64_from_content(a.data) {
                Err(e) => Err(SnmpError::BerError(e)),
                Ok(x) => Ok(SpecObjectSyntax::Counter64(x)),
            }
        } else if a.tag == 7 {
            match ber::spec_u32_from_content(a.data) {
                Err(e) => Err(SnmpError::BerError(e)),
                Ok(x) => Ok(SpecObjectSyntax::UInteger32(x)),
            }
        } else {
            Ok(SpecObjectSyntax::UnknownApplication(a))
        }
    } else {
        if a.tag == ber::TAG_INTEGER {
            match ber::spec_i32_from_content(a.data) {
                Err(e) => Err(SnmpError::BerError(e)),
                Ok(x) => Ok(SpecObjectSyntax::Number(x)),
            }
        } else if a.tag == ber::TAG_OCTETSTRING {
            Ok(SpecObjectSyntax::String(a.data))
        } else if a.tag == ber::TAG_OID {
            Ok(SpecObjectSyntax::Object(a.data))
        } else if a.tag == ber::TAG_NULL {
            Ok(SpecObjectSyntax::Empty)
        } else if a.tag == ber::TAG_BITSTRING {
            if a.data.len() == 0 {
                Err(SnmpError::BerError(BerErrorKind::InvalidBitString))
            } else {
                Ok(
                    SpecObjectSyntax::BitString(
                        SpecBitString {
                            unused_bits: a.data[0],
                            data: a.data.skip(1),
                        },
                    ),
                )
            }
        } else {
            if a.data.len() == 0 {
                Ok(SpecObjectSyntax::Empty)
            } else {
                Ok(SpecObjectSyntax::UnknownSimple(a))
            }
        }
    }
}

/// Decodes one verbatim element as ObjectSyntax; mirrors
/// [`spec_object_syntax`].
fn object_syntax_from_any<'a>(a: Any<'a>) -> (r: Result<ObjectSyntax<'a>, SnmpError>)
    ensures
        match r {
            Ok(v) => spec_object_syntax(a.deep_view()) == Ok::<SpecObjectSyntax, SnmpError>(
                v.deep_view(),
            ),
            Err(e) => spec_object_syntax(a.deep_view()) == Err::<SpecObjectSyntax, SnmpError>(e),
        },
{
    if a.class == ber::CLASS_APPLICATION {
        if a.tag == 0 {
            if a.data.len() == 4 {
                Ok(
                    ObjectSyntax::IpAddress(
                        NetworkAddress::IPv4(a.data[0], a.data[1], a.data[2], a.data[3]),
                    ),
                )
            } else {
                Err(SnmpError::InvalidPdu)
            }
        } else if a.tag == 1 || a.tag == 2 || a.tag == 3 {
            match ber::u32_from_content(a.data) {
                Err(e) => Err(SnmpError::BerError(e)),
                Ok(x) => Ok(
                    if a.tag == 1 {
                        ObjectSyntax::Counter32(x)
                    } else if a.tag == 2 {
                        ObjectSyntax::Gauge32(x)
                    } else {
                        ObjectSyntax::TimeTicks(x)
                    },
                ),
            }
        } else if a.tag == 4 {
            Ok(ObjectSyntax::Opaque(a.data))
        } else if a.tag == 5 {
            Ok(ObjectSyntax::NsapAddress(a.data))
        } else if a.tag == 6 {
            match ber::u64_from_content(a.data) {
                Err(e) => Err(SnmpError::BerError(e)),
                Ok(x) => Ok(ObjectSyntax::Counter64(x)),
            }
        } else if a.tag == 7 {
            match ber::u32_from_content(a.data) {
                Err(e) => Err(SnmpError::BerError(e)),
                Ok(x) => Ok(ObjectSyntax::UInteger32(x)),
            }
        } else {
            Ok(ObjectSyntax::UnknownApplication(a))
        }
    } else {
        if a.tag == ber::TAG_INTEGER {
            match ber::i32_from_content(a.data) {
                Err(e) => Err(SnmpError::BerError(e)),
                Ok(x) => Ok(ObjectSyntax::Number(x)),
            }
        } else if a.tag == ber::TAG_OCTETSTRING {
            Ok(ObjectSyntax::String(a.data))
        } else if a.tag == ber::TAG_OID {
            Ok(ObjectSyntax::Object(Oid { content: a.data }))
        } else if a.tag == ber::TAG_NULL {
            Ok(ObjectSyntax::Empty)
        } else if a.tag == ber::TAG_BITSTRING {
            if a.data.len() == 0 {
                Err(SnmpError::BerError(BerErrorKind::InvalidBitString))
            } else {
                Ok(
                    ObjectSyntax::BitString(
                        BitString {
                            unused_bits: a.data[0],
                            data: slice_subrange(a.data, 1, a.data.len()),
                        },
                    ),
                )
            }
        } else {
            if a.data.len() == 0 {
                Ok(ObjectSyntax::Empty)
            } else {
                Ok(ObjectSyntax::UnknownSimple(a))
            }
        }
    }
}

/// One variable binding: an object name and its value.
#[derive(Clone, Copy, Debug, PartialEq, Eq)]
pub struct SnmpVariable<'a> {
    pub oid: Oid<'a>,
    pub val: VarBindValue<'a>,
}

/// The mathematical view of [`SnmpVariable`].
pub struct SpecSnmpVariable {
    pub oid: Seq<u8>,
    pub val: SpecVarBindValue,
}

impl<'a> DeepView for SnmpVariable<'a> {
    type V = SpecSnmpVariable;

    open spec fn deep_view(&self) -> SpecSnmpVariable {
        SpecSnmpVariable { oid: self.oid.deep_view(), val: self.val.deep_view() }
    }
}

/// The CHOICE in a VarBind: a value, the unspecified placeholder, or
/// one of the three exception markers of retrieval responses.
#[derive(Clone, Copy, Debug, PartialEq, Eq)]
pub enum VarBindValue<'a> {
    /// An ObjectSyntax value.
    Value(ObjectSyntax<'a>),
    /// A universal NULL: no value is carried (retrieval requests).
    Unspecified,
    /// Context tag 0: the object does not exist.
    NoSuchObject,
    /// Context tag 1: the instance does not exist.
    NoSuchInstance,
    /// Context tag 2: the walk went past the end of the MIB view.
    EndOfMibView,
}

/// The mathematical view of [`VarBindValue`].
pub enum SpecVarBindValue {
    Value(SpecObjectSyntax),
    Unspecified,
    NoSuchObject,
    NoSuchInstance,
    EndOfMibView,
}

impl<'a> DeepView for VarBindValue<'a> {
    type V = SpecVarBindValue;

    open spec fn deep_view(&self) -> SpecVarBindValue {
        match *self {
            VarBindValue::Value(v) => SpecVarBindValue::Value(v.deep_view()),
            VarBindValue::Unspecified => SpecVarBindValue::Unspecified,
            VarBindValue::NoSuchObject => SpecVarBindValue::NoSuchObject,
            VarBindValue::NoSuchInstance => SpecVarBindValue::NoSuchInstance,
            VarBindValue::EndOfMibView => SpecVarBindValue::EndOfMibView,
        }
    }
}

/// The CHOICE in a VarBind, read from the second element of the
/// binding: context tags 0, 1 and 2 are the exception markers and any
/// other context tag fails; a universal NULL is the unspecified
/// placeholder; anything else is an ObjectSyntax value.
pub open spec fn spec_varbind_value(a: SpecAny) -> Result<SpecVarBindValue, SnmpError> {
    if a.class == ber::CLASS_CONTEXT {
        if a.tag == 0 {
            Ok(SpecVarBindValue::NoSuchObject)
        } else if a.tag == 1 {
            Ok(SpecVarBindValue::NoSuchInstance)
        } else if a.tag == 2 {
            Ok(SpecVarBindValue::EndOfMibView)
        } else {
            Err(SnmpError::InvalidPdu)
        }
    } else if a.class == ber::CLASS_UNIVERSAL && a.tag == ber::TAG_NULL {
        Ok(SpecVarBindValue::Unspecified)
    } else {
        match spec_object_syntax(a) {
            Err(e) => Err(e),
            Ok(v) => Ok(SpecVarBindValue::Value(v)),
        }
    }
}

/// Decodes the VarBind CHOICE; mirrors [`spec_varbind_value`].
fn varbind_value_from_any<'a>(a: Any<'a>) -> (r: Result<VarBindValue<'a>, SnmpError>)
    ensures
        match r {
            Ok(v) => spec_varbind_value(a.deep_view()) == Ok::<SpecVarBindValue, SnmpError>(
                v.deep_view(),
            ),
            Err(e) => spec_varbind_value(a.deep_view()) == Err::<SpecVarBindValue, SnmpError>(e),
        },
{
    if a.class == ber::CLASS_CONTEXT {
        if a.tag == 0 {
            Ok(VarBindValue::NoSuchObject)
        } else if a.tag == 1 {
            Ok(VarBindValue::NoSuchInstance)
        } else if a.tag == 2 {
            Ok(VarBindValue::EndOfMibView)
        } else {
            Err(SnmpError::InvalidPdu)
        }
    } else if a.class == ber::CLASS_UNIVERSAL && a.tag == ber::TAG_NULL {
        Ok(VarBindValue::Unspecified)
    } else {
        match object_syntax_from_any(a) {
            Err(e) => Err(e),
            Ok(v) => Ok(VarBindValue::Value(v)),
        }
    }
}

/// One VarBind: a SEQUENCE holding an OID and the value CHOICE.
/// Trailing bytes inside the binding's SEQUENCE body are ignored, and
/// the bytes after the SEQUENCE are returned.
pub open spec fn spec_parse_varbind(s: Seq<u8>) -> Result<(Seq<u8>, SpecSnmpVariable), SnmpError> {
    match ber::spec_parse_framed(s, ber::CLASS_UNIVERSAL, true, ber::TAG_SEQUENCE) {
        Err(e) => Err(SnmpError::BerError(e)),
        Ok((content, rest)) => match ber::spec_parse_framed(
            content,
            ber::CLASS_UNIVERSAL,
            false,
            ber::TAG_OID,
        ) {
            Err(e) => Err(SnmpError::BerError(e)),
            Ok((oid_content, rem)) => match ber::spec_parse_any(rem) {
                Err(e) => Err(SnmpError::BerError(e)),
                Ok((_, choice)) => match spec_varbind_value(choice) {
                    Err(e) => Err(e),
                    Ok(val) => Ok((rest, SpecSnmpVariable { oid: oid_content, val })),
                },
            },
        },
    }
}

/// Reads one VarBind; mirrors [`spec_parse_varbind`].
fn parse_varbind<'a>(s: &'a [u8]) -> (r: Result<(&'a [u8], SnmpVariable<'a>), SnmpError>)
    ensures
        ber::parsed(r) == spec_parse_varbind(s@),
{
    let (content, rest) = match ber::parse_framed(
        s,
        ber::CLASS_UNIVERSAL,
        true,
        ber::TAG_SEQUENCE,
    ) {
        Ok(p) => p,
        Err(e) => {
            return Err(SnmpError::BerError(e));
        },
    };
    let (oid_content, rem) = match ber::parse_framed(
        content,
        ber::CLASS_UNIVERSAL,
        false,
        ber::TAG_OID,
    ) {
        Ok(p) => p,
        Err(e) => {
            return Err(SnmpError::BerError(e));
        },
    };
    let choice = match ber::parse_any(rem) {
        Ok((_, a)) => a,
        Err(e) => {
            return Err(SnmpError::BerError(e));
        },
    };
    match varbind_value_from_any(choice) {
        Err(e) => Err(e),
        Ok(val) => Ok((rest, SnmpVariable { oid: Oid { content: oid_content }, val })),
    }
}

/// A successful VarBind read consumes at least one byte.
pub(crate) proof fn lemma_spec_parse_varbind_consumes(s: Seq<u8>)
    ensures
        spec_parse_varbind(s) matches Ok((rest, v)) ==> rest.len() < s.len(),
{
    ber::lemma_spec_parse_framed_consumes(s, ber::CLASS_UNIVERSAL, true, ber::TAG_SEQUENCE);
}

/// A VarBind list body: VarBinds packed back to back until the body is
/// exhausted; trailing bytes that do not form a VarBind fail.  (A
/// successful VarBind read always consumes at least one byte, so the
/// guard arm is never reached.)
pub open spec fn spec_parse_varbinds(s: Seq<u8>) -> Result<Seq<SpecSnmpVariable>, SnmpError>
    decreases s.len(),
{
    if s.len() == 0 {
        Ok(Seq::empty())
    } else {
        match spec_parse_varbind(s) {
            Err(e) => Err(e),
            Ok((rem, v)) => {
                if rem.len() < s.len() {
                    match spec_parse_varbinds(rem) {
                        Err(e) => Err(e),
                        Ok(vs) => Ok(seq![v] + vs),
                    }
                } else {
                    Err(SnmpError::InvalidPdu)
                }
            },
        }
    }
}

/// A VarBind list: a SEQUENCE OF VarBind.
pub open spec fn spec_parse_varbind_list(s: Seq<u8>) -> Result<
    (Seq<u8>, Seq<SpecSnmpVariable>),
    SnmpError,
> {
    match ber::spec_parse_framed(s, ber::CLASS_UNIVERSAL, true, ber::TAG_SEQUENCE) {
        Err(e) => Err(SnmpError::BerError(e)),
        Ok((content, rest)) => match spec_parse_varbinds(content) {
            Err(e) => Err(e),
            Ok(vs) => Ok((rest, vs)),
        },
    }
}

/// Reads a VarBind list; mirrors [`spec_parse_varbind_list`].
#[verifier::loop_isolation(false)]
fn parse_varbind_list<'a>(s: &'a [u8]) -> (r: Result<
    (&'a [u8], Vec<SnmpVariable<'a>>),
    SnmpError,
>)
    ensures
        ber::parsed(r) == spec_parse_varbind_list(s@),
{
    let (content, rest) = match ber::parse_framed(
        s,
        ber::CLASS_UNIVERSAL,
        true,
        ber::TAG_SEQUENCE,
    ) {
        Ok(p) => p,
        Err(e) => {
            return Err(SnmpError::BerError(e));
        },
    };
    let mut vars: Vec<SnmpVariable<'a>> = Vec::new();
    let mut rem: &[u8] = content;
    proof {
        assert(vars.deep_view() =~= Seq::<SpecSnmpVariable>::empty());
    }
    while rem.len() > 0
        invariant
            match spec_parse_varbinds(rem@) {
                Ok(vs) => spec_parse_varbinds(content@) == Ok::<Seq<SpecSnmpVariable>, SnmpError>(
                    vars.deep_view() + vs,
                ),
                Err(e) => spec_parse_varbinds(content@) == Err::<Seq<SpecSnmpVariable>, SnmpError>(
                    e,
                ),
            },
        decreases rem@.len(),
    {
        match parse_varbind(rem) {
            Err(e) => {
                return Err(e);
            },
            Ok((rem2, v)) => {
                proof {
                    lemma_spec_parse_varbind_consumes(rem@);
                    let ghost old_dv = vars.deep_view();
                    let ghost vdv = v.deep_view();
                    match spec_parse_varbinds(rem2@) {
                        Ok(vs) => {
                            assert(old_dv + (seq![vdv] + vs) =~= old_dv.push(vdv) + vs);
                        },
                        Err(_) => (),
                    }
                }
                let ghost old_dv = vars.deep_view();
                vars.push(v);
                proof {
                    assert(vars.deep_view() =~= old_dv.push(v.deep_view()));
                }
                rem = rem2;
            },
        }
    }
    proof {
        assert(vars.deep_view() + Seq::<SpecSnmpVariable>::empty() =~= vars.deep_view());
    }
    Ok((rest, vars))
}

/// A request or response PDU of the generic shape.
#[derive(Debug, PartialEq)]
pub struct SnmpGenericPdu<'a> {
    pub pdu_type: PduType,
    pub req_id: u32,
    pub err: ErrorStatus,
    pub err_index: u32,
    pub var: Vec<SnmpVariable<'a>>,
}

/// The mathematical view of [`SnmpGenericPdu`].
pub struct SpecSnmpGenericPdu {
    pub pdu_type: PduType,
    pub req_id: u32,
    pub err: ErrorStatus,
    pub err_index: u32,
    pub var: Seq<SpecSnmpVariable>,
}

impl<'a> DeepView for SnmpGenericPdu<'a> {
    type V = SpecSnmpGenericPdu;

    open spec fn deep_view(&self) -> SpecSnmpGenericPdu {
        SpecSnmpGenericPdu {
            pdu_type: self.pdu_type,
            req_id: self.req_id,
            err: self.err,
            err_index: self.err_index,
            var: self.var.deep_view(),
        }
    }
}

/// A GetBulkRequest PDU.
#[derive(Debug, PartialEq)]
pub struct SnmpBulkPdu<'a> {
    pub req_id: u32,
    pub non_repeaters: u32,
    pub max_repetitions: u32,
    pub var: Vec<SnmpVariable<'a>>,
}

/// The mathematical view of [`SnmpBulkPdu`].
pub struct SpecSnmpBulkPdu {
    pub req_id: u32,
    pub non_repeaters: u32,
    pub max_repetitions: u32,
    pub var: Seq<SpecSnmpVariable>,
}

impl<'a> DeepView for SnmpBulkPdu<'a> {
    type V = SpecSnmpBulkPdu;

    open spec fn deep_view(&self) -> SpecSnmpBulkPdu {
        SpecSnmpBulkPdu {
            req_id: self.req_id,
            non_repeaters: self.non_repeaters,
            max_repetitions: self.max_repetitions,
            var: self.var.deep_view(),
        }
    }
}

/// The obsolete SNMPv1 Trap PDU.
#[derive(Debug, PartialEq)]
pub struct SnmpTrapPdu<'a> {
    pub enterprise: Oid<'a>,
    pub agent_addr: NetworkAddress,
    pub generic_trap: TrapType,
    pub specific_trap: u32,
    pub timestamp: TimeTicks,
    pub var: Vec<SnmpVariable<'a>>,
}

/// The mathematical view of [`SnmpTrapPdu`].
pub struct SpecSnmpTrapPdu {
    pub enterprise: Seq<u8>,
    pub agent_addr: NetworkAddress,
    pub generic_trap: TrapType,
    pub specific_trap: u32,
    pub timestamp: u32,
    pub var: Seq<SpecSnmpVariable>,
}

impl<'a> DeepView for SnmpTrapPdu<'a> {
    type V = SpecSnmpTrapPdu;

    open spec fn deep_view(&self) -> SpecSnmpTrapPdu {
        SpecSnmpTrapPdu {
            enterprise: self.enterprise.deep_view(),
            agent_addr: self.agent_addr,
            generic_trap: self.generic_trap,
            specific_trap: self.specific_trap,
            timestamp: self.timestamp,
            var: self.var.deep_view(),
        }
    }
}

/// One PDU of any of the three shapes.
#[derive(Debug, PartialEq)]
pub enum SnmpPdu<'a> {
    Generic(SnmpGenericPdu<'a>),
    Bulk(SnmpBulkPdu<'a>),
    TrapV1(SnmpTrapPdu<'a>),
}

/// The mathematical view of [`SnmpPdu`].
pub enum SpecSnmpPdu {
    Generic(SpecSnmpGenericPdu),
    Bulk(SpecSnmpBulkPdu),
    TrapV1(SpecSnmpTrapPdu),
}

impl<'a> DeepView for SnmpPdu<'a> {
    type V = SpecSnmpPdu;

    open spec fn deep_view(&self) -> SpecSnmpPdu {
        match *self {
            SnmpPdu::Generic(ref p) => SpecSnmpPdu::Generic(p.deep_view()),
            SnmpPdu::Bulk(ref p) => SpecSnmpPdu::Bulk(p.deep_view()),
            SnmpPdu::TrapV1(ref p) => SpecSnmpPdu::TrapV1(p.deep_view()),
        }
    }
}

impl SpecSnmpPdu {
    /// The tag that framed the PDU.
    pub open spec fn pdu_type(self) -> PduType {
        match self {
            SpecSnmpPdu::Generic(p) => p.pdu_type,
            SpecSnmpPdu::Bulk(_) => PduType(5),
            SpecSnmpPdu::TrapV1(_) => PduType(4),
        }
    }

    /// The variable bindings, in encoded order.
    pub open spec fn vars(self) -> Seq<SpecSnmpVariable> {
        match self {
            SpecSnmpPdu::Generic(p) => p.var,
            SpecSnmpPdu::Bulk(p) => p.var,
            SpecSnmpPdu::TrapV1(p) => p.var,
        }
    }
}

/// An SNMPv1 or SNMPv2c message.
#[derive(Debug, PartialEq)]
pub struct SnmpMessage<'a> {
    /// Version, as raw-encoded: 0 for SNMPv1, 1 for SNMPv2c.
    pub version: u32,
    pub community: String,
    pub pdu: SnmpPdu<'a>,
}

/// The mathematical view of [`SnmpMessage`].
pub struct SpecSnmpMessage {
    pub version: u32,
    pub community: Seq<char>,
    pub pdu: SpecSnmpPdu,
}

impl<'a> DeepView for SnmpMessage<'a> {
    type V = SpecSnmpMessage;

    open spec fn deep_view(&self) -> SpecSnmpMessage {
        SpecSnmpMessage {
            version: self.version,
            community: self.community@,
            pdu: self.pdu.deep_view(),
        }
    }
}

/// TimeTicks framed as APPLICATION 3 IMPLICIT INTEGER.
pub open spec fn spec_parse_timeticks(s: Seq<u8>) -> Result<(Seq<u8>, u32), BerErrorKind> {
    match ber::spec_parse_framed(s, ber::CLASS_APPLICATION, false, 3) {
        Err(e) => Err(e),
        Ok((content, rest)) => match ber::spec_u32_from_content(content) {
            Err(e) => Err(e),
            Ok(v) => Ok((rest, v)),
        },
    }
}

/// Reads TimeTicks; mirrors [`spec_parse_timeticks`].
fn parse_timeticks<'a>(s: &'a [u8]) -> (r: Result<(&'a [u8], u32), BerErrorKind>)
    ensures
        ber::parsed(r) == spec_parse_timeticks(s@),
{
    match ber::parse_framed(s, ber::CLASS_APPLICATION, false, 3) {
        Err(e) => Err(e),
        Ok((content, rest)) => match ber::u32_from_content(content) {
            Err(e) => Err(e),
            Ok(v) => Ok((rest, v)),
        },
    }
}

/// A generic PDU body: request-id, error-status, error-index and the
/// VarBind list, read from the bytes after the PDU tag; the tag itself
/// is recorded as `t`.
pub open spec fn spec_parse_generic_pdu_body(s: Seq<u8>, t: PduType) -> Result<
    (Seq<u8>, SpecSnmpPdu),
    SnmpError,
> {
    match ber::spec_parse_ber_u32(s) {
        Err(e) => Err(SnmpError::BerError(e)),
        Ok((i1, req_id)) => match ber::spec_parse_ber_u32(i1) {
            Err(e) => Err(SnmpError::BerError(e)),
            Ok((i2, err)) => match ber::spec_parse_ber_u32(i2) {
                Err(e) => Err(SnmpError::BerError(e)),
                Ok((i3, err_index)) => match spec_parse_varbind_list(i3) {
                    Err(e) => Err(e),
                    Ok((i4, var)) => Ok(
                        (
                            i4,
                            SpecSnmpPdu::Generic(
                                SpecSnmpGenericPdu {
                                    pdu_type: t,
                                    req_id,
                                    err: ErrorStatus(err),
                                    err_index,
                                    var,
                                },
                            ),
                        ),
                    ),
                },
            },
        },
    }
}

/// Reads a generic PDU body; mirrors [`spec_parse_generic_pdu_body`].
fn parse_generic_pdu_body<'a>(s: &'a [u8], t: PduType) -> (r: Result<
    (&'a [u8], SnmpPdu<'a>),
    SnmpError,
>)
    ensures
        ber::parsed(r) == spec_parse_generic_pdu_body(s@, t),
{
    let (i1, req_id) = match ber::parse_ber_u32(s) {
        Ok(p) => p,
        Err(e) => {
            return Err(SnmpError::BerError(e));
        },
    };
    let (i2, err) = match ber::parse_ber_u32(i1) {
        Ok(p) => p,
        Err(e) => {
            return Err(SnmpError::BerError(e));
        },
    };
    let (i3, err_index) = match ber::parse_ber_u32(i2) {
        Ok(p) => p,
        Err(e) => {
            return Err(SnmpError::BerError(e));
        },
    };
    match parse_varbind_list(i3) {
        Err(e) => Err(e),
        Ok((i4, var)) => Ok(
            (
                i4,
                SnmpPdu::Generic(
                    SnmpGenericPdu { pdu_type: t, req_id, err: ErrorStatus(err), err_index, var },
                ),
            ),
        ),
    }
}

/// A bulk PDU body: request-id, non-repeaters, max-repetitions and the
/// VarBind list, read from the bytes after the PDU tag.
pub open spec fn spec_parse_bulk_pdu_body(s: Seq<u8>) -> Result<(Seq<u8>, SpecSnmpPdu), SnmpError> {
    match ber::spec_parse_ber_u32(s) {
        Err(e) => Err(SnmpError::BerError(e)),
        Ok((i1, req_id)) => match ber::spec_parse_ber_u32(i1) {
            Err(e) => Err(SnmpError::BerError(e)),
            Ok((i2, non_repeaters)) => match ber::spec_parse_ber_u32(i2) {
                Err(e) => Err(SnmpError::BerError(e)),
                Ok((i3, max_repetitions)) => match spec_parse_varbind_list(i3) {
                    Err(e) => Err(e),
                    Ok((i4, var)) => Ok(
                        (
                            i4,
                            SpecSnmpPdu::Bulk(
                                SpecSnmpBulkPdu { req_id, non_repeaters, max_repetitions, var },
                            ),
                        ),
                    ),
                },
            },
        },
    }
}

/// Reads a bulk PDU body; mirrors [`spec_parse_bulk_pdu_body`].
fn parse_bulk_pdu_body<'a>(s: &'a [u8]) -> (r: Result<(&'a [u8], SnmpPdu<'a>), SnmpError>)
    ensures
        ber::parsed(r) == spec_parse_bulk_pdu_body(s@),
{
    let (i1, req_id) = match ber::parse_ber_u32(s) {
        Ok(p) => p,
        Err(e) => {
            return Err(SnmpError::BerError(e));
        },
    };
    let (i2, non_repeaters) = match ber::parse_ber_u32(i1) {
        Ok(p) => p,
        Err(e) => {
            return Err(SnmpError::BerError(e));
        },
    };
    let (i3, max_repetitions) = match ber::parse_ber_u32(i2) {
        Ok(p) => p,
        Err(e) => {
            return Err(SnmpError::BerError(e));
        },
    };
    match parse_varbind_list(i3) {
        Err(e) => Err(e),
        Ok((i4, var)) => Ok(
            (i4, SnmpPdu::Bulk(SnmpBulkPdu { req_id, non_repeaters, max_repetitions, var })),
        ),
    }
}

/// The tail of a trap PDU body after the agent address:
/// generic-trap (which must fit in one octet), specific-trap, the
/// TimeTicks timestamp and the VarBind list.  The enterprise OID and
/// agent address, already decoded, are recorded in the result.
pub open spec fn spec_parse_trap_pdu_tail(
    s: Seq<u8>,
    enterprise: Seq<u8>,
    agent_addr: NetworkAddress,
) -> Result<(Seq<u8>, SpecSnmpPdu), SnmpError> {
    match ber::spec_parse_ber_u32(s) {
        Err(e) => Err(SnmpError::BerError(e)),
        Ok((i3, generic_trap)) => {
            if generic_trap > 255 {
                Err(SnmpError::InvalidPdu)
            } else {
                match ber::spec_parse_ber_u32(i3) {
                    Err(e) => Err(SnmpError::BerError(e)),
                    Ok((i4, specific_trap)) => match spec_parse_timeticks(i4) {
                        Err(e) => Err(SnmpError::BerError(e)),
                        Ok((i5, timestamp)) => match spec_parse_varbind_list(i5) {
                            Err(e) => Err(e),
                            Ok((i6, var)) => Ok(
                                (
                                    i6,
                                    SpecSnmpPdu::TrapV1(
                                        SpecSnmpTrapPdu {
                                            enterprise,
                                            agent_addr,
                                            generic_trap: TrapType(generic_trap as u8),
                                            specific_trap,
                                            timestamp,
                                            var,
                                        },
                                    ),
                                ),
                            ),
                        },
                    },
                }
            }
        },
    }
}

/// A trap PDU body: enterprise OID, agent address (APPLICATION 0,
/// four octets), then the tail of [`spec_parse_trap_pdu_tail`].
pub open spec fn spec_parse_trap_pdu_body(s: Seq<u8>) -> Result<(Seq<u8>, SpecSnmpPdu), SnmpError> {
    match ber::spec_parse_framed(s, ber::CLASS_UNIVERSAL, false, ber::TAG_OID) {
        Err(e) => Err(SnmpError::BerError(e)),
        Ok((enterprise, i1)) => match ber::spec_parse_any(i1) {
            Err(e) => Err(SnmpError::BerError(e)),
            Ok((i2, addr)) => {
                if addr.class != ber::CLASS_APPLICATION || addr.tag != 0 {
                    Err(SnmpError::BerError(BerErrorKind::UnexpectedTag))
                } else if addr.data.len() != 4 {
                    Err(SnmpError::InvalidPdu)
                } else {
                    spec_parse_trap_pdu_tail(
                        i2,
                        enterprise,
                        NetworkAddress::IPv4(addr.data[0], addr.data[1], addr.data[2], addr.data[3]),
                    )
                }
            },
        },
    }
}

/// Reads a trap PDU body; mirrors [`spec_parse_trap_pdu_body`].
fn parse_trap_pdu_body<'a>(s: &'a [u8]) -> (r: Result<(&'a [u8], SnmpPdu<'a>), SnmpError>)
    ensures
        ber::parsed(r) == spec_parse_trap_pdu_body(s@),
{
    let (enterprise, i1) = match ber::parse_framed(
        s,
        ber::CLASS_UNIVERSAL,
        false,
        ber::TAG_OID,
    ) {
        Ok(p) => p,
        Err(e) => {
            return Err(SnmpError::BerError(e));
        },
    };
    let (i2, addr) = match ber::parse_any(i1) {
        Ok(p) => p,
        Err(e) => {
            return Err(SnmpError::BerError(e));
        },
    };
    if addr.class != ber::CLASS_APPLICATION || addr.tag != 0 {
        return Err(SnmpError::BerError(BerErrorKind::UnexpectedTag));
    }
    if addr.data.len() != 4 {
        return Err(SnmpError::InvalidPdu);
    }
    let agent_addr = NetworkAddress::IPv4(addr.data[0], addr.data[1], addr.data[2], addr.data[3]);
    let (i3, generic_trap) = match ber::parse_ber_u32(i2) {
        Ok(p) => p,
        Err(e) => {
            return Err(SnmpError::BerError(e));
        },
    };
    if generic_trap > 255 {
        return Err(SnmpError::InvalidPdu);
    }
    let (i4, specific_trap) = match ber::parse_ber_u32(i3) {
        Ok(p) => p,
        Err(e) => {
            return Err(SnmpError::BerError(e));
        },
    };
    let (i5, timestamp) = match parse_timeticks(i4) {
        Ok(p) => p,
        Err(e) => {
            return Err(SnmpError::BerError(e));
        },
    };
    match parse_varbind_list(i5) {
        Err(e) => Err(e),
        Ok((i6, var)) => Ok(
            (
                i6,
                SnmpPdu::TrapV1(
                    SnmpTrapPdu {
                        enterprise: Oid { content: enterprise },
                        agent_addr,
                        generic_trap: TrapType(generic_trap as u8),
                        specific_trap,
                        timestamp,
                        var,
                    },
                ),
            ),
        ),
    }
}

/// One PDU in an SNMPv1 envelope: tags 0 to 3 give the generic shape
/// and tag 4 the trap shape; any other tag fails with
/// `InvalidPduType`.  The tag's class and declared length are not
/// inspected: the body is read from the bytes that follow the tag's
/// header.
pub open spec fn spec_parse_pdu_v1(s: Seq<u8>) -> Result<(Seq<u8>, SpecSnmpPdu), SnmpError> {
    match ber::spec_parse_header(s) {
        Err(e) => Err(SnmpError::BerError(e)),
        Ok((rem, h)) => {
            if h.tag == 0 || h.tag == 1 || h.tag == 2 || h.tag == 3 {
                spec_parse_generic_pdu_body(rem, PduType(h.tag))
            } else if h.tag == 4 {
                spec_parse_trap_pdu_body(rem)
            } else {
                Err(SnmpError::InvalidPduType)
            }
        },
    }
}

/// Reads one PDU of an SNMPv1 envelope; mirrors
/// [`spec_parse_pdu_v1`].
#[verifier::rlimit(60)]
pub(crate) fn parse_pdu_v1<'a>(s: &'a [u8]) -> (r: Result<(&'a [u8], SnmpPdu<'a>), SnmpError>)
    ensures
        ber::parsed(r) == spec_parse_pdu_v1(s@),
{
    match ber::parse_header(s) {
        Err(e) => Err(SnmpError::BerError(e)),
        Ok((rem, h)) => {
            if h.tag == 0 || h.tag == 1 || h.tag == 2 || h.tag == 3 {
                parse_generic_pdu_body(rem, PduType(h.tag))
            } else if h.tag == 4 {
                parse_trap_pdu_body(rem)
            } else {
                Err(SnmpError::InvalidPduType)
            }
        },
    }
}

/// One PDU in an SNMPv2c envelope (also the inner PDU of SNMPv3):
/// tags 0 to 3 and 6 to 8 give the generic shape, tag 5 the bulk
/// shape, and tag 4 the trap shape; any other tag fails with
/// `InvalidPduType`.
pub open spec fn spec_parse_pdu_v2c(s: Seq<u8>) -> Result<(Seq<u8>, SpecSnmpPdu), SnmpError> {
    match ber::spec_parse_header(s) {
        Err(e) => Err(SnmpError::BerError(e)),
        Ok((rem, h)) => {
            if h.tag == 0 || h.tag == 1 || h.tag == 2 || h.tag == 3 || h.tag == 6 || h.tag == 7
                || h.tag == 8 {
                spec_parse_generic_pdu_body(rem, PduType(h.tag))
            } else if h.tag == 5 {
                spec_parse_bulk_pdu_body(rem)
            } else if h.tag == 4 {
                spec_parse_trap_pdu_body(rem)
            } else {
                Err(SnmpError::InvalidPduType)
            }
        },
    }
}

/// Reads one PDU of an SNMPv2c envelope; mirrors
/// [`spec_parse_pdu_v2c`].
#[verifier::rlimit(60)]
pub(crate) fn parse_pdu_v2c<'a>(s: &'a [u8]) -> (r: Result<(&'a [u8], SnmpPdu<'a>), SnmpError>)
    ensures
        ber::parsed(r) == spec_parse_pdu_v2c(s@),
{
    match ber::parse_header(s) {
        Err(e) => Err(SnmpError::BerError(e)),
        Ok((rem, h)) => {
            if h.tag == 0 || h.tag == 1 || h.tag == 2 || h.tag == 3 || h.tag == 6 || h.tag == 7
                || h.tag == 8 {
                parse_generic_pdu_body(rem, PduType(h.tag))
            } else if h.tag == 5 {
                parse_bulk_pdu_body(rem)
            } else if h.tag == 4 {
                parse_trap_pdu_body(rem)
            } else {
                Err(SnmpError::InvalidPduType)
            }
        },
    }
}

/// The community string and PDU of a v1 message, read after the
/// version field; `version` is recorded in the result.
pub open spec fn spec_parse_v1_body(s: Seq<u8>, version: u32) -> Result<SpecSnmpMessage, SnmpError> {
    match ber::spec_parse_octetstring_utf8(s) {
        Err(e) => Err(SnmpError::BerError(e)),
        Ok((i1, community)) => match spec_parse_pdu_v1(i1) {
            Err(e) => Err(e),
            Ok((_, pdu)) => Ok(SpecSnmpMessage { version, community, pdu }),
        },
    }
}

/// Reads community and PDU of a v1 message; mirrors
/// [`spec_parse_v1_body`].
pub(crate) fn parse_v1_body<'a>(s: &'a [u8], version: u32) -> (r: Result<
    SnmpMessage<'a>,
    SnmpError,
>)
    ensures
        match r {
            Ok(m) => spec_parse_v1_body(s@, version) == Ok::<SpecSnmpMessage, SnmpError>(
                m.deep_view(),
            ),
            Err(e) => spec_parse_v1_body(s@, version) == Err::<SpecSnmpMessage, SnmpError>(e),
        },
{
    let (i1, community) = match ber::parse_octetstring_utf8(s) {
        Ok(p) => p,
        Err(e) => {
            return Err(SnmpError::BerError(e));
        },
    };
    match parse_pdu_v1(i1) {
        Err(e) => Err(e),
        Ok((_, pdu)) => Ok(SnmpMessage { version, community, pdu }),
    }
}

/// The community string and PDU of a v2c message, read after the
/// version field; `version` is recorded in the result.
pub open spec fn spec_parse_v2c_body(s: Seq<u8>, version: u32) -> Result<
    SpecSnmpMessage,
    SnmpError,
> {
    match ber::spec_parse_octetstring_utf8(s) {
        Err(e) => Err(SnmpError::BerError(e)),
        Ok((i1, community)) => match spec_parse_pdu_v2c(i1) {
            Err(e) => Err(e),
            Ok((_, pdu)) => Ok(SpecSnmpMessage { version, community, pdu }),
        },
    }
}

/// Reads community and PDU of a v2c message; mirrors
/// [`spec_parse_v2c_body`].
pub(crate) fn parse_v2c_body<'a>(s: &'a [u8], version: u32) -> (r: Result<
    SnmpMessage<'a>,
    SnmpError,
>)
    ensures
        match r {
            Ok(m) => spec_parse_v2c_body(s@, version) == Ok::<SpecSnmpMessage, SnmpError>(
                m.deep_view(),
            ),
            Err(e) => spec_parse_v2c_body(s@, version) == Err::<SpecSnmpMessage, SnmpError>(e),
        },
{
    let (i1, community) = match ber::parse_octetstring_utf8(s) {
        Ok(p) => p,
        Err(e) => {
            return Err(SnmpError::BerError(e));
        },
    };
    match parse_pdu_v2c(i1) {
        Err(e) => Err(e),
        Ok((_, pdu)) => Ok(SnmpMessage { version, community, pdu }),
    }
}

/// An SNMPv1 message: `SEQUENCE { version 0, community, pdu }`.
///
/// A malformed outer SEQUENCE fails with `InvalidMessage`; a version
/// that does not decode fails with `InvalidVersion`, as does any
/// version other than 0.  Trailing bytes after the outer SEQUENCE are
/// returned; trailing bytes inside it are ignored.
pub open spec fn spec_parse_snmp_v1(s: Seq<u8>) -> Result<(Seq<u8>, SpecSnmpMessage), SnmpError> {
    match ber::spec_parse_framed(s, ber::CLASS_UNIVERSAL, true, ber::TAG_SEQUENCE) {
        Err(_) => Err(SnmpError::InvalidMessage),
        Ok((content, rest)) => match ber::spec_parse_ber_u32(content) {
            Err(_) => Err(SnmpError::InvalidVersion),
            Ok((i1, version)) => {
                if version != 0 {
                    Err(SnmpError::InvalidVersion)
                } else {
                    match spec_parse_v1_body(i1, version) {
                        Err(e) => Err(e),
                        Ok(msg) => Ok((rest, msg)),
                    }
                }
            },
        },
    }
}

/// Parses an SNMPv1 message from `bytes`; the result equals
/// [`spec_parse_snmp_v1`] applied to the input, so the parse is total,
/// deterministic, and accepts only version 0.
pub fn parse_snmp_v1<'a>(bytes: &'a [u8]) -> (r: Result<
    (&'a [u8], SnmpMessage<'a>),
    SnmpError,
>)
    ensures
        ber::parsed(r) == spec_parse_snmp_v1(bytes@),
{
    let (content, rest) = match ber::parse_framed(
        bytes,
        ber::CLASS_UNIVERSAL,
        true,
        ber::TAG_SEQUENCE,
    ) {
        Ok(p) => p,
        Err(_) => {
            return Err(SnmpError::InvalidMessage);
        },
    };
    let (i1, version) = match ber::parse_ber_u32(content) {
        Ok(p) => p,
        Err(_) => {
            return Err(SnmpError::InvalidVersion);
        },
    };
    if version != 0 {
        return Err(SnmpError::InvalidVersion);
    }
    match parse_v1_body(i1, version) {
        Err(e) => Err(e),
        Ok(msg) => Ok((rest, msg)),
    }
}

/// An SNMPv2c message: `SEQUENCE { version 1, community, pdu }`.
///
/// As [`spec_parse_snmp_v1`], but the version must be 1 and the v2c
/// PDU tag set (bulk, inform, trap-v2 and report included) is allowed.
pub open spec fn spec_parse_snmp_v2c(s: Seq<u8>) -> Result<(Seq<u8>, SpecSnmpMessage), SnmpError> {
    match ber::spec_parse_framed(s, ber::CLASS_UNIVERSAL, true, ber::TAG_SEQUENCE) {
        Err(_) => Err(SnmpError::InvalidMessage),
        Ok((content, rest)) => match ber::spec_parse_ber_u32(content) {
            Err(_) => Err(SnmpError::InvalidVersion),
            Ok((i1, version)) => {
                if version != 1 {
                    Err(SnmpError::InvalidVersion)
                } else {
                    match spec_parse_v2c_body(i1, version) {
                        Err(e) => Err(e),
                        Ok(msg) => Ok((rest, msg)),
                    }
                }
            },
        },
    }
}

/// Parses an SNMPv2c message from `bytes`; the result equals
/// [`spec_parse_snmp_v2c`] applied to the input, so the parse is
/// total, deterministic, and accepts only version 1.
pub fn parse_snmp_v2c<'a>(bytes: &'a [u8]) -> (r: Result<
    (&'a [u8], SnmpMessage<'a>),
    SnmpError,
>)
    ensures
        ber::parsed(r) == spec_parse_snmp_v2c(bytes@),
{
    let (content, rest) = match ber::parse_framed(
        bytes,
        ber::CLASS_UNIVERSAL,
        true,
        ber::TAG_SEQUENCE,
    ) {
        Ok(p) => p,
        Err(_) => {
            return Err(SnmpError::InvalidMessage);
        },
    };
    let (i1, version) = match ber::parse_ber_u32(content) {
        Ok(p) => p,
        Err(_) => {
            return Err(SnmpError::InvalidVersion);
        },
    };
    if version != 1 {
        return Err(SnmpError::InvalidVersion);
    }
    match parse_v2c_body(i1, version) {
        Err(e) => Err(e),
        Ok(msg) => Ok((rest, msg)),
    }
}

impl<'a> SnmpGenericPdu<'a> {
    /// The variable bindings, in encoded order.
    pub fn vars_iter(&self) -> (r: &Vec<SnmpVariable<'a>>)
        ensures
            r.deep_view() == self.deep_view().var,
    {
        &self.var
    }
}

impl<'a> SnmpTrapPdu<'a> {
    /// The variable bindings, in encoded order.
    pub fn vars_iter(&self) -> (r: &Vec<SnmpVariable<'a>>)
        ensures
            r.deep_view() == self.deep_view().var,
    {
        &self.var
    }
}

impl<'a> SnmpPdu<'a> {
    /// The tag that framed this PDU.
    pub fn pdu_type(&self) -> (r: PduType)
        ensures
            r == self.deep_view().pdu_type(),
    {
        match *self {
            SnmpPdu::Generic(ref pdu) => pdu.pdu_type,
            SnmpPdu::Bulk(_) => PduType(5),
            SnmpPdu::TrapV1(_) => PduType(4),
        }
    }

    /// The variable bindings, in encoded order.
    pub fn vars_iter(&self) -> (r: &Vec<SnmpVariable<'a>>)
        ensures
            r.deep_view() == self.deep_view().vars(),
    {
        match *self {
            SnmpPdu::Generic(ref pdu) => &pdu.var,
            SnmpPdu::Bulk(ref pdu) => &pdu.var,
            SnmpPdu::TrapV1(ref pdu) => &pdu.var,
        }
    }
}

impl<'a> SnmpMessage<'a> {
    /// The tag that framed the message's PDU.
    pub fn pdu_type(&self) -> (r: PduType)
        ensures
            r == self.deep_view().pdu.pdu_type(),
    {
        self.pdu.pdu_type()
    }

    /// The variable bindings, in encoded order.
    pub fn vars_iter(&self) -> (r: &Vec<SnmpVariable<'a>>)
        ensures
            r.deep_view() == self.deep_view().pdu.vars(),
    {
        self.pdu.vars_iter()
    }
}

} // verus!
