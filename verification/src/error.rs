//! Error taxonomy of the decoder.
//!
//! Structural failures of the BER primitive layer are carried as
//! [`BerErrorKind`] values and bubble up unchanged inside
//! [`SnmpError::BerError`]; the remaining variants are produced by the
//! SNMP layer at the checks named in their doc comments.

use vstd::prelude::*;

verus! {

/// A structural failure of the BER primitive layer.
#[derive(Clone, Copy, Debug, PartialEq, Eq, Structural)]
pub enum BerErrorKind {
    /// The input ended before the element (identifier, length or content)
    /// was complete.
    BufferTooShort,
    /// A long-form tag number was malformed or does not fit in 32 bits.
    InvalidTag,
    /// An indefinite length was encountered; only definite lengths are
    /// accepted.
    IndefiniteLength,
    /// A length field was malformed (reserved form, or a value too large
    /// to address).
    InvalidLength,
    /// The element's class, constructed bit or tag number differs from the
    /// one the grammar expects at this position.
    UnexpectedTag,
    /// An INTEGER with empty content.
    InvalidInteger,
    /// A negative INTEGER where an unsigned value is expected.
    IntegerNegative,
    /// An INTEGER whose value does not fit the requested width.
    IntegerTooLarge,
    /// An OCTET STRING that must hold UTF-8 text does not.
    InvalidCharset,
    /// A BIT STRING with empty content (the initial unused-bits octet is
    /// missing).
    InvalidBitString,
}

/// An error returned by the SNMP message decoders.
#[derive(Clone, Copy, Debug, PartialEq, Eq, Structural)]
pub enum SnmpError {
    /// The outer shape is not a universal SEQUENCE.
    InvalidMessage,
    /// The version INTEGER is absent, or outside the set the chosen entry
    /// point accepts.
    InvalidVersion,
    /// The PDU's context tag is outside the matrix allowed for the
    /// envelope.
    InvalidPduType,
    /// A PDU body does not match its expected shape: a VarBind exception
    /// tag outside {0, 1, 2}, an IPv4 address whose content is not 4
    /// octets, or a generic-trap number above 255.
    InvalidPdu,
    /// The SNMPv3 header sequence is malformed, including a msgFlags
    /// string that is not exactly one octet.
    InvalidHeaderData,
    /// The SNMPv3 plaintext scoped-PDU sequence is malformed.
    InvalidScopedPduData,
    /// The USM security model is selected but the security-parameters
    /// blob does not decode.
    InvalidSecurityModel,
    /// A structural failure of the BER layer, passed through unchanged.
    BerError(BerErrorKind),
}

} // verus!
