//! A zero-copy decoder for SNMP messages of versions 1, 2c and 3.
//!
//! The decoder accepts one byte buffer holding an SNMP datagram and
//! produces the message tree: version, community or security envelope,
//! and the protocol data unit with its variable bindings.  Every parser
//! is verified against a specification-level parser over byte
//! sequences: the contract of each entry point states that its result
//! equals the specification parser applied to the input, so decoding is
//! total and deterministic, and never panics on any input.
//!
//! Byte-slice fields of the result borrow from the input buffer; only
//! the community and user-name strings are owned copies, made after
//! UTF-8 validation.

pub mod ber;
pub mod borrows;
pub mod decimal;
pub mod error;
pub mod generic;
pub mod laws;
pub mod snmp;
pub mod snmpv3;
pub mod usm;

pub use error::{BerErrorKind, SnmpError};
pub use generic::{parse_snmp_generic_message, SnmpGenericMessage, SpecSnmpGenericMessage};
pub use snmp::{
    parse_snmp_v1, parse_snmp_v2c, BitString, ErrorStatus, NetworkAddress, ObjectSyntax, Oid,
    PduType, SnmpBulkPdu, SnmpGenericPdu, SnmpMessage, SnmpPdu, SnmpTrapPdu, SnmpVariable,
    TrapType, VarBindValue,
};
pub use snmpv3::{
    parse_snmp_v3, HeaderData, ScopedPdu, ScopedPduData, SecurityModel, SecurityParameters,
    SnmpV3Message,
};
pub use usm::{parse_usm_security_parameters, UsmSecurityParameters};
