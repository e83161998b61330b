use vstd::prelude::*;

verus! {

/// Why an operation of this program was refused.
#[derive(Debug, Clone, Copy, PartialEq, Eq, Structural)]
pub enum EchoError {
    /// The supplied account is not the address derived for the authority and seed.
    AddressMismatch,
    /// The bump stored in the header is not the one the derivation yields.
    BumpMismatch,
    /// The account is too short to hold a header.
    DecodeError,
    /// The account is too short to receive a header.
    AccountTooSmall,
    /// No bump gives an address off the curve for these seeds.
    NoViableBump,
    /// A byte string is too long for the four-byte length of the wire form.
    DataTooLong,
    /// The bytes are not the wire form of an instruction.
    InvalidInstructionData,
}

} // verus!
