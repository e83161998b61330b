use vstd::bytes::{
    lemma_auto_spec_u32_to_from_le_bytes, lemma_auto_spec_u64_to_from_le_bytes,
    spec_u32_to_le_bytes, spec_u64_to_le_bytes, u32_from_le_bytes, u32_to_le_bytes,
    u64_from_le_bytes, u64_to_le_bytes,
};
use vstd::slice::slice_to_vec;
use vstd::prelude::*;

use crate::error::EchoError;

verus! {

/// The instructions this program accepts.
#[derive(Debug, Clone)]
pub enum EchoInstruction {
    /// Copy `data` into the account given, cut or padded with zeros.
    Echo { data: Vec<u8> },
    /// Create the buffer that the signing authority owns under `buffer_seed`,
    /// with room for `buffer_size` payload bytes.
    InitializeAuthorizedEcho { buffer_seed: u64, buffer_size: usize },
    /// Write `data` into the payload of a buffer that the signing authority owns.
    AuthorizedEcho { data: Vec<u8> },
    /// A buffer whose writes are paid for; its behaviour is not defined.
    InitializeVendingMachineEcho { price: u64, buffer_size: usize },
    /// A paid write; its behaviour is not defined.
    VendingMachineEcho { data: Vec<u8> },
}

/// A byte string on the wire: its length as four little-endian bytes, then the bytes.
pub open spec fn sized_bytes(data: Seq<u8>) -> Seq<u8> {
    spec_u32_to_le_bytes(data.len() as u32) + data
}

/// Whether every byte string of `ins` is short enough for its four-byte length.
pub open spec fn wire_fits(ins: EchoInstruction) -> bool {
    match ins {
        EchoInstruction::Echo { data } => data@.len() <= u32::MAX,
        EchoInstruction::AuthorizedEcho { data } => data@.len() <= u32::MAX,
        EchoInstruction::VendingMachineEcho { data } => data@.len() <= u32::MAX,
        _ => true,
    }
}

/// The wire form of an instruction: the variant's index as one byte, then its
/// fields in order; integers little-endian, sizes as eight bytes.
pub open spec fn instruction_bytes(ins: EchoInstruction) -> Seq<u8> {
    match ins {
        EchoInstruction::Echo { data } => seq![0u8] + sized_bytes(data@),
        EchoInstruction::InitializeAuthorizedEcho { buffer_seed, buffer_size } => seq![1u8]
            + spec_u64_to_le_bytes(buffer_seed) + spec_u64_to_le_bytes(buffer_size as u64),
        EchoInstruction::AuthorizedEcho { data } => seq![2u8] + sized_bytes(data@),
        EchoInstruction::InitializeVendingMachineEcho { price, buffer_size } => seq![3u8]
            + spec_u64_to_le_bytes(price) + spec_u64_to_le_bytes(buffer_size as u64),
        EchoInstruction::VendingMachineEcho { data } => seq![4u8] + sized_bytes(data@),
    }
}

/// Appends the wire form of a byte string; fails, appending nothing, where it
/// is too long for a four-byte length.
fn push_sized(out: &mut Vec<u8>, data: &Vec<u8>) -> (r: Result<(), EchoError>)
    ensures
        data@.len() <= u32::MAX ==> r == Ok::<(), EchoError>(()) && final(out)@ == old(out)@
            + sized_bytes(data@),
        data@.len() > u32::MAX ==> r == Err::<(), EchoError>(EchoError::DataTooLong)
            && final(out)@ == old(out)@,
{
    if data.len() > 0xffff_ffff {
        return Err(EchoError::DataTooLong);
    }
    let len = u32_to_le_bytes(data.len() as u32);
    out.extend_from_slice(len.as_slice());
    out.extend_from_slice(data.as_slice());
    assert(out@ =~= old(out)@ + sized_bytes(data@));
    Ok(())
}

/// Appends a tag byte followed by two eight-byte integers.
fn push_tag_and_pair(out: &mut Vec<u8>, tag: u8, a: u64, b: u64)
    ensures
        final(out)@ == old(out)@ + (seq![tag] + spec_u64_to_le_bytes(a) + spec_u64_to_le_bytes(b)),
{
    out.push(tag);
    let a_bytes = u64_to_le_bytes(a);
    out.extend_from_slice(a_bytes.as_slice());
    let b_bytes = u64_to_le_bytes(b);
    out.extend_from_slice(b_bytes.as_slice());
    assert(out@ =~= old(out)@ + (seq![tag] + spec_u64_to_le_bytes(a) + spec_u64_to_le_bytes(b)));
}

/// Reads the byte string that follows the tag byte of `data`, which must end
/// exactly where the string does.
fn read_sized_after_tag(data: &[u8]) -> (r: Option<Vec<u8>>)
    requires
        data@.len() >= 1,
    ensures
        r is Some ==> r->0@.len() <= u32::MAX && data@ == seq![data@[0]] + sized_bytes(r->0@),
        forall|d: Seq<u8>|
            d.len() <= u32::MAX && data@ == seq![data@[0]] + #[trigger] sized_bytes(d) ==> r
                is Some,
{
    proof {
        lemma_auto_spec_u32_to_from_le_bytes();
    }
    assert forall|d: Seq<u8>|
        d.len() <= u32::MAX && data@ == seq![data@[0]] + #[trigger] sized_bytes(d) implies
        data@.len() >= 5 && data@.subrange(1, 5) == spec_u32_to_le_bytes(d.len() as u32) && data@.len() == 5
        + d.len() by {
        assert(data@.subrange(1, 5) =~= spec_u32_to_le_bytes(d.len() as u32));
    }
    if data.len() < 5 {
        return None;
    }
    let n = u32_from_le_bytes(&data[1..5]);
    if data.len() - 5 != n as usize {
        return None;
    }
    let v = slice_to_vec(&data[5..data.len()]);
    assert(data@.subrange(1, 5) =~= spec_u32_to_le_bytes(n));
    assert(data@ =~= seq![data@[0]] + sized_bytes(v@));
    Some(v)
}

/// Reads a tag byte followed by two eight-byte integers; `data` must end there.
fn read_pair_after_tag(data: &[u8]) -> (r: Option<(u64, u64)>)
    requires
        data@.len() >= 1,
    ensures
        match r {
            Some((a, b)) => data@ == seq![data@[0]] + spec_u64_to_le_bytes(a)
                + spec_u64_to_le_bytes(b),
            None => true,
        },
        forall|a: u64, b: u64|
            data@ == seq![data@[0]] + #[trigger] spec_u64_to_le_bytes(a)
                + #[trigger] spec_u64_to_le_bytes(b) ==> r == Some((a, b)),
{
    proof {
        lemma_auto_spec_u64_to_from_le_bytes();
    }
    assert forall|a: u64, b: u64|
        data@ == seq![data@[0]] + #[trigger] spec_u64_to_le_bytes(a)
            + #[trigger] spec_u64_to_le_bytes(b) implies data@.len() == 17
        && data@.subrange(1, 9) == spec_u64_to_le_bytes(a) && data@.subrange(9, 17)
        == spec_u64_to_le_bytes(b) by {
        assert(data@.subrange(1, 9) =~= spec_u64_to_le_bytes(a));
        assert(data@.subrange(9, 17) =~= spec_u64_to_le_bytes(b));
    }
    if data.len() != 17 {
        return None;
    }
    let a = u64_from_le_bytes(&data[1..9]);
    let b = u64_from_le_bytes(&data[9..17]);
    assert(data@.subrange(1, 9) =~= spec_u64_to_le_bytes(a));
    assert(data@.subrange(9, 17) =~= spec_u64_to_le_bytes(b));
    assert(data@ =~= seq![data@[0]] + spec_u64_to_le_bytes(a) + spec_u64_to_le_bytes(b));
    Some((a, b))
}

impl EchoInstruction {
    /// Reads an instruction from its wire form, which must fill `data` exactly.
    pub fn try_from_slice(data: &[u8]) -> (r: Result<EchoInstruction, EchoError>)
        ensures
            r is Ok ==> wire_fits(r->Ok_0) && instruction_bytes(r->Ok_0) == data@,
            forall|ins: EchoInstruction|
                wire_fits(ins) && #[trigger] instruction_bytes(ins) == data@ ==> r is Ok,
            r is Err ==> r->Err_0 == EchoError::InvalidInstructionData,
    {
        if data.len() == 0 {
            return Err(EchoError::InvalidInstructionData);
        }
        let tag = data[0];
        if tag == 0 || tag == 2 || tag == 4 {
            match read_sized_after_tag(data) {
                Some(bytes) => {
                    if tag == 0 {
                        Ok(EchoInstruction::Echo { data: bytes })
                    } else if tag == 2 {
                        Ok(EchoInstruction::AuthorizedEcho { data: bytes })
                    } else {
                        Ok(EchoInstruction::VendingMachineEcho { data: bytes })
                    }
                },
                None => {
                    assert forall|ins: EchoInstruction|
                        wire_fits(ins) && #[trigger] instruction_bytes(ins) == data@ implies false
                        by {
                        assert(instruction_bytes(ins)[0] == data@[0]);
                    }
                    Err(EchoError::InvalidInstructionData)
                },
            }
        } else if tag == 1 || tag == 3 {
            match read_pair_after_tag(data) {
                Some((a, b)) => {
                    if b > usize::MAX as u64 {
                        proof {
                            lemma_auto_spec_u64_to_from_le_bytes();
                        }
                        assert forall|ins: EchoInstruction|
                            wire_fits(ins) && #[trigger] instruction_bytes(ins) == data@ implies false
                        by {
                            assert(instruction_bytes(ins)[0] == data@[0]);
                        }
                        return Err(EchoError::InvalidInstructionData);
                    }
                    if tag == 1 {
                        Ok(
                            EchoInstruction::InitializeAuthorizedEcho {
                                buffer_seed: a,
                                buffer_size: b as usize,
                            },
                        )
                    } else {
                        Ok(
                            EchoInstruction::InitializeVendingMachineEcho {
                                price: a,
                                buffer_size: b as usize,
                            },
                        )
                    }
                },
                None => {
                    assert forall|ins: EchoInstruction|
                        wire_fits(ins) && #[trigger] instruction_bytes(ins) == data@ implies false
                        by {
                        assert(instruction_bytes(ins)[0] == data@[0]);
                    }
                    Err(EchoError::InvalidInstructionData)
                },
            }
        } else {
            assert forall|ins: EchoInstruction|
                wire_fits(ins) && #[trigger] instruction_bytes(ins) == data@ implies false
                        by {
                assert(instruction_bytes(ins)[0] == data@[0]);
            }
            Err(EchoError::InvalidInstructionData)
        }
    }

    /// Appends the wire form of the instruction to `out`; fails, appending
    /// nothing, where a byte string is too long for its four-byte length.
    pub fn serialize(&self, out: &mut Vec<u8>) -> (r: Result<(), EchoError>)
        ensures
            wire_fits(*self) ==> r == Ok::<(), EchoError>(()) && final(out)@ == old(out)@
                + instruction_bytes(*self),
            !wire_fits(*self) ==> r == Err::<(), EchoError>(EchoError::DataTooLong)
                && final(out)@ == old(out)@,
    {
        match self {
            EchoInstruction::Echo { data } => Self::push_tagged_sized(out, 0, data),
            EchoInstruction::InitializeAuthorizedEcho { buffer_seed, buffer_size } => {
                push_tag_and_pair(out, 1, *buffer_seed, *buffer_size as u64);
                assert(out@ =~= old(out)@ + instruction_bytes(*self));
                Ok(())
            },
            EchoInstruction::AuthorizedEcho { data } => Self::push_tagged_sized(out, 2, data),
            EchoInstruction::InitializeVendingMachineEcho { price, buffer_size } => {
                push_tag_and_pair(out, 3, *price, *buffer_size as u64);
                assert(out@ =~= old(out)@ + instruction_bytes(*self));
                Ok(())
            },
            EchoInstruction::VendingMachineEcho { data } => Self::push_tagged_sized(out, 4, data),
        }
    }

    /// Appends a tag byte and a byte string, or nothing where the string is too long.
    fn push_tagged_sized(out: &mut Vec<u8>, tag: u8, data: &Vec<u8>) -> (r: Result<
        (),
        EchoError,
    >)
        ensures
            data@.len() <= u32::MAX ==> r == Ok::<(), EchoError>(()) && final(out)@ == old(out)@
                + (seq![tag] + sized_bytes(data@)),
            data@.len() > u32::MAX ==> r == Err::<(), EchoError>(EchoError::DataTooLong)
                && final(out)@ == old(out)@,
    {
        if data.len() > 0xffff_ffff {
            return Err(EchoError::DataTooLong);
        }
        out.push(tag);
        let r = push_sized(out, data);
        assert(out@ =~= old(out)@ + (seq![tag] + sized_bytes(data@)));
        r
    }
}

} // verus!
