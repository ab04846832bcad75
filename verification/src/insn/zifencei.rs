//! The instruction-fetch fence, which has nothing to do here.
use vstd::prelude::*;
use crate::error::Error;
use crate::insn::{
    claimed, lemma_encoding_fields, Decoder, Encoding, Executor, Instruction, InsnType,
};

verus! {

/// The one instruction word that the decoder claims: `fence.i`.
pub const ZIFENCEI_INSN: u32 = 0x0000100f;

#[derive(Debug)]
pub struct ZifenceiDecoder;

/// `fence.i` for the one word that encodes it.
pub open spec fn zifencei_executor(raw: u32) -> Option<Executor> {
    if raw == ZIFENCEI_INSN {
        Some(Executor::FenceI)
    } else {
        None
    }
}

/// The decoder claims an instruction word just when every bit of it is
/// that of `fence.i`.
pub proof fn lemma_zifencei_encoding(raw: u32)
    ensures
        zifencei_executor(raw) == Some(Executor::FenceI) <==> Encoding::Word(
            ZIFENCEI_INSN,
        ).matches_word(raw),
{
    lemma_encoding_fields(Encoding::Word(ZIFENCEI_INSN), raw);
}

impl Decoder for ZifenceiDecoder {
    /// The decoder makes of a word what `zifencei_executor` claims it for, read
    /// in the form of the operation.
    open spec fn decodes(
        &self,
        insn_raw: u32,
        r: Result<Option<(Instruction, Executor)>, Error>,
    ) -> bool {
        r == claimed(insn_raw, zifencei_executor(insn_raw))
    }

    fn decode(&self, insn_raw: u32) -> (r: Result<Option<(Instruction, Executor)>, Error>) {
        if insn_raw == ZIFENCEI_INSN {
            Ok(Some((Instruction::parse(insn_raw, InsnType::I), Executor::FenceI)))
        } else {
            Ok(None)
        }
    }
}

} // verus!
