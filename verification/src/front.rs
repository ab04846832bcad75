//! What the command line decides before the emulator runs, and what the
//! process returns after it.
use vstd::prelude::*;
use crate::emulator::ExitReason;
use crate::error::Error;
use crate::insn::InsnSet;

verus! {

/// The families of system calls that a guest may be built for.
#[derive(Debug, Clone, Copy, PartialEq, Eq, Structural)]
pub enum Syscall {
    Glibc,
    Newlib,
    Minilib,
}

impl Syscall {
    /// Only the minimal library has a handler that serves calls.
    pub open spec fn is_implemented_spec(self) -> bool {
        self is Minilib
    }

    #[verifier::when_used_as_spec(is_implemented_spec)]
    pub fn is_implemented(self) -> (r: bool)
        ensures
            r == self.is_implemented_spec(),
    {
        match self {
            Syscall::Minilib => true,
            _ => false,
        }
    }

    /// Refuses a family that has no handler.
    pub fn check(self) -> (r: Result<(), Error>)
        ensures
            r == if self.is_implemented() {
                Ok::<(), Error>(())
            } else {
                Err::<(), Error>(Error::SyscallFamilyUnimplemented)
            },
    {
        if self.is_implemented() {
            Ok(())
        } else {
            Err(Error::SyscallFamilyUnimplemented)
        }
    }
}

/// The instruction sets that the letters name, each once, in the order in
/// which they first occur.
pub open spec fn sets_of(letters: Seq<char>) -> Seq<InsnSet>
    decreases letters.len(),
{
    if letters.len() == 0 {
        Seq::empty()
    } else {
        let head = sets_of(letters.drop_last());
        match InsnSet::of_letter(letters.last()) {
            Some(set) => if head.contains(set) {
                head
            } else {
                head.push(set)
            },
            None => head,
        }
    }
}

/// The first of the letters that names no instruction set.
pub open spec fn first_unknown(letters: Seq<char>) -> Option<char>
    decreases letters.len(),
{
    if letters.len() == 0 {
        None
    } else {
        match first_unknown(letters.drop_last()) {
            Some(c) => Some(c),
            None => if InsnSet::of_letter(letters.last()) is None {
                Some(letters.last())
            } else {
                None
            },
        }
    }
}

/// Reads an ISA string, one letter for each instruction set. A letter
/// that names no set is an error; a set that is named twice counts once.
pub fn parse_isa(letters: &[char]) -> (r: Result<Vec<InsnSet>, Error>)
    ensures
        match r {
            Ok(sets) => first_unknown(letters@) is None && sets@ == sets_of(letters@),
            Err(e) => first_unknown(letters@) matches Some(c) && e == Error::UnknownInsnSet(c),
        },
{
    let mut sets: Vec<InsnSet> = Vec::new();
    let mut i: usize = 0;
    assert(letters@.subrange(0, 0) =~= Seq::<char>::empty());
    while i < letters.len()
        invariant
            0 <= i <= letters@.len(),
            first_unknown(letters@.subrange(0, i as int)) is None,
            sets@ == sets_of(letters@.subrange(0, i as int)),
        decreases letters@.len() - i,
    {
        let ghost head = letters@.subrange(0, i as int);
        let ghost next = letters@.subrange(0, i + 1);
        assert(next.drop_last() =~= head);
        assert(next.last() == letters@[i as int]);
        match InsnSet::from_letter(letters[i]) {
            Some(set) => {
                let mut known = false;
                let mut j: usize = 0;
                while j < sets.len()
                    invariant
                        0 <= j <= sets@.len(),
                        known == sets@.subrange(0, j as int).contains(set),
                    decreases sets@.len() - j,
                {
                    let ghost seen = sets@.subrange(0, j as int);
                    if sets[j] == set {
                        known = true;
                    }
                    proof {
                        let more = sets@.subrange(0, j + 1);
                        assert(more.drop_last() =~= seen);
                        if more.contains(set) {
                            let k = choose|k: int| 0 <= k < more.len() && more[k] == set;
                            if k < j {
                                assert(seen[k] == set);
                            }
                        }
                        if seen.contains(set) {
                            let k = choose|k: int| 0 <= k < seen.len() && seen[k] == set;
                            assert(more[k] == set);
                        }
                        if sets@[j as int] == set {
                            assert(more[j as int] == set);
                        }
                    }
                    j += 1;
                }
                assert(sets@.subrange(0, j as int) =~= sets@);
                if !known {
                    sets.push(set);
                }
            },
            None => {
                proof {
                    lemma_first_unknown_stays(letters@, i + 1);
                }
                return Err(Error::UnknownInsnSet(letters[i]));
            },
        }
        i += 1;
    }
    assert(letters@.subrange(0, i as int) =~= letters@);
    Ok(sets)
}

/// A letter that names no set among the first `k` is the first such
/// letter of the whole string too.
pub proof fn lemma_first_unknown_stays(letters: Seq<char>, k: int)
    requires
        0 <= k <= letters.len(),
        first_unknown(letters.subrange(0, k)) is Some,
    ensures
        first_unknown(letters) == first_unknown(letters.subrange(0, k)),
    decreases letters.len() - k,
{
    if k < letters.len() {
        assert(letters.drop_last().subrange(0, k) =~= letters.subrange(0, k));
        lemma_first_unknown_stays(letters.drop_last(), k);
    } else {
        assert(letters.subrange(0, k) =~= letters);
    }
}

/// The size of a stack of `kib` KiB in bytes, where that is a number the
/// host can hold.
pub fn stack_bytes(kib: usize) -> (r: Option<usize>)
    ensures
        r == if kib * 1024 <= usize::MAX {
            Some((kib * 1024) as usize)
        } else {
            None
        },
{
    kib.checked_mul(1024)
}

/// The exit status of the process for the way a run ended: the status of
/// the guest where it exited, 0 where the run stopped for another reason,
/// and the number of the error where it failed.
pub open spec fn exit_status(outcome: Result<ExitReason, Error>) -> i32 {
    match outcome {
        Ok(ExitReason::Exited(code)) => code as i32,
        Ok(_) => 0,
        Err(e) => e.exit_code_spec() as i32,
    }
}

pub fn process_exit_code(outcome: Result<ExitReason, Error>) -> (r: i32)
    ensures
        r == exit_status(outcome),
{
    match outcome {
        Ok(ExitReason::Exited(code)) => code as i32,
        Ok(_) => 0,
        Err(e) => e.exit_code() as i32,
    }
}

} // verus!
