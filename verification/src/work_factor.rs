//! The cost parameter of bcrypt.

use crate::kdf::supported_log_rounds;
use vstd::prelude::*;

verus! {

/// A bcrypt work factor: the base-2 logarithm of the number of rounds, which
/// is between 4 and 31.
#[derive(Clone, Copy, Debug, PartialEq, Eq, Hash, PartialOrd, Ord)]
pub struct WorkFactor {
    log_rounds: u32,
}

impl View for WorkFactor {
    type V = int;

    /// The base-2 logarithm of the number of rounds.
    closed spec fn view(&self) -> int {
        self.log_rounds as int
    }
}

impl WorkFactor {
    #[verifier::type_invariant]
    spec fn supported(self) -> bool {
        4 <= self.log_rounds <= 31
    }

    /// The work factor of 2 to the power of `log_rounds` rounds, where the key
    /// derivation supports it: from 4 to 31.
    pub fn exp(log_rounds: u32) -> (r: Option<WorkFactor>)
        ensures
            r is Some <==> 4 <= log_rounds <= 31,
            r matches Some(w) ==> w@ == log_rounds,
    {
        match supported_log_rounds(log_rounds) {
            Some(n) => Some(WorkFactor { log_rounds: n }),
            None => None,
        }
    }

    /// The base-2 logarithm of the number of rounds.
    pub fn log_rounds(self) -> (n: u32)
        ensures
            n == self@,
            4 <= n <= 31,
    {
        proof {
            use_type_invariant(&self);
        }
        self.log_rounds
    }
}

} // verus!
