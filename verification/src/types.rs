//! Common types used throughout the library.

use vstd::prelude::*;

verus! {

/// The style of a European option: the right to buy (call) or to sell (put).
#[derive(Debug, Clone, Copy, PartialEq, Eq, Structural)]
pub enum OptionType {
    Call,
    Put,
}

impl OptionType {
    /// Reads the two-way choice from a boolean flag: `true` is a call.
    pub fn from_call_flag(is_call: bool) -> (kind: OptionType)
        ensures
            kind == (if is_call { OptionType::Call } else { OptionType::Put }),
    {
        if is_call {
            OptionType::Call
        } else {
            OptionType::Put
        }
    }
}

} // verus!
