//! How far the rules may go.
use vstd::prelude::*;

verus! {

/// How far the rules may go from what the source text says to what its author is likely
/// to have written.
#[derive(Clone, Copy, PartialEq, Eq, PartialOrd, Ord, Debug, Structural)]
pub enum RewriteLevel {
    /// Rewrites that keep the meaning of every program.
    Minimal,
    /// Rewrites that undo what common tools emit.
    Standard,
    /// Rewrites that also assume that programs are well behaved.
    Aggressive,
}

impl RewriteLevel {
    /// The place of the level in their order, from 0 up.
    #[verifier::allow_in_spec]
    pub fn rank(self) -> u8
        returns
            (match self {
                RewriteLevel::Minimal => 0u8,
                RewriteLevel::Standard => 1u8,
                RewriteLevel::Aggressive => 2u8,
            }),
    {
        match self {
            RewriteLevel::Minimal => 0,
            RewriteLevel::Standard => 1,
            RewriteLevel::Aggressive => 2,
        }
    }
}

/// Each level goes further than those before it, and the first one is at the place 0.
pub proof fn law_levels_are_ordered()
    ensures
        RewriteLevel::Minimal.rank() == 0,
        RewriteLevel::Standard.rank() == RewriteLevel::Minimal.rank() + 1,
        RewriteLevel::Aggressive.rank() == RewriteLevel::Standard.rank() + 1,
{
}

} // verus!
