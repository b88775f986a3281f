//! The proof-of-work search: a bounded walk over nonces.

use crate::block::{has_leading_zeros, meets_difficulty, Block, BlockView};
use vstd::prelude::*;

verus! {

/// Where a search stands once a digest has been computed and looked at.
#[derive(Debug, Clone, Copy, PartialEq, Eq, Structural)]
pub enum SearchState {
    /// The digest does not meet the difficulty and effort is left.
    Searching,
    /// The digest meets the difficulty.
    Succeeded,
    /// The digest does not meet the difficulty and the effort is spent.
    FallbackAccepted,
}

/// How a finished search ended, with the hash and nonce it left in the block.
#[derive(Debug, PartialEq, Eq)]
pub enum MineOutcome {
    /// The hash meets the difficulty.
    Succeeded { hash: String, nonce: u64 },
    /// The search gave up after `iterations` digests and kept the last one,
    /// which does not meet the difficulty.
    FallbackAccepted { hash: String, nonce: u64, iterations: u64 },
}

/// The state after the `iterations`-th digest, `hash`, has been computed.
pub open spec fn verdict(
    hash: Seq<char>,
    difficulty: nat,
    iterations: nat,
    effort_cap: nat,
) -> SearchState {
    if meets_difficulty(hash, difficulty) {
        SearchState::Succeeded
    } else if iterations > effort_cap {
        SearchState::FallbackAccepted
    } else {
        SearchState::Searching
    }
}

/// Decides how the search goes on after its `iterations`-th digest.
pub fn judge(hash: &str, difficulty: usize, iterations: u64, effort_cap: u32) -> (state:
    SearchState)
    ensures
        state == verdict(hash@, difficulty as nat, iterations as nat, effort_cap as nat),
{
    if has_leading_zeros(hash, difficulty) {
        SearchState::Succeeded
    } else if iterations > effort_cap as u64 {
        SearchState::FallbackAccepted
    } else {
        SearchState::Searching
    }
}

/// The nonce reached from `start` by `steps` increments; past the largest
/// 64-bit value the count starts again at zero.
pub open spec fn nonce_after(start: u64, steps: nat) -> u64 {
    ((start as nat + steps) % 0x1_0000_0000_0000_0000) as u64
}

/// The block as the search sees it after `steps` increments of the nonce.
pub open spec fn candidate(start: BlockView, steps: nat) -> BlockView {
    start.with_nonce(nonce_after(start.nonce, steps))
}

/// The least number of increments, counted from `from`, after which the
/// candidate's digest meets the difficulty, or `effort_cap` if none up to
/// there does.
pub open spec fn first_hit(start: BlockView, difficulty: nat, from: nat, effort_cap: nat) -> nat
    decreases effort_cap - from,
{
    if from >= effort_cap || meets_difficulty(candidate(start, from).digest(), difficulty) {
        from
    } else {
        first_hit(start, difficulty, from + 1, effort_cap)
    }
}

/// The number of times the search increments the nonce before it stops.
pub open spec fn search_steps(start: BlockView, difficulty: nat, effort_cap: nat) -> nat {
    first_hit(start, difficulty, 0, effort_cap)
}

/// The number of digests that the search computes: one for the nonce it
/// starts at and one after each increment.
pub open spec fn digests_computed(start: BlockView, difficulty: nat, effort_cap: nat) -> nat {
    search_steps(start, difficulty, effort_cap) + 1
}

/// The block that the search leaves behind: the nonce advanced by
/// `search_steps`, the hash the digest at that nonce, all else as before.
pub open spec fn mined(start: BlockView, difficulty: nat, effort_cap: nat) -> BlockView {
    let last = candidate(start, search_steps(start, difficulty, effort_cap));
    last.with_hash(last.digest())
}

impl MineOutcome {
    /// Whether the outcome reports the hash and nonce of `block`, tells
    /// truly whether that hash meets `difficulty`, and, for a fallback,
    /// counts one digest more than `effort_cap`.
    pub open spec fn reports(self, block: BlockView, difficulty: nat, effort_cap: nat) -> bool {
        match self {
            MineOutcome::Succeeded { hash, nonce } => {
                &&& meets_difficulty(block.hash, difficulty)
                &&& hash@ == block.hash
                &&& nonce == block.nonce
            },
            MineOutcome::FallbackAccepted { hash, nonce, iterations } => {
                &&& !meets_difficulty(block.hash, difficulty)
                &&& hash@ == block.hash
                &&& nonce == block.nonce
                &&& iterations == effort_cap + 1
            },
        }
    }
}

/// From any starting point, `first_hit` lands between that point (or
/// `effort_cap`, if the start lies beyond it) and the larger of the two; no
/// candidate before it, from the start on, meets the difficulty; and where
/// it lands short of `effort_cap`, the candidate there does.
pub proof fn lemma_first_hit(start: BlockView, difficulty: nat, from: nat, effort_cap: nat)
    ensures
        from <= first_hit(start, difficulty, from, effort_cap),
        from <= effort_cap ==> first_hit(start, difficulty, from, effort_cap) <= effort_cap,
        forall|j: nat|
            from <= j < first_hit(start, difficulty, from, effort_cap) ==> !meets_difficulty(
                #[trigger] candidate(start, j).digest(),
                difficulty,
            ),
        first_hit(start, difficulty, from, effort_cap) < effort_cap ==> meets_difficulty(
            candidate(start, first_hit(start, difficulty, from, effort_cap)).digest(),
            difficulty,
        ),
    decreases effort_cap - from,
{
    if from >= effort_cap || meets_difficulty(candidate(start, from).digest(), difficulty) {
    } else {
        lemma_first_hit(start, difficulty, from + 1, effort_cap);
    }
}

/// A search never increments the nonce more than `effort_cap` times, so it
/// computes at most `effort_cap + 1` digests, whatever the difficulty and
/// whatever the block holds.
pub proof fn law_search_is_bounded(start: BlockView, difficulty: nat, effort_cap: nat)
    ensures
        search_steps(start, difficulty, effort_cap) <= effort_cap,
        digests_computed(start, difficulty, effort_cap) <= effort_cap + 1,
{
    lemma_first_hit(start, difficulty, 0, effort_cap);
}

/// A search stops at the first candidate whose digest meets the difficulty:
/// no candidate that it passed over does, and where it stops before its
/// effort is spent, the candidate it stops at does.
pub proof fn law_search_stops_at_first_hit(start: BlockView, difficulty: nat, effort_cap: nat)
    ensures
        forall|j: nat|
            j < search_steps(start, difficulty, effort_cap) ==> !meets_difficulty(
                #[trigger] candidate(start, j).digest(),
                difficulty,
            ),
        search_steps(start, difficulty, effort_cap) < effort_cap ==> meets_difficulty(
            mined(start, difficulty, effort_cap).hash,
            difficulty,
        ),
{
    lemma_first_hit(start, difficulty, 0, effort_cap);
}

/// Mining changes the nonce and the hash and nothing else, and leaves the
/// hash equal to the digest of the block.
pub proof fn law_mined_is_sealed(start: BlockView, difficulty: nat, effort_cap: nat)
    ensures
        mined(start, difficulty, effort_cap).sealed(),
        mined(start, difficulty, effort_cap).index == start.index,
        mined(start, difficulty, effort_cap).previous_hash == start.previous_hash,
        mined(start, difficulty, effort_cap).timestamp == start.timestamp,
        mined(start, difficulty, effort_cap).data == start.data,
        mined(start, difficulty, effort_cap).nonce == nonce_after(
            start.nonce,
            search_steps(start, difficulty, effort_cap),
        ),
{
}

/// An outcome that reports on a block says `Succeeded` exactly when the
/// block's hash meets the difficulty, and `FallbackAccepted` exactly when it
/// does not.
pub proof fn law_success_is_exact(
    outcome: MineOutcome,
    block: BlockView,
    difficulty: nat,
    effort_cap: nat,
)
    requires
        outcome.reports(block, difficulty, effort_cap),
    ensures
        outcome is Succeeded <==> meets_difficulty(block.hash, difficulty),
        outcome is FallbackAccepted <==> !meets_difficulty(block.hash, difficulty),
{
}

/// A search that leaves a hash short of the difficulty has spent its whole
/// effort: the nonce has gone through all `effort_cap` increments.
pub proof fn law_fallback_spends_effort(start: BlockView, difficulty: nat, effort_cap: nat)
    requires
        !meets_difficulty(mined(start, difficulty, effort_cap).hash, difficulty),
    ensures
        search_steps(start, difficulty, effort_cap) == effort_cap,
        digests_computed(start, difficulty, effort_cap) == effort_cap + 1,
{
    lemma_first_hit(start, difficulty, 0, effort_cap);
}

impl Block {
    /// Searches for a nonce whose digest meets `difficulty`.
    ///
    /// Starting from the current nonce, the digest is computed and tested;
    /// on a miss the nonce goes up by one. The search stops at the first
    /// digest that meets the difficulty, or after `effort_cap` misses with
    /// the digest of the next nonce, whatever it is. Either way the block
    /// ends with its hash equal to the digest of its fields.
    pub fn mine(&mut self, difficulty: usize, effort_cap: u32) -> (outcome: MineOutcome)
        ensures
            final(self)@ == mined(old(self)@, difficulty as nat, effort_cap as nat),
            final(self)@.sealed(),
            outcome.reports(final(self)@, difficulty as nat, effort_cap as nat),
    {
        let ghost start = self@;
        let mut iterations: u64 = 0;
        loop
            invariant
                start == old(self)@,
                iterations <= effort_cap,
                self@ == candidate(start, iterations as nat),
                first_hit(start, difficulty as nat, 0, effort_cap as nat) == first_hit(
                    start,
                    difficulty as nat,
                    iterations as nat,
                    effort_cap as nat,
                ),
            decreases effort_cap - iterations,
        {
            let ghost misses = iterations as nat;
            let hash = self.calculate_hash();
            iterations += 1;
            match judge(hash.as_str(), difficulty, iterations, effort_cap) {
                SearchState::Succeeded => {
                    self.hash = hash.clone();
                    return MineOutcome::Succeeded { hash, nonce: self.nonce };
                },
                SearchState::FallbackAccepted => {
                    self.hash = hash.clone();
                    return MineOutcome::FallbackAccepted { hash, nonce: self.nonce, iterations };
                },
                SearchState::Searching => {
                    self.nonce = self.nonce.wrapping_add(1);
                    assert(self@ == candidate(start, misses + 1));
                },
            }
        }
    }
}

} // verus!
