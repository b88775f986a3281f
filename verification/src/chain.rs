//! The chain: a genesis block, then mined blocks, each linked to the one
//! before it.

use crate::block::{Block, BlockView};
use crate::clock::unix_seconds;
use crate::mining::{mined, MineOutcome};
use vstd::prelude::*;
use vstd::string::*;

verus! {

/// The number of leading zero digits asked of a hash where nothing else is
/// chosen.
pub const DIFFICULTY: usize = 2;

/// The number of misses after which a search gives up where nothing else is
/// chosen.
pub const EFFORT_CAP: u32 = 100;

/// How long, in milliseconds, a caller is to pause after a search that gave
/// up.
pub const FALLBACK_DELAY_MILLIS: u64 = 3000;

/// The data of every genesis block.
pub open spec fn genesis_data() -> Seq<char> {
    "Genesis block"@
}

/// What the genesis block made at `timestamp` holds: index zero, no previous
/// hash, the fixed data, nonce zero, and as hash the digest of these.
pub open spec fn genesis(timestamp: u64) -> BlockView {
    let bare = BlockView {
        data: genesis_data(),
        hash: Seq::<char>::empty(),
        index: 0,
        nonce: 0,
        previous_hash: Seq::<char>::empty(),
        timestamp,
    };
    bare.with_hash(bare.digest())
}

/// Whether each block but the first names the hash of the block before it.
pub open spec fn linked(blocks: Seq<BlockView>) -> bool {
    forall|i: int| 1 <= i < blocks.len() ==> (#[trigger] blocks[i]).previous_hash == blocks[i - 1].hash
}

/// Whether `blocks` can be the content of a chain: it starts with a genesis
/// block, every hash is the digest of its block, and the blocks are linked.
pub open spec fn well_formed(blocks: Seq<BlockView>) -> bool {
    &&& blocks.len() >= 1
    &&& blocks[0] == genesis(blocks[0].timestamp)
    &&& forall|i: int| 0 <= i < blocks.len() ==> (#[trigger] blocks[i]).sealed()
    &&& linked(blocks)
}

/// The content of a chain after `new_block` has been appended: the block is
/// linked to the last hash, whatever previous hash it came with, then mined,
/// then put at the end.
pub open spec fn appended(
    blocks: Seq<BlockView>,
    new_block: BlockView,
    difficulty: nat,
    effort_cap: nat,
) -> Seq<BlockView> {
    let linked_block = BlockView { previous_hash: blocks.last().hash, ..new_block };
    blocks.push(mined(linked_block, difficulty, effort_cap))
}

/// The content of a chain after the blocks of `new_blocks` have been
/// appended one after the other, the first of them first.
pub open spec fn appended_all(
    blocks: Seq<BlockView>,
    new_blocks: Seq<BlockView>,
    difficulty: nat,
    effort_cap: nat,
) -> Seq<BlockView>
    decreases new_blocks.len(),
{
    if new_blocks.len() == 0 {
        blocks
    } else {
        appended(
            appended_all(blocks, new_blocks.drop_last(), difficulty, effort_cap),
            new_blocks.last(),
            difficulty,
            effort_cap,
        )
    }
}

/// A chain that holds a genesis block and nothing else is well formed.
pub proof fn law_fresh_chain_is_well_formed(timestamp: u64)
    ensures
        well_formed(seq![genesis(timestamp)]),
{
}

/// Appending one block to a well-formed chain makes it one block longer,
/// leaves the blocks that were there as they were, and keeps the chain well
/// formed.
pub proof fn law_append_extends(
    blocks: Seq<BlockView>,
    new_block: BlockView,
    difficulty: nat,
    effort_cap: nat,
)
    requires
        well_formed(blocks),
    ensures
        appended(blocks, new_block, difficulty, effort_cap).len() == blocks.len() + 1,
        appended(blocks, new_block, difficulty, effort_cap).take(blocks.len() as int) == blocks,
        well_formed(appended(blocks, new_block, difficulty, effort_cap)),
{
    let longer = appended(blocks, new_block, difficulty, effort_cap);
    assert(longer.take(blocks.len() as int) =~= blocks);
    assert forall|i: int| 1 <= i < longer.len() implies (#[trigger] longer[i]).previous_hash
        == longer[i - 1].hash by {
        if i < blocks.len() {
            assert(blocks[i].previous_hash == blocks[i - 1].hash);
        }
    }
    assert forall|i: int| 0 <= i < longer.len() implies (#[trigger] longer[i]).sealed() by {
        if i < blocks.len() {
            assert(blocks[i].sealed());
        }
    }
}

/// After `k` blocks have been appended to a well-formed chain, the chain is
/// `k` blocks longer, begins with the blocks that were there, and is well
/// formed.
pub proof fn law_appends_extend(
    blocks: Seq<BlockView>,
    new_blocks: Seq<BlockView>,
    difficulty: nat,
    effort_cap: nat,
)
    requires
        well_formed(blocks),
    ensures
        appended_all(blocks, new_blocks, difficulty, effort_cap).len() == blocks.len()
            + new_blocks.len(),
        appended_all(blocks, new_blocks, difficulty, effort_cap).take(blocks.len() as int)
            == blocks,
        well_formed(appended_all(blocks, new_blocks, difficulty, effort_cap)),
    decreases new_blocks.len(),
{
    if new_blocks.len() > 0 {
        let before = appended_all(blocks, new_blocks.drop_last(), difficulty, effort_cap);
        law_appends_extend(blocks, new_blocks.drop_last(), difficulty, effort_cap);
        law_append_extends(before, new_blocks.last(), difficulty, effort_cap);
        let after = appended(before, new_blocks.last(), difficulty, effort_cap);
        assert(after.take(blocks.len() as int) =~= before.take(blocks.len() as int));
    } else {
        assert(blocks.take(blocks.len() as int) =~= blocks);
    }
}

/// A chain grown from a fresh one by `k` appends holds `1 + k` blocks.
pub proof fn law_chain_growth(
    timestamp: u64,
    new_blocks: Seq<BlockView>,
    difficulty: nat,
    effort_cap: nat,
)
    ensures
        appended_all(seq![genesis(timestamp)], new_blocks, difficulty, effort_cap).len() == 1
            + new_blocks.len(),
{
    law_appends_extend(seq![genesis(timestamp)], new_blocks, difficulty, effort_cap);
}

/// In a chain grown from a fresh one by any number of appends, every block
/// but the first names the hash of the block before it.
pub proof fn law_linkage(
    timestamp: u64,
    new_blocks: Seq<BlockView>,
    difficulty: nat,
    effort_cap: nat,
    i: int,
)
    requires
        1 <= i <= new_blocks.len(),
    ensures
        appended_all(seq![genesis(timestamp)], new_blocks, difficulty, effort_cap)[i].previous_hash
            == appended_all(seq![genesis(timestamp)], new_blocks, difficulty, effort_cap)[i
            - 1].hash,
{
    law_appends_extend(seq![genesis(timestamp)], new_blocks, difficulty, effort_cap);
}

/// In a chain grown from a fresh one by any number of appends, the first
/// block is still the genesis block it began with: index zero, no previous
/// hash, nonce zero, and as hash the plain digest of its fields.
pub proof fn law_genesis_stays(
    timestamp: u64,
    new_blocks: Seq<BlockView>,
    difficulty: nat,
    effort_cap: nat,
)
    ensures
        appended_all(seq![genesis(timestamp)], new_blocks, difficulty, effort_cap)[0] == genesis(
            timestamp,
        ),
        genesis(timestamp).index == 0,
        genesis(timestamp).previous_hash == Seq::<char>::empty(),
        genesis(timestamp).nonce == 0,
        genesis(timestamp).hash == genesis(timestamp).digest(),
{
    let first = seq![genesis(timestamp)];
    let grown = appended_all(first, new_blocks, difficulty, effort_cap);
    law_appends_extend(first, new_blocks, difficulty, effort_cap);
    assert(grown.take(1)[0] == grown[0]);
}

/// In every well-formed chain, every block but the first names the hash of
/// the block before it, every hash is the digest of its block, and the first
/// block is a genesis block.
pub proof fn law_well_formed_chain(blocks: Seq<BlockView>, i: int)
    requires
        well_formed(blocks),
        0 <= i < blocks.len(),
    ensures
        blocks[i].sealed(),
        i >= 1 ==> blocks[i].previous_hash == blocks[i - 1].hash,
        blocks[0].index == 0,
        blocks[0].previous_hash == Seq::<char>::empty(),
        blocks[0].nonce == 0,
{
}

/// An append-only sequence of blocks that begins with a genesis block.
#[derive(Debug)]
pub struct Blockchain {
    chain: Vec<Block>,
    difficulty: usize,
    effort_cap: u32,
}

impl View for Blockchain {
    type V = Seq<BlockView>;

    closed spec fn view(&self) -> Seq<BlockView> {
        self.chain@.map_values(|b: Block| b@)
    }
}

impl Blockchain {
    /// Whether the chain is in order: see [`well_formed`]. Every chain that
    /// this module hands out is, and `add_block` keeps it so.
    pub open spec fn wf(&self) -> bool {
        well_formed(self@)
    }

    /// The difficulty that every search of this chain runs at.
    pub closed spec fn spec_difficulty(&self) -> usize {
        self.difficulty
    }

    /// The effort after which every search of this chain gives up.
    pub closed spec fn spec_effort_cap(&self) -> u32 {
        self.effort_cap
    }

    /// Makes a chain that holds a genesis block stamped with the current
    /// time, and mines at `DIFFICULTY` with `EFFORT_CAP`.
    pub fn new() -> (chain: Blockchain)
        ensures
            chain@.len() == 1,
            chain@[0] == genesis(chain@[0].timestamp),
            chain.wf(),
            chain.spec_difficulty() == DIFFICULTY,
            chain.spec_effort_cap() == EFFORT_CAP,
    {
        Blockchain::starting_at(unix_seconds(), DIFFICULTY, EFFORT_CAP)
    }

    /// Makes a chain that holds a genesis block stamped with `timestamp`,
    /// and mines at `difficulty` with `effort_cap`. The genesis block is not
    /// mined: its hash is the digest of its fields at nonce zero.
    pub fn starting_at(timestamp: u64, difficulty: usize, effort_cap: u32) -> (chain: Blockchain)
        ensures
            chain@ == seq![genesis(timestamp)],
            chain.wf(),
            chain.spec_difficulty() == difficulty,
            chain.spec_effort_cap() == effort_cap,
    {
        let mut first = Block::with_timestamp(
            0,
            String::new(),
            String::from_str("Genesis block"),
            timestamp,
        );
        first.hash = first.calculate_hash();
        let mut chain: Vec<Block> = Vec::new();
        chain.push(first);
        assert(chain@.map_values(|b: Block| b@) =~= seq![genesis(timestamp)]);
        Blockchain { chain, difficulty, effort_cap }
    }

    /// Links `new_block` to the last block, mines it and puts it at the end
    /// of the chain. The previous hash that `new_block` came with is
    /// discarded. Tells how the search ended.
    pub fn add_block(&mut self, new_block: Block) -> (outcome: MineOutcome)
        requires
            old(self).wf(),
        ensures
            final(self)@ == appended(
                old(self)@,
                new_block@,
                old(self).spec_difficulty() as nat,
                old(self).spec_effort_cap() as nat,
            ),
            final(self).wf(),
            final(self).spec_difficulty() == old(self).spec_difficulty(),
            final(self).spec_effort_cap() == old(self).spec_effort_cap(),
            outcome.reports(
                final(self)@.last(),
                old(self).spec_difficulty() as nat,
                old(self).spec_effort_cap() as nat,
            ),
    {
        let mut block = new_block;
        let tail = self.chain.len() - 1;
        block.previous_hash = self.chain[tail].hash.clone();
        let outcome = block.mine(self.difficulty, self.effort_cap);
        self.chain.push(block);
        assert(self@ =~= appended(
            old(self)@,
            new_block@,
            old(self).spec_difficulty() as nat,
            old(self).spec_effort_cap() as nat,
        ));
        outcome
    }

    /// The difficulty that every search of this chain runs at.
    #[verifier::when_used_as_spec(spec_difficulty)]
    pub fn difficulty(&self) -> (difficulty: usize)
        ensures
            difficulty == self.spec_difficulty(),
    {
        self.difficulty
    }

    /// The effort after which every search of this chain gives up.
    #[verifier::when_used_as_spec(spec_effort_cap)]
    pub fn effort_cap(&self) -> (effort_cap: u32)
        ensures
            effort_cap == self.spec_effort_cap(),
    {
        self.effort_cap
    }

    /// The block at position `index`, if the chain is that long.
    pub fn get_block(&self, index: usize) -> (block: Option<&Block>)
        ensures
            index < self@.len() ==> (block matches Some(b) && b@ == self@[index as int]),
            index >= self@.len() ==> block is None,
    {
        if index < self.chain.len() {
            Some(&self.chain[index])
        } else {
            None
        }
    }

    /// The last block of the chain.
    pub fn last_block(&self) -> (block: &Block)
        requires
            self.wf(),
        ensures
            block@ == self@.last(),
    {
        &self.chain[self.chain.len() - 1]
    }

    /// The number of blocks in the chain, the genesis block included.
    pub fn get_total_blocks(&self) -> (total: usize)
        ensures
            total == self@.len(),
    {
        self.chain.len()
    }
}

} // verus!
