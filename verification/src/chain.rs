//! The ledger: an ordered sequence of blocks that grows only by appending
//! mined blocks, and the walk that validates it.

use crate::block::{
    genesis_view, has_leading_zeros, lemma_digest_shape, meets_target, unmined, Block, BlockView,
    MineError, HASH_HEX_LEN,
};
use crate::clock::unix_millis;
use vstd::prelude::*;

verus! {

/// A chain of blocks with the difficulty that every mined block must meet.
pub struct Blockchain {
    /// The blocks in order; the first one is the genesis block.
    pub chain: Vec<Block>,
    /// Number of leading `'0'` characters required of every block hash.
    pub difficulty: usize,
}

/// True when `current` is a sound successor of `previous`: its stored hash is
/// the digest of its contents, it names the hash of `previous`, and its hash
/// meets the target.
pub open spec fn link_valid(previous: BlockView, current: BlockView, difficulty: nat) -> bool {
    &&& current.hash == current.digest()
    &&& current.previous_hash == previous.hash
    &&& meets_target(current.hash, difficulty)
}

/// True when every block after the first is a sound successor of the block
/// before it. The first block is never checked.
pub open spec fn chain_valid(blocks: Seq<BlockView>, difficulty: nat) -> bool {
    forall|i: int|
        1 <= i < blocks.len() ==> link_valid(blocks[i - 1], #[trigger] blocks[i], difficulty)
}

/// True when the chain starts with the genesis block and every block stands
/// at the position that its index names.
pub open spec fn well_formed(blocks: Seq<BlockView>) -> bool {
    &&& blocks.len() > 0
    &&& blocks[0] == genesis_view()
    &&& forall|i: int| 0 <= i < blocks.len() ==> (#[trigger] blocks[i]).index == i
}

/// The unmined block that an append builds on top of `blocks`.
pub open spec fn candidate(blocks: Seq<BlockView>, timestamp: u128, data: Seq<char>) -> BlockView
    recommends
        blocks.len() > 0,
        blocks.last().index < u32::MAX,
{
    unmined((blocks.last().index + 1) as u32, timestamp, data, blocks.last().hash)
}

/// What an append with the given clock reading does to a chain. On success
/// the chain grows by the mined candidate; on failure it is unchanged. The
/// difficulty is rejected exactly when it exceeds the digest length, and the
/// search fails exactly when no nonce of the candidate meets the target.
pub open spec fn append_outcome(
    before: Seq<BlockView>,
    difficulty: nat,
    timestamp: u128,
    data: Seq<char>,
    after: Seq<BlockView>,
    outcome: Result<(), MineError>,
) -> bool {
    let fresh = candidate(before, timestamp, data);
    match outcome {
        Ok(_) => {
            &&& difficulty <= HASH_HEX_LEN
            &&& after.len() == before.len() + 1
            &&& after.drop_last() == before
            &&& fresh.mines_to(difficulty, after.last())
        },
        Err(MineError::DifficultyTooHigh) => {
            &&& difficulty > HASH_HEX_LEN
            &&& after == before
        },
        Err(MineError::NonceExhausted) => {
            &&& difficulty <= HASH_HEX_LEN
            &&& forall|n: u64| !fresh.solves(difficulty, n)
            &&& after == before
        },
    }
}

/// A chain that holds the genesis block alone is well formed and valid at
/// every difficulty.
pub proof fn lemma_genesis_chain_valid(difficulty: nat)
    ensures
        well_formed(seq![genesis_view()]),
        chain_valid(seq![genesis_view()], difficulty),
{
}

/// A successful append adds exactly one block at the end: its index is one
/// above that of the block before it, it names that block's hash, and it
/// carries the payload and timestamp that were given.
pub proof fn lemma_append_grows(
    before: Seq<BlockView>,
    difficulty: nat,
    timestamp: u128,
    data: Seq<char>,
    after: Seq<BlockView>,
)
    requires
        before.len() > 0,
        before.last().index < u32::MAX,
        append_outcome(before, difficulty, timestamp, data, after, Ok(())),
    ensures
        after.len() == before.len() + 1,
        forall|i: int| 0 <= i < before.len() ==> after[i] == before[i],
        after.last().index == before.last().index + 1,
        after.last().previous_hash == before.last().hash,
        after.last().data == data,
        after.last().timestamp == timestamp,
        meets_target(after.last().hash, difficulty),
        after.last().hash == after.last().digest(),
{
    assert forall|i: int| 0 <= i < before.len() implies after[i] == before[i] by {
        assert(after.drop_last()[i] == after[i]);
    }
}

/// An append keeps a valid chain valid and a well-formed chain well formed,
/// whether it succeeds or fails. Together with
/// [`lemma_genesis_chain_valid`] this makes every chain grown from a new one
/// by appends pass validation.
pub proof fn lemma_append_preserves_validity(
    before: Seq<BlockView>,
    difficulty: nat,
    timestamp: u128,
    data: Seq<char>,
    after: Seq<BlockView>,
    outcome: Result<(), MineError>,
)
    requires
        before.len() > 0,
        before.last().index < u32::MAX,
        append_outcome(before, difficulty, timestamp, data, after, outcome),
    ensures
        chain_valid(before, difficulty) ==> chain_valid(after, difficulty),
        well_formed(before) ==> well_formed(after),
{
    if outcome.is_ok() {
        lemma_append_grows(before, difficulty, timestamp, data, after);
    }
}

/// A block after the first whose stored hash is not the digest of its
/// contents makes the chain invalid. This is how a payload, timestamp, index
/// or nonce changed after mining is detected, as long as the change moves the
/// digest.
pub proof fn lemma_stale_hash_breaks_chain(blocks: Seq<BlockView>, difficulty: nat, i: int)
    requires
        1 <= i < blocks.len(),
    ensures
        blocks[i].hash != blocks[i].digest() ==> !chain_valid(blocks, difficulty),
{
}

/// Replacing the payload of a block after the first, without mining it
/// again, makes the chain invalid unless the new contents hash to the stored
/// hash.
pub proof fn lemma_payload_tamper_detected(
    blocks: Seq<BlockView>,
    difficulty: nat,
    i: int,
    data: Seq<char>,
)
    requires
        1 <= i < blocks.len(),
    ensures
        ({
            let block = blocks[i];
            let forged = BlockView {
                index: block.index,
                timestamp: block.timestamp,
                data,
                previous_hash: block.previous_hash,
                hash: block.hash,
                nonce: block.nonce,
            };
            forged.digest() != block.hash ==> !chain_valid(blocks.update(i, forged), difficulty)
        }),
{
    let block = blocks[i];
    let forged = BlockView {
        index: block.index,
        timestamp: block.timestamp,
        data,
        previous_hash: block.previous_hash,
        hash: block.hash,
        nonce: block.nonce,
    };
    assert(blocks.update(i, forged)[i] == forged);
}

/// A block after the first that does not name the hash of the block before
/// it makes the chain invalid.
pub proof fn lemma_broken_link_breaks_chain(blocks: Seq<BlockView>, difficulty: nat, i: int)
    requires
        1 <= i < blocks.len(),
        blocks[i].previous_hash != blocks[i - 1].hash,
    ensures
        !chain_valid(blocks, difficulty),
{
}

/// A block after the first whose hash does not start with `difficulty`
/// characters `'0'` makes the chain invalid at that difficulty, however the
/// block was mined.
pub proof fn lemma_unmet_target_breaks_chain(blocks: Seq<BlockView>, difficulty: nat, i: int)
    requires
        1 <= i < blocks.len(),
        !meets_target(blocks[i].hash, difficulty),
    ensures
        !chain_valid(blocks, difficulty),
{
}

/// A chain that is valid at one difficulty is valid at every lower one.
pub proof fn lemma_valid_at_lower_difficulty(blocks: Seq<BlockView>, low: nat, high: nat)
    requires
        low <= high,
    ensures
        chain_valid(blocks, high) ==> chain_valid(blocks, low),
{
    if chain_valid(blocks, high) {
        assert forall|i: int| 1 <= i < blocks.len() implies link_valid(
            blocks[i - 1],
            #[trigger] blocks[i],
            low,
        ) by {
            assert(link_valid(blocks[i - 1], blocks[i], high));
        }
    }
}

/// A difficulty above the digest length invalidates every chain that holds
/// more than the genesis block.
pub proof fn lemma_excess_difficulty_breaks_chain(blocks: Seq<BlockView>, difficulty: nat)
    requires
        blocks.len() > 1,
        difficulty > HASH_HEX_LEN,
    ensures
        !chain_valid(blocks, difficulty),
{
    if chain_valid(blocks, difficulty) {
        assert(link_valid(blocks[0], blocks[1], difficulty));
        lemma_digest_shape(blocks[1]);
    }
}

impl Blockchain {
    /// The blocks of this chain as mathematical values.
    pub open spec fn blocks(&self) -> Seq<BlockView> {
        self.chain@.map_values(|b: Block| b@)
    }

    /// True when the chain passes validation at its own difficulty.
    pub open spec fn is_valid(&self) -> bool {
        chain_valid(self.blocks(), self.difficulty as nat)
    }

    /// True when the chain starts with the genesis block and its indices
    /// count up from 0.
    pub open spec fn is_well_formed(&self) -> bool {
        well_formed(self.blocks())
    }

    /// Creates a chain that holds the genesis block alone.
    pub fn new(difficulty: usize) -> (ledger: Blockchain)
        ensures
            ledger.difficulty == difficulty,
            ledger.blocks() == seq![genesis_view()],
            ledger.is_well_formed(),
            ledger.is_valid(),
    {
        let mut chain: Vec<Block> = Vec::new();
        chain.push(Block::genesis_block());
        let ledger = Blockchain { chain, difficulty };
        assert(ledger.blocks() =~= seq![genesis_view()]);
        ledger
    }

    /// Appends a block that carries `data`, stamped with `timestamp` and
    /// mined at the difficulty of this chain.
    pub fn add_block_at(&mut self, data: String, timestamp: u128) -> (outcome: Result<
        (),
        MineError,
    >)
        requires
            old(self).blocks().len() > 0,
            old(self).blocks().last().index < u32::MAX,
        ensures
            final(self).difficulty == old(self).difficulty,
            append_outcome(
                old(self).blocks(),
                old(self).difficulty as nat,
                timestamp,
                data@,
                final(self).blocks(),
                outcome,
            ),
            old(self).is_valid() ==> final(self).is_valid(),
            old(self).is_well_formed() ==> final(self).is_well_formed(),
    {
        assert(self.blocks().last() == self.chain@.last()@);
        let last = &self.chain[self.chain.len() - 1];
        let mut block = Block::with_timestamp(last.index + 1, timestamp, data, last.hash.as_str());
        assert(block@ == candidate(self.blocks(), timestamp, data@));
        let outcome = block.mine_block(self.difficulty);
        if outcome.is_ok() {
            self.chain.push(block);
            assert(self.blocks().drop_last() =~= old(self).blocks());
        }
        proof {
            lemma_append_preserves_validity(
                old(self).blocks(),
                self.difficulty as nat,
                timestamp,
                data@,
                self.blocks(),
                outcome,
            );
        }
        outcome
    }

    /// Appends a block that carries `data`, stamped with the current time and
    /// mined at the difficulty of this chain. Whatever the clock reads, the
    /// effect is that of [`Blockchain::add_block_at`] for that reading.
    pub fn add_block(&mut self, data: String) -> (outcome: Result<(), MineError>)
        requires
            old(self).blocks().len() > 0,
            old(self).blocks().last().index < u32::MAX,
        ensures
            final(self).difficulty == old(self).difficulty,
            exists|timestamp: u128|
                append_outcome(
                    old(self).blocks(),
                    old(self).difficulty as nat,
                    timestamp,
                    data@,
                    final(self).blocks(),
                    outcome,
                ),
            old(self).is_valid() ==> final(self).is_valid(),
            old(self).is_well_formed() ==> final(self).is_well_formed(),
    {
        self.add_block_at(data, unix_millis())
    }

    /// Re-derives every check of the chain: the walk passes exactly when
    /// every block after the first stores the digest of its own contents,
    /// names the hash of the block before it, and meets the difficulty.
    pub fn validate(&self) -> (valid: bool)
        ensures
            valid == self.is_valid(),
    {
        let mut i: usize = 1;
        while i < self.chain.len()
            invariant
                1 <= i,
                forall|j: int|
                    1 <= j < i && j < self.blocks().len() ==> link_valid(
                        self.blocks()[j - 1],
                        #[trigger] self.blocks()[j],
                        self.difficulty as nat,
                    ),
            decreases self.chain.len() - i,
        {
            let current = &self.chain[i];
            let previous = &self.chain[i - 1];
            assert(self.blocks()[i as int] == current@);
            assert(self.blocks()[i - 1] == previous@);
            let recomputed = current.calculate_hash();
            if current.hash != recomputed {
                return false;
            }
            if current.previous_hash != previous.hash {
                return false;
            }
            if !has_leading_zeros(current.hash.as_str(), self.difficulty) {
                return false;
            }
            i += 1;
        }
        true
    }
}

} // verus!
