//! Blocks: their contents, their digest and the proof-of-work search.

use crate::clock::unix_millis;
use crate::digest::{sha256, sha256_of};
use crate::encoding::{
    decimal_digits, hex_lower, is_lower_hex, lemma_hex_lower_shape, push_decimal, to_hex_lower,
};
use vstd::prelude::*;
use vstd::utf8::encode_utf8;

verus! {

/// Number of hexadecimal characters in a block digest.
pub const HASH_HEX_LEN: usize = 64;

/// One record of the ledger.
#[derive(Debug, Clone)]
pub struct Block {
    /// Position in the chain; the genesis block has index 0.
    pub index: u32,
    /// Milliseconds since the Unix epoch at creation; informational.
    pub timestamp: u128,
    /// Caller-supplied content.
    pub data: String,
    /// Digest of the preceding block.
    pub previous_hash: String,
    /// Digest of this block, as last computed.
    pub hash: String,
    /// Proof-of-work search variable.
    pub nonce: u64,
}

/// The mathematical content of a [`Block`]: its strings as character
/// sequences.
pub struct BlockView {
    pub index: u32,
    pub timestamp: u128,
    pub data: Seq<char>,
    pub previous_hash: Seq<char>,
    pub hash: Seq<char>,
    pub nonce: u64,
}

impl View for Block {
    type V = BlockView;

    open spec fn view(&self) -> BlockView {
        BlockView {
            index: self.index,
            timestamp: self.timestamp,
            data: self.data@,
            previous_hash: self.previous_hash@,
            hash: self.hash@,
            nonce: self.nonce,
        }
    }
}

/// The bytes that are hashed for a block: the decimal index, the decimal
/// timestamp, the UTF-8 payload, the UTF-8 predecessor digest and the decimal
/// nonce, in this order and without separators.
pub open spec fn preimage(
    index: u32,
    timestamp: u128,
    data: Seq<char>,
    previous_hash: Seq<char>,
    nonce: u64,
) -> Seq<u8> {
    decimal_digits(index as nat) + decimal_digits(timestamp as nat) + encode_utf8(data)
        + encode_utf8(previous_hash) + decimal_digits(nonce as nat)
}

/// The digest of a block with the given contents: the SHA-256 digest of its
/// preimage in lowercase hexadecimal.
pub open spec fn content_hash(
    index: u32,
    timestamp: u128,
    data: Seq<char>,
    previous_hash: Seq<char>,
    nonce: u64,
) -> Seq<char> {
    hex_lower(sha256_of(preimage(index, timestamp, data, previous_hash, nonce))@)
}

fn push_bytes(out: &mut Vec<u8>, bytes: &[u8])
    ensures
        final(out)@ == old(out)@ + bytes@,
{
    let mut i: usize = 0;
    while i < bytes.len()
        invariant
            i <= bytes.len(),
            out@ == old(out)@ + bytes@.take(i as int),
        decreases bytes.len() - i,
    {
        out.push(bytes[i]);
        i += 1;
        assert(out@ =~= old(out)@ + bytes@.take(i as int));
    }
    assert(bytes@.take(i as int) =~= bytes@);
}

/// Serializes block contents into the bytes that are hashed.
pub fn block_preimage(
    index: u32,
    timestamp: u128,
    data: &str,
    previous_hash: &str,
    nonce: u64,
) -> (bytes: Vec<u8>)
    ensures
        bytes@ == preimage(index, timestamp, data@, previous_hash@, nonce),
{
    let mut bytes: Vec<u8> = Vec::new();
    push_decimal(&mut bytes, index as u128);
    push_decimal(&mut bytes, timestamp);
    push_bytes(&mut bytes, data.as_bytes());
    push_bytes(&mut bytes, previous_hash.as_bytes());
    push_decimal(&mut bytes, nonce as u128);
    assert(bytes@ =~= preimage(index, timestamp, data@, previous_hash@, nonce));
    bytes
}

/// Computes the digest of a block with the given contents.
pub fn hash_contents(
    index: u32,
    timestamp: u128,
    data: &str,
    previous_hash: &str,
    nonce: u64,
) -> (hash: String)
    ensures
        hash@ == content_hash(index, timestamp, data@, previous_hash@, nonce),
{
    let bytes = block_preimage(index, timestamp, data, previous_hash, nonce);
    let digest = sha256(bytes.as_slice());
    to_hex_lower(digest.as_slice())
}

/// True when `hash` starts with `difficulty` characters `'0'`. A hash
/// shorter than `difficulty` does not meet the target.
pub open spec fn meets_target(hash: Seq<char>, difficulty: nat) -> bool {
    &&& difficulty <= hash.len()
    &&& forall|i: int| 0 <= i < difficulty ==> hash[i] == '0'
}

/// Decides whether `hash` starts with `difficulty` characters `'0'`.
pub fn has_leading_zeros(hash: &str, difficulty: usize) -> (met: bool)
    ensures
        met == meets_target(hash@, difficulty as nat),
{
    let len = hash.unicode_len();
    if difficulty > len {
        return false;
    }
    let mut i: usize = 0;
    while i < difficulty
        invariant
            i <= difficulty <= len,
            len == hash@.len(),
            forall|j: int| 0 <= j < i ==> hash@[j] == '0',
        decreases difficulty - i,
    {
        if hash.get_char(i) != '0' {
            return false;
        }
        i += 1;
    }
    true
}

/// Why a proof-of-work search ended without a result.
#[derive(Debug, Clone, Copy, PartialEq, Eq)]
pub enum MineError {
    /// The difficulty exceeds the number of characters in a digest, so no
    /// digest can meet it.
    DifficultyTooHigh,
    /// No nonce from the starting one up to `u64::MAX` yields a digest that
    /// meets the target.
    NonceExhausted,
}

/// The block that [`Block::genesis_block`] produces. Its `hash` is a fixed
/// marker, not the digest of its contents.
pub open spec fn genesis_view() -> BlockView {
    BlockView {
        index: 0,
        timestamp: 0,
        data: "Genesis Block"@,
        previous_hash: "0"@,
        hash: "genesis_hash"@,
        nonce: 0,
    }
}

/// A block that has not been mined: nonce 0 and the digest of its contents.
pub open spec fn unmined(
    index: u32,
    timestamp: u128,
    data: Seq<char>,
    previous_hash: Seq<char>,
) -> BlockView {
    BlockView {
        index,
        timestamp,
        data,
        previous_hash,
        hash: content_hash(index, timestamp, data, previous_hash, 0),
        nonce: 0,
    }
}

impl BlockView {
    /// The digest that the contents of this block hash to. The stored `hash`
    /// takes no part in it.
    pub open spec fn digest(self) -> Seq<char> {
        content_hash(self.index, self.timestamp, self.data, self.previous_hash, self.nonce)
    }

    /// This block with its nonce replaced and its hash recomputed.
    pub open spec fn with_nonce(self, nonce: u64) -> BlockView {
        BlockView {
            index: self.index,
            timestamp: self.timestamp,
            data: self.data,
            previous_hash: self.previous_hash,
            hash: content_hash(self.index, self.timestamp, self.data, self.previous_hash, nonce),
            nonce,
        }
    }

    /// True when the digest of this block under `nonce` meets the target.
    pub open spec fn solves(self, difficulty: nat, nonce: u64) -> bool {
        meets_target(
            content_hash(self.index, self.timestamp, self.data, self.previous_hash, nonce),
            difficulty,
        )
    }

    /// True when `nonce` is the least nonce, counting from the current one,
    /// whose digest meets the target.
    pub open spec fn first_solution(self, difficulty: nat, nonce: u64) -> bool {
        &&& self.nonce <= nonce
        &&& self.solves(difficulty, nonce)
        &&& forall|m: u64| self.nonce <= m < nonce ==> !self.solves(difficulty, m)
    }

    /// True when mining this block at `difficulty` ends in `mined`: the nonce
    /// is the first solution from the current nonce on, and the hash is the
    /// digest under that nonce. The hash stored before takes no part in it.
    pub open spec fn mines_to(self, difficulty: nat, mined: BlockView) -> bool {
        &&& self.first_solution(difficulty, mined.nonce)
        &&& mined == self.with_nonce(mined.nonce)
    }
}

/// Two blocks that agree on index, timestamp, payload, predecessor digest
/// and nonce have the same digest, whatever hash each of them stores.
pub proof fn lemma_digest_determined_by_contents(a: BlockView, b: BlockView)
    requires
        a.index == b.index,
        a.timestamp == b.timestamp,
        a.data == b.data,
        a.previous_hash == b.previous_hash,
        a.nonce == b.nonce,
    ensures
        a.digest() == b.digest(),
{
}

/// Every digest has exactly `HASH_HEX_LEN` characters, all of them lowercase
/// hexadecimal digits.
pub proof fn lemma_digest_shape(block: BlockView)
    ensures
        block.digest().len() == HASH_HEX_LEN,
        is_lower_hex(block.digest()),
{
    lemma_hex_lower_shape(
        sha256_of(
            preimage(
                block.index,
                block.timestamp,
                block.data,
                block.previous_hash,
                block.nonce,
            ),
        )@,
    );
}

/// A difficulty above the digest length is met by no nonce at all, which is
/// why mining rejects it before it starts.
pub proof fn lemma_excess_difficulty_unsolvable(block: BlockView, difficulty: nat, nonce: u64)
    requires
        difficulty > HASH_HEX_LEN,
    ensures
        !block.solves(difficulty, nonce),
{
    lemma_digest_shape(block.with_nonce(nonce));
}

/// A hash that meets a target also meets every lower target, and every hash
/// meets the target 0.
pub proof fn lemma_target_monotone(hash: Seq<char>, low: nat, high: nat)
    requires
        low <= high,
        meets_target(hash, high),
    ensures
        meets_target(hash, low),
        meets_target(hash, 0),
{
}

/// Whatever hash a block stored before, after mining its hash is the digest
/// of its contents and meets the target. Mining touches the nonce and the
/// hash alone and never lowers the nonce. At difficulty 0 the nonce stays.
/// A block whose hash already is its digest and meets the target comes out
/// as it went in.
pub proof fn lemma_mined_block_meets_target(before: BlockView, difficulty: nat, after: BlockView)
    requires
        before.mines_to(difficulty, after),
    ensures
        after.hash == after.digest(),
        meets_target(after.hash, difficulty),
        after.index == before.index,
        after.timestamp == before.timestamp,
        after.data == before.data,
        after.previous_hash == before.previous_hash,
        after.nonce >= before.nonce,
        difficulty == 0 ==> after.nonce == before.nonce,
        before.hash == before.digest() && meets_target(before.hash, difficulty) ==> after
            == before,
{
    if after.nonce > before.nonce {
        assert(!before.solves(difficulty, before.nonce));
    }
}

/// Whenever some nonce from the current one on meets the target, there is a
/// first such nonce, so mining has a result. Together with the contract of
/// [`Block::mine_block`] this makes mining succeed exactly on the blocks that
/// can be mined within the nonce space.
pub proof fn lemma_first_solution_exists(block: BlockView, difficulty: nat, nonce: u64)
    requires
        block.nonce <= nonce,
        block.solves(difficulty, nonce),
    ensures
        exists|first: u64| first <= nonce && block.first_solution(difficulty, first),
        exists|mined: BlockView| block.mines_to(difficulty, mined),
    decreases nonce - block.nonce,
{
    if exists|m: u64| block.nonce <= m < nonce && block.solves(difficulty, m) {
        let m = choose|m: u64| block.nonce <= m < nonce && block.solves(difficulty, m);
        lemma_first_solution_exists(block, difficulty, m);
        let first = choose|first: u64| first <= m && block.first_solution(difficulty, first);
        assert(first <= nonce && block.first_solution(difficulty, first));
    } else {
        assert(block.first_solution(difficulty, nonce));
    }
    let first = choose|first: u64| first <= nonce && block.first_solution(difficulty, first);
    assert(block.mines_to(difficulty, block.with_nonce(first)));
}

/// Mining has one result: two outcomes of mining the same block at the same
/// difficulty are the same block.
pub proof fn lemma_mining_result_unique(
    before: BlockView,
    difficulty: nat,
    first: BlockView,
    second: BlockView,
)
    requires
        before.mines_to(difficulty, first),
        before.mines_to(difficulty, second),
    ensures
        first == second,
{
    if first.nonce < second.nonce {
        assert(!before.solves(difficulty, first.nonce));
    } else if second.nonce < first.nonce {
        assert(!before.solves(difficulty, second.nonce));
    }
}

impl Block {
    /// The fixed first block of every chain. It is exempt from proof of work:
    /// its hash is a marker and is never checked.
    pub fn genesis_block() -> (genesis: Block)
        ensures
            genesis@ == genesis_view(),
    {
        Block {
            index: 0,
            timestamp: 0,
            data: "Genesis Block".to_owned(),
            previous_hash: "0".to_owned(),
            hash: "genesis_hash".to_owned(),
            nonce: 0,
        }
    }

    /// Builds an unmined block stamped with `timestamp`: nonce 0 and the
    /// digest of its contents.
    pub fn with_timestamp(index: u32, timestamp: u128, data: String, previous_hash: &str) -> (block:
        Block)
        ensures
            block@ == unmined(index, timestamp, data@, previous_hash@),
    {
        let hash = hash_contents(index, timestamp, data.as_str(), previous_hash, 0);
        Block { index, timestamp, data, previous_hash: previous_hash.to_owned(), hash, nonce: 0 }
    }

    /// Builds an unmined block stamped with the current time. Whatever the
    /// clock reads, the block is the unmined block for that reading.
    pub fn new(index: u32, data: String, previous_hash: &str) -> (block: Block)
        ensures
            block@ == unmined(index, block.timestamp, data@, previous_hash@),
    {
        Block::with_timestamp(index, unix_millis(), data, previous_hash)
    }

    /// Searches for a nonce whose digest starts with `difficulty` characters
    /// `'0'`.
    ///
    /// Nonces are tried in increasing order, the current one first. The first
    /// one whose digest meets the target is stored together with that digest,
    /// so that afterwards the stored hash is the digest of the block. The
    /// hash stored before is not consulted. The expected number of digests
    /// grows as `16^difficulty`.
    ///
    /// A difficulty above [`HASH_HEX_LEN`] is rejected before any digest is
    /// computed. The search gives up only after the nonce `u64::MAX` has
    /// failed. In both cases the block is left untouched.
    pub fn mine_block(&mut self, difficulty: usize) -> (outcome: Result<(), MineError>)
        ensures
            match outcome {
                Ok(_) => {
                    &&& difficulty <= HASH_HEX_LEN
                    &&& old(self)@.mines_to(difficulty as nat, final(self)@)
                },
                Err(MineError::DifficultyTooHigh) => {
                    &&& difficulty > HASH_HEX_LEN
                    &&& final(self)@ == old(self)@
                },
                Err(MineError::NonceExhausted) => {
                    &&& difficulty <= HASH_HEX_LEN
                    &&& forall|n: u64|
                        old(self).nonce <= n ==> !old(self)@.solves(difficulty as nat, n)
                    &&& final(self)@ == old(self)@
                },
            },
            difficulty == 0 ==> outcome is Ok && final(self).nonce == old(self).nonce,
    {
        if difficulty > HASH_HEX_LEN {
            return Err(MineError::DifficultyTooHigh);
        }
        let mut nonce: u64 = self.nonce;
        loop
            invariant
                *self == *old(self),
                difficulty <= HASH_HEX_LEN,
                self.nonce <= nonce,
                forall|m: u64| self.nonce <= m < nonce ==> !self@.solves(difficulty as nat, m),
            decreases u64::MAX - nonce,
        {
            let hash = hash_contents(
                self.index,
                self.timestamp,
                self.data.as_str(),
                self.previous_hash.as_str(),
                nonce,
            );
            if has_leading_zeros(hash.as_str(), difficulty) {
                assert(nonce > self.nonce ==> !self@.solves(difficulty as nat, self.nonce));
                self.nonce = nonce;
                self.hash = hash;
                return Ok(());
            }
            if nonce == u64::MAX {
                return Err(MineError::NonceExhausted);
            }
            nonce += 1;
        }
    }

    /// Recomputes the digest of this block from its index, timestamp,
    /// payload, predecessor digest and nonce.
    pub fn calculate_hash(&self) -> (hash: String)
        ensures
            hash@ == self@.digest(),
    {
        hash_contents(
            self.index,
            self.timestamp,
            self.data.as_str(),
            self.previous_hash.as_str(),
            self.nonce,
        )
    }
}

} // verus!
