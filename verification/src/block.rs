//! Blocks: one sealed transaction each, linked by hash to the block before.

use crate::canon::{transaction_string, transaction_text};
use crate::clock::now_timestamp;
use crate::digest::{digest_text, text_digest};
use crate::model::{Transaction, TransactionView};
use crate::text::{decimal_string, decimal_text, signed_decimal_string, signed_decimal_text};
use vstd::prelude::*;
use vstd::string::*;

verus! {

/// The text that a block's hash covers: index, timestamp, transaction,
/// previous hash and nonce, written one after the other.
pub open spec fn block_preimage(
    index: u64,
    timestamp: i64,
    data: TransactionView,
    previous_hash: Seq<char>,
    nonce: u64,
) -> Seq<char> {
    decimal_text(index as nat) + signed_decimal_text(timestamp as int) + transaction_text(data)
        + previous_hash + decimal_text(nonce as nat)
}

/// The hash of a block with the given fields.
pub open spec fn block_digest(
    index: u64,
    timestamp: i64,
    data: TransactionView,
    previous_hash: Seq<char>,
    nonce: u64,
) -> Seq<char> {
    text_digest(block_preimage(index, timestamp, data, previous_hash, nonce))
}

/// True if `hash` starts with `difficulty` characters `'0'`.
pub open spec fn meets_target(hash: Seq<char>, difficulty: nat) -> bool {
    &&& difficulty <= hash.len()
    &&& forall|i: int| 0 <= i < difficulty ==> hash[i] == '0'
}

/// One sealed transaction with its place in the chain. `hash` covers the
/// other five fields; `nonce` is what mining varies.
#[derive(Debug)]
pub struct Block {
    pub index: u64,
    pub timestamp: i64,
    pub data: Transaction,
    pub previous_hash: String,
    pub hash: String,
    pub nonce: u64,
}

/// What a [`Block`] holds.
pub struct BlockView {
    pub index: u64,
    pub timestamp: i64,
    pub data: TransactionView,
    pub previous_hash: Seq<char>,
    pub hash: Seq<char>,
    pub nonce: u64,
}

impl BlockView {
    /// The hash that these fields give with `nonce` in place of their own.
    pub open spec fn digest_at(self, nonce: u64) -> Seq<char> {
        block_digest(self.index, self.timestamp, self.data, self.previous_hash, nonce)
    }

    /// The stored hash is the hash of the other fields.
    pub open spec fn sealed(self) -> bool {
        self.hash == self.digest_at(self.nonce)
    }

    /// The block that sealing these fields gives: nonce 0 and the hash of
    /// the fields.
    pub open spec fn seal(
        index: u64,
        timestamp: i64,
        data: TransactionView,
        previous_hash: Seq<char>,
    ) -> BlockView {
        BlockView {
            index,
            timestamp,
            data,
            previous_hash,
            hash: block_digest(index, timestamp, data, previous_hash, 0),
            nonce: 0,
        }
    }
}

impl View for Block {
    type V = BlockView;

    open spec fn view(&self) -> BlockView {
        BlockView {
            index: self.index,
            timestamp: self.timestamp,
            data: self.data@,
            previous_hash: self.previous_hash@,
            hash: self.hash@,
            nonce: self.nonce,
        }
    }
}

impl Clone for Block {
    fn clone(&self) -> (r: Self)
        ensures
            r@ == self@,
    {
        Block {
            index: self.index,
            timestamp: self.timestamp,
            data: self.data.clone(),
            previous_hash: self.previous_hash.clone(),
            hash: self.hash.clone(),
            nonce: self.nonce,
        }
    }
}

/// Tells whether `hash` starts with `difficulty` characters `'0'`.
pub fn has_leading_zeros(hash: &str, difficulty: u32) -> (r: bool)
    ensures
        r == meets_target(hash@, difficulty as nat),
{
    let len = hash.unicode_len();
    let wanted = difficulty as usize;
    if wanted > len {
        return false;
    }
    let mut i: usize = 0;
    while i < wanted
        invariant
            i <= wanted <= len,
            wanted == difficulty,
            len == hash@.len(),
            forall|j: int| 0 <= j < i ==> hash@[j] == '0',
        decreases wanted - i,
    {
        if hash.get_char(i) != '0' {
            assert(hash@[i as int] != '0');
            return false;
        }
        i += 1;
    }
    true
}

impl Block {
    /// Seals `data` into a block stamped with the current time.
    ///
    /// Whatever the clock gives, the block is the one that
    /// [`Block::sealed_at`] builds for that time.
    pub fn new(index: u64, data: Transaction, previous_hash: String) -> (b: Block)
        ensures
            b@ == BlockView::seal(index, b.timestamp, data@, previous_hash@),
    {
        Block::sealed_at(index, now_timestamp(), data, previous_hash)
    }

    /// Seals `data` into a block with the given timestamp: nonce 0, and the
    /// hash of the fields.
    pub fn sealed_at(index: u64, timestamp: i64, data: Transaction, previous_hash: String) -> (b:
        Block)
        ensures
            b@ == BlockView::seal(index, timestamp, data@, previous_hash@),
    {
        let mut block = Block {
            index,
            timestamp,
            data,
            previous_hash,
            hash: String::new(),
            nonce: 0,
        };
        block.hash = block.calculate_hash();
        block
    }

    /// Writes the text that the block's hash covers: index, timestamp,
    /// transaction, previous hash and nonce, one after the other.
    pub fn preimage(&self) -> (r: String)
        ensures
            r@ == block_preimage(
                self.index,
                self.timestamp,
                self.data@,
                self.previous_hash@,
                self.nonce,
            ),
    {
        let mut input = decimal_string(self.index);
        input.append(signed_decimal_string(self.timestamp).as_str());
        input.append(transaction_string(&self.data).as_str());
        input.append(self.previous_hash.as_str());
        input.append(decimal_string(self.nonce).as_str());
        input
    }

    /// Computes the hash of the block's fields; the stored hash is not read.
    pub fn calculate_hash(&self) -> (r: String)
        ensures
            r@ == self@.digest_at(self.nonce),
            r@.len() == 64,
    {
        digest_text(self.preimage().as_str())
    }

    /// Tells whether the stored hash is the hash of the other fields.
    pub fn is_sealed(&self) -> (r: bool)
        ensures
            r == self@.sealed(),
    {
        self.calculate_hash() == self.hash
    }

    /// Searches for a nonce whose hash starts with `difficulty` characters
    /// `'0'`.
    ///
    /// A block whose stored hash meets the target already is left as it is.
    /// Otherwise the nonce goes up by one at a time, the hash is recomputed
    /// each time, and the first nonce that meets the target is kept. The
    /// search ends without a match when the nonce reaches `u64::MAX`.
    pub fn mine_block(&mut self, difficulty: u32)
        ensures
            final(self).index == old(self).index,
            final(self).timestamp == old(self).timestamp,
            final(self).data == old(self).data,
            final(self).previous_hash == old(self).previous_hash,
            old(self).nonce <= final(self).nonce,
            final(self).nonce == old(self).nonce ==> final(self).hash == old(self).hash,
            final(self).nonce > old(self).nonce ==> final(self).hash@ == old(self)@.digest_at(
                final(self).nonce,
            ),
            forall|n: u64|
                old(self).nonce < n < final(self).nonce ==> !meets_target(
                    #[trigger] old(self)@.digest_at(n),
                    difficulty as nat,
                ),
            meets_target(old(self).hash@, difficulty as nat) ==> final(self).nonce == old(
                self,
            ).nonce,
            !meets_target(old(self).hash@, difficulty as nat) && old(self).nonce < u64::MAX
                ==> final(self).nonce > old(self).nonce,
            meets_target(final(self).hash@, difficulty as nat) || final(self).nonce == u64::MAX,
    {
        let ghost start = self@;
        let mut found = has_leading_zeros(self.hash.as_str(), difficulty);
        while !found && self.nonce < u64::MAX
            invariant
                self.index == old(self).index,
                self.timestamp == old(self).timestamp,
                self.data == old(self).data,
                self.previous_hash == old(self).previous_hash,
                start == old(self)@,
                start.nonce <= self.nonce,
                self.nonce == start.nonce ==> self.hash == old(self).hash,
                self.nonce > start.nonce ==> self.hash@ == start.digest_at(self.nonce),
                forall|n: u64|
                    start.nonce < n < self.nonce ==> !meets_target(
                        #[trigger] start.digest_at(n),
                        difficulty as nat,
                    ),
                found == meets_target(self.hash@, difficulty as nat),
                found && meets_target(start.hash, difficulty as nat) ==> self.nonce == start.nonce,
                !found ==> !meets_target(start.hash, difficulty as nat) || self.nonce
                    > start.nonce,
                meets_target(start.hash, difficulty as nat) ==> self.nonce == start.nonce,
            decreases u64::MAX - self.nonce,
        {
            self.nonce = self.nonce + 1;
            self.hash = self.calculate_hash();
            found = has_leading_zeros(self.hash.as_str(), difficulty);
        }
    }
}

} // verus!
