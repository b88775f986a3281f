//! Blocks, their digest, and the proof-of-work predicate.

use crate::clock::unix_seconds;
use crate::digest::{digest_hex, sha256_hex};
use crate::render::{decimal, lemma_decimal_is_injective, push_decimal};
use vstd::prelude::*;
use vstd::std_specs::iter::IteratorSpec;
use vstd::string::*;
use vstd::utf8::{encode_utf8, encode_utf8_decode_utf8};

verus! {

/// One entry of a chain.
#[derive(Debug)]
pub struct Block {
    /// What the block records; opaque text.
    pub data: String,
    /// The digest of the other fields as of the last time it was stored;
    /// empty in a block that has not been mined.
    pub hash: String,
    /// Position in the chain; the first block has index zero.
    pub index: u32,
    /// The value that the proof-of-work search varies.
    pub nonce: u64,
    /// The `hash` of the block before this one.
    pub previous_hash: String,
    /// Seconds since the Unix epoch at which the block was made.
    pub timestamp: u64,
}

/// The mathematical content of a [`Block`].
pub struct BlockView {
    pub data: Seq<char>,
    pub hash: Seq<char>,
    pub index: u32,
    pub nonce: u64,
    pub previous_hash: Seq<char>,
    pub timestamp: u64,
}

impl View for Block {
    type V = BlockView;

    open spec fn view(&self) -> BlockView {
        BlockView {
            data: self.data@,
            hash: self.hash@,
            index: self.index,
            nonce: self.nonce,
            previous_hash: self.previous_hash@,
            timestamp: self.timestamp,
        }
    }
}

impl Clone for Block {
    fn clone(&self) -> (copy: Block)
        ensures
            copy@ == self@,
    {
        Block {
            data: self.data.clone(),
            hash: self.hash.clone(),
            index: self.index,
            nonce: self.nonce,
            previous_hash: self.previous_hash.clone(),
            timestamp: self.timestamp,
        }
    }
}

impl BlockView {
    /// The text that is hashed: index, previous hash, timestamp, data and
    /// nonce, in this order, the numbers in decimal, nothing in between.
    pub open spec fn preimage(self) -> Seq<char> {
        decimal(self.index as nat) + self.previous_hash + decimal(self.timestamp as nat)
            + self.data + decimal(self.nonce as nat)
    }

    /// The digest of the block's fields: SHA-256 over the UTF-8 bytes of the
    /// preimage, in lowercase hexadecimal. The `hash` field plays no part.
    pub open spec fn digest(self) -> Seq<char> {
        sha256_hex(encode_utf8(self.preimage()))
    }

    /// Whether the `hash` field is the digest of the current fields.
    pub open spec fn sealed(self) -> bool {
        self.hash == self.digest()
    }

    /// The same block with another nonce.
    pub open spec fn with_nonce(self, nonce: u64) -> BlockView {
        BlockView { nonce, ..self }
    }

    /// The same block with another hash.
    pub open spec fn with_hash(self, hash: Seq<char>) -> BlockView {
        BlockView { hash, ..self }
    }
}

/// Whether `hash` has at least `difficulty` characters and its first
/// `difficulty` characters are all the digit zero.
pub open spec fn meets_difficulty(hash: Seq<char>, difficulty: nat) -> bool {
    &&& difficulty <= hash.len()
    &&& forall|i: int| 0 <= i < difficulty ==> hash[i] == '0'
}

/// The digest is a function of the five hashed fields: two blocks that agree
/// on index, previous hash, timestamp, data and nonce have the same digest,
/// whatever hash each of them stores.
pub proof fn law_digest_is_determined(a: BlockView, b: BlockView)
    requires
        a.index == b.index,
        a.previous_hash == b.previous_hash,
        a.timestamp == b.timestamp,
        a.data == b.data,
        a.nonce == b.nonce,
    ensures
        a.digest() == b.digest(),
{
}

/// A text that is changed in the middle, between the same beginning and the
/// same end, is changed as a whole.
proof fn lemma_middle_matters(head: Seq<char>, a: Seq<char>, b: Seq<char>, tail: Seq<char>)
    requires
        a != b,
    ensures
        head + a + tail != head + b + tail,
{
    if head + a + tail == head + b + tail {
        assert((head + a + tail).len() == (head + b + tail).len());
        assert(a.len() == b.len());
        assert forall|i: int| 0 <= i < a.len() implies a[i] == b[i] by {
            assert((head + a + tail)[head.len() + i] == a[i]);
            assert((head + b + tail)[head.len() + i] == b[i]);
        }
        assert(a =~= b);
    }
}

/// In how many of the five hashed fields two blocks differ.
pub open spec fn hashed_fields_differing(a: BlockView, b: BlockView) -> nat {
    let index: nat = if a.index != b.index { 1 } else { 0 };
    let previous_hash: nat = if a.previous_hash != b.previous_hash { 1 } else { 0 };
    let timestamp: nat = if a.timestamp != b.timestamp { 1 } else { 0 };
    let data: nat = if a.data != b.data { 1 } else { 0 };
    let nonce: nat = if a.nonce != b.nonce { 1 } else { 0 };
    index + previous_hash + timestamp + data + nonce
}

/// Two blocks that differ in exactly one of the five hashed fields are
/// hashed from different bytes. Whether their digests differ as well rests
/// on SHA-256, of which nothing is proved here.
pub proof fn law_one_field_changes_what_is_hashed(a: BlockView, b: BlockView)
    requires
        hashed_fields_differing(a, b) == 1,
    ensures
        a.preimage() != b.preimage(),
        encode_utf8(a.preimage()) != encode_utf8(b.preimage()),
{
    let none = Seq::<char>::empty();
    let a_index = decimal(a.index as nat);
    let b_index = decimal(b.index as nat);
    let a_time = decimal(a.timestamp as nat);
    let b_time = decimal(b.timestamp as nat);
    let a_nonce = decimal(a.nonce as nat);
    let b_nonce = decimal(b.nonce as nat);
    if a.index != b.index {
        if a_index == b_index {
            lemma_decimal_is_injective(a.index as nat, b.index as nat);
        }
        let tail = a.previous_hash + a_time + a.data + a_nonce;
        lemma_middle_matters(none, a_index, b_index, tail);
        assert(a.preimage() =~= none + a_index + tail);
        assert(b.preimage() =~= none + b_index + tail);
    } else if a.previous_hash != b.previous_hash {
        let tail = a_time + a.data + a_nonce;
        lemma_middle_matters(a_index, a.previous_hash, b.previous_hash, tail);
        assert(a.preimage() =~= a_index + a.previous_hash + tail);
        assert(b.preimage() =~= a_index + b.previous_hash + tail);
    } else if a.timestamp != b.timestamp {
        if a_time == b_time {
            lemma_decimal_is_injective(a.timestamp as nat, b.timestamp as nat);
        }
        let head = a_index + a.previous_hash;
        let tail = a.data + a_nonce;
        lemma_middle_matters(head, a_time, b_time, tail);
        assert(a.preimage() =~= head + a_time + tail);
        assert(b.preimage() =~= head + b_time + tail);
    } else if a.data != b.data {
        let head = a_index + a.previous_hash + a_time;
        lemma_middle_matters(head, a.data, b.data, a_nonce);
        assert(a.preimage() =~= head + a.data + a_nonce);
        assert(b.preimage() =~= head + b.data + a_nonce);
    } else {
        if a_nonce == b_nonce {
            lemma_decimal_is_injective(a.nonce as nat, b.nonce as nat);
        }
        let head = a_index + a.previous_hash + a_time + a.data;
        lemma_middle_matters(head, a_nonce, b_nonce, none);
        assert(a.preimage() =~= head + a_nonce + none);
        assert(b.preimage() =~= head + b_nonce + none);
    }
    if encode_utf8(a.preimage()) == encode_utf8(b.preimage()) {
        encode_utf8_decode_utf8(a.preimage());
        encode_utf8_decode_utf8(b.preimage());
    }
}

/// Tests the proof-of-work predicate on a hash.
pub fn has_leading_zeros(hash: &str, difficulty: usize) -> (ok: bool)
    ensures
        ok == meets_difficulty(hash@, difficulty as nat),
{
    broadcast use vstd::string::group_string_axioms;

    let mut chars = hash.chars();
    let mut seen: usize = 0;
    while seen < difficulty
        invariant
            seen <= difficulty,
            seen <= hash@.len(),
            chars.remaining() == hash@.skip(seen as int),
            forall|i: int| 0 <= i < seen ==> hash@[i] == '0',
        decreases difficulty - seen,
    {
        match chars.next() {
            Some(c) => {
                if c != '0' {
                    assert(hash@[seen as int] != '0');
                    return false;
                }
                assert(hash@.skip(seen as int).drop_first() =~= hash@.skip(seen + 1));
                seen += 1;
            },
            None => {
                return false;
            },
        }
    }
    true
}

impl Block {
    /// Makes a block stamped with the current time. Its nonce is zero and
    /// its hash is empty until the block is mined.
    pub fn new(index: u32, previous_hash: String, data: String) -> (block: Block)
        ensures
            block@.index == index,
            block@.previous_hash == previous_hash@,
            block@.data == data@,
            block@.nonce == 0,
            block@.hash == Seq::<char>::empty(),
    {
        Block::with_timestamp(index, previous_hash, data, unix_seconds())
    }

    /// Makes a block stamped with `timestamp`. Its nonce is zero and its
    /// hash is empty until the block is mined.
    pub fn with_timestamp(index: u32, previous_hash: String, data: String, timestamp: u64) -> (block:
        Block)
        ensures
            block@ == (BlockView {
                data: data@,
                hash: Seq::<char>::empty(),
                index,
                nonce: 0,
                previous_hash: previous_hash@,
                timestamp,
            }),
    {
        Block { data, hash: String::new(), index, nonce: 0, previous_hash, timestamp }
    }

    /// Computes the digest of the block's current fields. The stored `hash`
    /// is neither read nor changed.
    pub fn calculate_hash(&self) -> (text: String)
        ensures
            text@ == self@.digest(),
            text@.len() == 64,
    {
        let mut preimage = String::new();
        push_decimal(&mut preimage, self.index as u64);
        preimage.append(self.previous_hash.as_str());
        push_decimal(&mut preimage, self.timestamp);
        preimage.append(self.data.as_str());
        push_decimal(&mut preimage, self.nonce);
        assert(preimage@ =~= self@.preimage());
        digest_hex(preimage.as_str().as_bytes())
    }
}

} // verus!
