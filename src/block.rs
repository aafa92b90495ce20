//! A single block: its fields, its content hash and the proof-of-work test.
use crate::decimal::{dec_int, dec_nat, push_decimal, push_signed_decimal};
use crypto::digest::Digest;
use vstd::prelude::*;
use vstd::string::*;

verus! {

/// The SHA-256 digest of the UTF-8 encoding of `s`, as 64 lower-case hexadecimal digits.
pub uninterp spec fn sha256_hex(s: Seq<char>) -> Seq<char>;

/// A bound on the length, in characters, of a text handed to the hasher. The hasher
/// counts the message length in bits in a `u64` and panics when that count would
/// overflow; a character takes at most four bytes in UTF-8, so a text under this
/// bound stays under 2^61 bytes.
pub open spec fn hash_input_limit() -> nat {
    0x0800_0000_0000_0000
}

/// Relies on rust-crypto's `Sha256` with `Digest::input_str` and `Digest::result_str`:
/// the digest of the text's UTF-8 bytes, rendered as 64 hexadecimal digits.
#[verifier::external_body]
fn sha256_hex_of(s: &str) -> (r: String)
    requires
        s@.len() < hash_input_limit(),
    ensures
        r@ == sha256_hex(s@),
        r@.len() == 64,
{
    let mut hasher = crypto::sha2::Sha256::new();
    hasher.input_str(s);
    hasher.result_str()
}

/// The starting difficulty of a genesis block.
pub const GENESIS_DIFFICULTY: usize = 2;

/// One record of the chain.
#[derive(Clone, Debug)]
pub struct Block {
    index: usize,
    previous_hash: String,
    timestamp: u128,
    data: String,
    nonce: i64,
    /// The number of leading `'0'` digits that this block's hash must have.
    pub difficulty: usize,
}

/// The text that is hashed for a block with these fields: index, timestamp and
/// nonce in decimal, then the previous hash and the payload, with no separators.
pub open spec fn block_text(
    index: usize,
    timestamp: u128,
    nonce: int,
    previous_hash: Seq<char>,
    data: Seq<char>,
) -> Seq<char> {
    dec_nat(index as nat) + dec_nat(timestamp as nat) + dec_int(nonce) + previous_hash + data
}

/// A block with these fields can be hashed, and its hash starts with `difficulty` zeros.
pub open spec fn nonce_works(
    index: usize,
    timestamp: u128,
    nonce: int,
    previous_hash: Seq<char>,
    data: Seq<char>,
    difficulty: usize,
) -> bool {
    let text = block_text(index, timestamp, nonce, previous_hash, data);
    text.len() < hash_input_limit() && zero_prefix(sha256_hex(text), difficulty as nat)
}

/// The text that is hashed for a block.
pub open spec fn preimage(b: Block) -> Seq<char> {
    block_text(
        b.spec_index(),
        b.spec_timestamp(),
        b.spec_nonce() as int,
        b.spec_previous_hash(),
        b.spec_data(),
    )
}

/// Whether the hasher accepts the block's text (it is short enough).
pub open spec fn hashable(b: Block) -> bool {
    preimage(b).len() < hash_input_limit()
}

/// The block's hash.
pub open spec fn block_hash(b: Block) -> Seq<char> {
    sha256_hex(preimage(b))
}

/// `h` starts with at least `d` characters `'0'`.
pub open spec fn zero_prefix(h: Seq<char>, d: nat) -> bool {
    d <= h.len() && forall|i: int| 0 <= i < d ==> h[i] == '0'
}

/// The block can be hashed and its hash meets its own difficulty.
pub open spec fn proof_of_work(b: Block) -> bool {
    nonce_works(
        b.spec_index(),
        b.spec_timestamp(),
        b.spec_nonce() as int,
        b.spec_previous_hash(),
        b.spec_data(),
        b.spec_difficulty(),
    )
}

/// The hash of a block is a function of its index, timestamp, nonce, previous
/// hash and payload alone: two blocks that agree on these have the same hash.
pub proof fn lemma_hash_determined_by_content(a: Block, b: Block)
    requires
        a.spec_index() == b.spec_index(),
        a.spec_timestamp() == b.spec_timestamp(),
        a.spec_nonce() == b.spec_nonce(),
        a.spec_previous_hash() == b.spec_previous_hash(),
        a.spec_data() == b.spec_data(),
    ensures
        hashable(a) == hashable(b),
        block_hash(a) == block_hash(b),
{
}

/// Whether `h` starts with `d` characters `'0'`.
pub fn has_zero_prefix(h: &String, d: usize) -> (r: bool)
    ensures
        r == zero_prefix(h@, d as nat),
{
    let s = h.as_str();
    let n = s.unicode_len();
    if d > n {
        return false;
    }
    let mut i: usize = 0;
    while i < d
        invariant
            d <= n,
            n == h@.len(),
            s@ == h@,
            i <= d,
            forall|j: int| 0 <= j < i ==> h@[j] == '0',
        decreases d - i,
    {
        if s.get_char(i) != '0' {
            return false;
        }
        i = i + 1;
    }
    true
}

impl Block {
    /// A block with the given fields; nothing is hashed.
    pub fn new(
        index: usize,
        previous_hash: String,
        timestamp: u128,
        data: String,
        nonce: i64,
        difficulty: usize,
    ) -> (r: Block)
        ensures
            r.spec_index() == index,
            r.spec_previous_hash() == previous_hash@,
            r.spec_timestamp() == timestamp,
            r.spec_data() == data@,
            r.spec_nonce() == nonce,
            r.spec_difficulty() == difficulty,
    {
        Block { index, previous_hash, timestamp, data, nonce, difficulty }
    }

    /// The first block of a chain: index 0, no previous hash, nonce 0.
    pub fn new_genesis(time: u128, data: String, difficulty: usize) -> (r: Block)
        ensures
            r.spec_index() == 0,
            r.spec_previous_hash() == Seq::<char>::empty(),
            r.spec_timestamp() == time,
            r.spec_data() == data@,
            r.spec_nonce() == 0,
            r.spec_difficulty() == difficulty,
    {
        Block::new(0, String::new(), time, data, 0, difficulty)
    }

    /// The same block with another nonce.
    pub fn with_nonce(self, nonce: i64) -> (r: Block)
        ensures
            r.spec_index() == self.spec_index(),
            r.spec_previous_hash() == self.spec_previous_hash(),
            r.spec_timestamp() == self.spec_timestamp(),
            r.spec_data() == self.spec_data(),
            r.spec_nonce() == nonce,
            r.spec_difficulty() == self.spec_difficulty(),
    {
        let mut b = self;
        b.nonce = nonce;
        b
    }

    /// The block's position in its chain.
    pub closed spec fn spec_index(&self) -> usize {
        self.index
    }

    /// The hash of the block before it; empty for a genesis block.
    pub closed spec fn spec_previous_hash(&self) -> Seq<char> {
        self.previous_hash@
    }

    /// Milliseconds since the epoch at which the block was made.
    pub closed spec fn spec_timestamp(&self) -> u128 {
        self.timestamp
    }

    /// The payload.
    pub closed spec fn spec_data(&self) -> Seq<char> {
        self.data@
    }

    /// The proof-of-work counter.
    pub closed spec fn spec_nonce(&self) -> i64 {
        self.nonce
    }

    /// The number of leading `'0'` digits that the block's hash must have.
    pub closed spec fn spec_difficulty(&self) -> usize {
        self.difficulty
    }

    /// The number of leading `'0'` digits that the block's hash must have.
    pub fn difficulty(&self) -> (r: usize)
        ensures
            r == self.spec_difficulty(),
    {
        self.difficulty
    }

    /// The block's position in its chain.
    pub fn index(&self) -> (r: usize)
        ensures
            r == self.spec_index(),
    {
        self.index
    }

    /// The hash of the block before it; empty for a genesis block.
    pub fn previous_hash(&self) -> (r: &String)
        ensures
            r@ == self.spec_previous_hash(),
    {
        &self.previous_hash
    }

    /// Milliseconds since the epoch at which the block was made.
    pub fn timestamp(&self) -> (r: u128)
        ensures
            r == self.spec_timestamp(),
    {
        self.timestamp
    }

    /// The payload.
    pub fn data(&self) -> (r: &String)
        ensures
            r@ == self.spec_data(),
    {
        &self.data
    }

    /// The proof-of-work counter.
    pub fn nonce(&self) -> (r: i64)
        ensures
            r == self.spec_nonce(),
    {
        self.nonce
    }

    /// The text that is hashed.
    pub fn preimage(&self) -> (r: String)
        ensures
            r@ == preimage(*self),
    {
        let mut s = String::new();
        push_decimal(&mut s, self.index as u128);
        push_decimal(&mut s, self.timestamp);
        push_signed_decimal(&mut s, self.nonce);
        s.append(self.previous_hash.as_str());
        s.append(self.data.as_str());
        assert(s@ =~= preimage(*self));
        s
    }

    /// The hash of a block whose text the hasher accepts.
    pub fn hash(&self) -> (r: String)
        requires
            hashable(*self),
        ensures
            r@ == block_hash(*self),
    {
        let s = self.preimage();
        sha256_hex_of(s.as_str())
    }

    /// The hash, or `None` where the block's text is too long for the hasher.
    pub fn try_hash(&self) -> (r: Option<String>)
        ensures
            r is Some <==> hashable(*self),
            r is Some ==> r->0@ == block_hash(*self),
    {
        let s = self.preimage();
        let len = s.as_str().unicode_len();
        if (len as u64) < 0x0800_0000_0000_0000u64 {
            Some(sha256_hex_of(s.as_str()))
        } else {
            None
        }
    }

    /// Whether the block can be hashed and its hash starts with `difficulty` zeros.
    pub fn meets_difficulty(&self) -> (r: bool)
        ensures
            r == proof_of_work(*self),
    {
        match self.try_hash() {
            Some(h) => has_zero_prefix(&h, self.difficulty),
            None => false,
        }
    }
}

} // verus!
