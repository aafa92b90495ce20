//! The chain: block admission by proof-of-work mining, the difficulty retarget
//! rule, whole-chain validation and the aggregate work score.
use crate::block::{
    block_hash, hashable, nonce_works, proof_of_work, Block, GENESIS_DIFFICULTY,
};
use vstd::prelude::*;

verus! {

/// The difficulty is reconsidered once every this many blocks.
pub const RETARGET_INTERVAL: usize = 10;

/// The time, in milliseconds, that one retarget window is expected to take.
pub const EXPECTED_WINDOW_MILLIS: u128 = 50;

/// Why a block could not be added.
#[derive(Clone, Copy, Debug, PartialEq, Eq, Structural)]
pub enum AddError {
    /// The last block's text is too long to be hashed, so nothing can link to it.
    MessageTooLong,
    /// No nonce from 0 to `i64::MAX` gives a hash that meets the difficulty.
    NonceSpaceExhausted,
}

/// Block `i` (at least 1) links to block `i - 1`, sits at its position and
/// carries a valid proof of work.
pub open spec fn linked(bs: Seq<Block>, i: int) -> bool {
    &&& hashable(bs[i - 1])
    &&& bs[i].spec_previous_hash() == block_hash(bs[i - 1])
    &&& bs[i].spec_index() == i
    &&& proof_of_work(bs[i])
}

/// What `validate` accepts: a chain of at most one block, or one whose first
/// block has index 0 and whose every later block is linked.
pub open spec fn chain_valid(bs: Seq<Block>) -> bool {
    bs.len() <= 1 || (bs[0].spec_index() == 0 && forall|i: int| 1 <= i < bs.len() ==> linked(bs, i))
}

/// The difficulty that the next block gets after the blocks `bs` (not empty).
/// Each time the last block's index is a positive multiple of the interval, the
/// time since the block one interval earlier is compared with the expected
/// window: under half of it raises the difficulty by one, over twice it lowers
/// it by one (never below 0).
pub open spec fn next_difficulty(bs: Seq<Block>) -> usize
    recommends
        bs.len() > 0,
{
    let last = bs.last();
    let d = last.spec_difficulty();
    if last.spec_index() % RETARGET_INTERVAL == 0 && last.spec_index() != 0 {
        let earlier = bs[last.spec_index() - RETARGET_INTERVAL];
        let passed = last.spec_timestamp() - earlier.spec_timestamp();
        if passed < EXPECTED_WINDOW_MILLIS / 2 {
            if d < usize::MAX {
                (d + 1) as usize
            } else {
                d
            }
        } else if passed > EXPECTED_WINDOW_MILLIS * 2 {
            if d > 0 {
                (d - 1) as usize
            } else {
                0
            }
        } else {
            d
        }
    } else {
        d
    }
}

/// `b` is the mined block for these fields: it has them, a nonce of at least 0
/// that works, and no smaller non-negative nonce works.
pub open spec fn first_mined(
    b: Block,
    index: usize,
    previous_hash: Seq<char>,
    timestamp: u128,
    data: Seq<char>,
    difficulty: usize,
) -> bool {
    &&& b.spec_index() == index
    &&& b.spec_previous_hash() == previous_hash
    &&& b.spec_timestamp() == timestamp
    &&& b.spec_data() == data
    &&& b.spec_difficulty() == difficulty
    &&& b.spec_nonce() >= 0
    &&& proof_of_work(b)
    &&& forall|k: int|
        0 <= k < b.spec_nonce() ==> !nonce_works(
            index,
            timestamp,
            k,
            previous_hash,
            data,
            difficulty,
        )
}

/// No nonce from 0 to `i64::MAX` works for these fields.
pub open spec fn no_nonce_works(
    index: usize,
    previous_hash: Seq<char>,
    timestamp: u128,
    data: Seq<char>,
    difficulty: usize,
) -> bool {
    forall|k: int|
        0 <= k <= i64::MAX ==> !nonce_works(index, timestamp, k, previous_hash, data, difficulty)
}

/// What every chain built by `new` and `add_block` satisfies: a genesis block
/// with index 0, no previous hash, nonce 0 and the starting difficulty; every
/// later block linked, mined, and given the difficulty of the retarget rule.
pub open spec fn well_formed(bs: Seq<Block>) -> bool {
    &&& bs.len() > 0 ==> {
        &&& bs[0].spec_index() == 0
        &&& bs[0].spec_previous_hash() == Seq::<char>::empty()
        &&& bs[0].spec_nonce() == 0
        &&& bs[0].spec_difficulty() == GENESIS_DIFFICULTY
    }
    &&& forall|i: int|
        1 <= i < bs.len() ==> #[trigger] linked(bs, i) && bs[i].spec_difficulty()
            == next_difficulty(bs.take(i))
}

/// The sum of the squares of the blocks' difficulties.
pub open spec fn work(bs: Seq<Block>) -> nat
    decreases bs.len(),
{
    if bs.len() == 0 {
        0
    } else {
        let d = bs.last().spec_difficulty() as nat;
        work(bs.drop_last()) + d * d
    }
}

/// An ordered, append-only sequence of blocks.
#[derive(Debug)]
pub struct BlockChain {
    blocks: Vec<Block>,
}

impl View for BlockChain {
    type V = Seq<Block>;

    closed spec fn view(&self) -> Seq<Block> {
        self.blocks@
    }
}

impl BlockChain {
    /// The chain holds what `new` and `add_block` can build.
    pub open spec fn wf(&self) -> bool {
        well_formed(self@)
    }

    /// An empty chain.
    pub fn new() -> (r: BlockChain)
        ensures
            r@ == Seq::<Block>::empty(),
            r.wf(),
    {
        BlockChain { blocks: Vec::new() }
    }

    /// A chain holding the given blocks as they are, for instance to validate a
    /// chain received from elsewhere.
    pub fn from_blocks(blocks: Vec<Block>) -> (r: BlockChain)
        ensures
            r@ == blocks@,
    {
        BlockChain { blocks }
    }

    /// The blocks, in order.
    pub fn blocks(&self) -> (r: &Vec<Block>)
        ensures
            r@ == self@,
    {
        &self.blocks
    }

    /// The number of blocks.
    pub fn len(&self) -> (r: usize)
        ensures
            r == self@.len(),
    {
        self.blocks.len()
    }

    /// The block at position `ind`.
    pub fn index(&self, ind: usize) -> (r: &Block)
        requires
            ind < self@.len(),
        ensures
            *r == self@[ind as int],
    {
        &self.blocks[ind]
    }

    /// Whether the chain is valid: at most one block, or a first block with
    /// index 0 and every later block linked to the one before it, at its
    /// position, with a hash that meets its own difficulty.
    pub fn validate(&self) -> (r: bool)
        ensures
            r == chain_valid(self@),
    {
        let n = self.blocks.len();
        if n == 0 || n == 1 {
            return true;
        }
        if self.blocks[0].index() != 0 {
            return false;
        }
        let mut ind: usize = 1;
        while ind < n
            invariant
                1 <= ind <= n,
                n == self@.len(),
                self@[0].spec_index() == 0,
                forall|i: int| 1 <= i < ind ==> linked(self@, i),
            decreases n - ind,
        {
            let prev = &self.blocks[ind - 1];
            let curr = &self.blocks[ind];
            let prev_hash = match prev.try_hash() {
                Some(h) => h,
                None => {
                    assert(!linked(self@, ind as int));
                    return false;
                },
            };
            if !prev_hash.eq(curr.previous_hash()) || curr.index() != ind
                || !curr.meets_difficulty() {
                assert(!linked(self@, ind as int));
                return false;
            }
            ind = ind + 1;
        }
        true
    }

    /// The difficulty for the next block, by the retarget rule applied to the
    /// last block.
    pub fn current_difficulty(&self) -> (r: usize)
        requires
            self.wf(),
            self@.len() > 0,
        ensures
            r == next_difficulty(self@),
    {
        let n = self.blocks.len();
        let last = &self.blocks[n - 1];
        assert(last.spec_index() == n - 1) by {
            if n > 1 {
                assert(linked(self@, n - 1));
            }
        }
        let d = last.difficulty();
        let last_index = last.index();
        if last_index % RETARGET_INTERVAL == 0 && last_index != 0 {
            let earlier = &self.blocks[last_index - RETARGET_INTERVAL];
            let now = last.timestamp();
            let then = earlier.timestamp();
            if now < then || now - then < EXPECTED_WINDOW_MILLIS / 2 {
                if d < usize::MAX {
                    d + 1
                } else {
                    d
                }
            } else if now - then > EXPECTED_WINDOW_MILLIS * 2 {
                if d > 0 {
                    d - 1
                } else {
                    0
                }
            } else {
                d
            }
        } else {
            d
        }
    }

    /// Searches the nonces from 0 upwards for the first one whose block, with
    /// the given fields, has a hash that meets `difficulty`.
    pub fn mine(
        &self,
        ind: usize,
        data: String,
        prev: String,
        now: u128,
        difficulty: usize,
    ) -> (r: Option<Block>)
        ensures
            match r {
                Some(b) => first_mined(b, ind, prev@, now, data@, difficulty),
                None => no_nonce_works(ind, prev@, now, data@, difficulty),
            },
    {
        let ghost prev_text = prev@;
        let ghost data_text = data@;
        let mut nonce: i64 = 0;
        let mut candidate = Block::new(ind, prev, now, data, nonce, difficulty);
        loop
            invariant
                prev_text == prev@,
                data_text == data@,
                candidate.spec_index() == ind,
                candidate.spec_previous_hash() == prev_text,
                candidate.spec_timestamp() == now,
                candidate.spec_data() == data_text,
                candidate.spec_difficulty() == difficulty,
                candidate.spec_nonce() == nonce,
                0 <= nonce,
                forall|k: int|
                    0 <= k < nonce ==> !nonce_works(
                        ind,
                        now,
                        k,
                        prev_text,
                        data_text,
                        difficulty,
                    ),
            decreases i64::MAX - nonce,
        {
            if candidate.meets_difficulty() {
                return Some(candidate);
            }
            if nonce == i64::MAX {
                return None;
            }
            nonce = nonce + 1;
            candidate = candidate.with_nonce(nonce);
        }
    }

    /// Appends a block holding `data`, made at time `now` (milliseconds since
    /// the epoch): on an empty chain a genesis block, which is not mined;
    /// otherwise a block linked to the last one, mined at the difficulty of the
    /// retarget rule.
    pub fn add_block(&mut self, data: String, now: u128) -> (r: Result<(), AddError>)
        requires
            old(self).wf(),
        ensures
            final(self).wf(),
            old(self)@.len() == 0 ==> {
                &&& r is Ok
                &&& final(self)@.len() == 1
                &&& final(self)@[0].spec_index() == 0
                &&& final(self)@[0].spec_previous_hash() == Seq::<char>::empty()
                &&& final(self)@[0].spec_timestamp() == now
                &&& final(self)@[0].spec_data() == data@
                &&& final(self)@[0].spec_nonce() == 0
                &&& final(self)@[0].spec_difficulty() == GENESIS_DIFFICULTY
            },
            old(self)@.len() > 0 ==> {
                let n = old(self)@.len();
                let last = old(self)@.last();
                let d = next_difficulty(old(self)@);
                &&& r == Err::<(), AddError>(AddError::MessageTooLong) <==> !hashable(last)
                &&& r == Err::<(), AddError>(AddError::NonceSpaceExhausted) <==> hashable(last)
                    && no_nonce_works(n as usize, block_hash(last), now, data@, d)
                &&& r is Err ==> final(self)@ == old(self)@
                &&& r is Ok ==> {
                    &&& final(self)@.len() == n + 1
                    &&& final(self)@.take(n as int) == old(self)@
                    &&& first_mined(final(self)@[n as int], n as usize, block_hash(last), now, data@, d)
                }
            },
    {
        let n = self.blocks.len();
        if n == 0 {
            let genesis = Block::new_genesis(now, data, GENESIS_DIFFICULTY);
            self.blocks.push(genesis);
            return Ok(());
        }
        let prev_hash = match self.blocks[n - 1].try_hash() {
            Some(h) => h,
            None => {
                return Err(AddError::MessageTooLong);
            },
        };
        let difficulty = self.current_difficulty();
        let ghost before = self@;
        match self.mine(n, data, prev_hash, now, difficulty) {
            Some(b) => {
                self.blocks.push(b);
                assert(self@.take(n as int) =~= before);
                assert forall|i: int| 1 <= i < self@.len() implies #[trigger] linked(self@, i)
                    && self@[i].spec_difficulty() == next_difficulty(self@.take(i)) by {
                    if i < n {
                        assert(linked(before, i));
                        assert(self@.take(i) =~= before.take(i));
                    } else {
                        assert(self@[i - 1] == before[i - 1]);
                        assert(self@.take(i) =~= before);
                    }
                }
                assert(self@[0] == before[0]);
                Ok(())
            },
            None => Err(AddError::NonceSpaceExhausted),
        }
    }

    /// The sum over all blocks of the square of the block's difficulty, or
    /// `u64::MAX` where the sum is larger.
    pub fn difficulty(&self) -> (r: u64)
        ensures
            r as int == if work(self@) <= u64::MAX {
                work(self@) as int
            } else {
                u64::MAX as int
            },
    {
        let n = self.blocks.len();
        let mut acc: u128 = 0;
        let mut i: usize = 0;
        while i < n
            invariant
                i <= n,
                n == self@.len(),
                acc as int == if work(self@.take(i as int)) <= u64::MAX {
                    work(self@.take(i as int)) as int
                } else {
                    u64::MAX as int
                },
            decreases n - i,
        {
            let d = self.blocks[i].difficulty() as u128;
            assert(d * d <= u128::MAX) by (nonlinear_arith)
                requires
                    d <= usize::MAX,
            ;
            let square = d * d;
            assert(self@.take(i + 1).drop_last() =~= self@.take(i as int));
            if square >= (u64::MAX as u128) - acc {
                acc = u64::MAX as u128;
            } else {
                acc = acc + square;
            }
            i = i + 1;
        }
        assert(self@.take(n as int) =~= self@);
        acc as u64
    }
}

} // verus!

verus! {

/// In a chain built by `new` and `add_block`, the first block has index 0 and
/// an empty previous hash, whatever its payload.
pub proof fn lemma_genesis_shape(c: BlockChain)
    requires
        c.wf(),
        c@.len() > 0,
    ensures
        c@[0].spec_index() == 0,
        c@[0].spec_previous_hash() == Seq::<char>::empty(),
{
}

/// In a chain built by `new` and `add_block`, every block after the first
/// holds the hash of the block before it.
pub proof fn lemma_built_chain_linked(c: BlockChain, i: int)
    requires
        c.wf(),
        1 <= i < c@.len(),
    ensures
        c@[i].spec_previous_hash() == block_hash(c@[i - 1]),
{
    assert(linked(c@, i));
}

/// In a chain built by `new` and `add_block`, every block after the first has
/// a hash with at least as many leading zeros as its difficulty.
pub proof fn lemma_built_chain_proof_of_work(c: BlockChain, i: int)
    requires
        c.wf(),
        1 <= i < c@.len(),
    ensures
        proof_of_work(c@[i]),
{
    assert(linked(c@, i));
}

/// A chain built by `new` and `add_block` passes validation.
pub proof fn lemma_built_chain_validates(c: BlockChain)
    requires
        c.wf(),
    ensures
        chain_valid(c@),
{
}

/// A chain fails validation once any block after the first no longer holds the
/// hash of the block before it, no longer sits at its own index, or no longer
/// has a hash that meets its difficulty.
pub proof fn lemma_broken_block_fails_validation(bs: Seq<Block>, i: int)
    requires
        1 <= i < bs.len(),
        bs[i].spec_previous_hash() != block_hash(bs[i - 1]) || bs[i].spec_index() != i
            || !proof_of_work(bs[i]),
    ensures
        !chain_valid(bs),
{
    assert(!linked(bs, i));
}

} // verus!
