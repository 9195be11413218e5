//! An append-only chain of mined blocks, its validation, and fork choice.
use vstd::prelude::*;

use crate::block::{
    block_digest, first_violation, from_some_seed, genesis_can_fail, is_mined, unminable_at_some_time, valid_after,
    Block, BlockError, BlockView,
};
use crate::encoding::{bin_string, hex_string, lemma_hex_and_bin_agree, meets_difficulty};

verus! {

/// A sequence of mined blocks, genesis first.
pub struct BlockChain {
    pub blocks: Vec<Block>,
}

/// Why fork choice could not pick a chain.
#[derive(Debug, Clone, Copy, PartialEq, Eq, Structural)]
pub enum MergeError {
    /// Neither the local nor the remote chain is valid.
    BothInvalid,
}

impl View for BlockChain {
    type V = Seq<BlockView>;

    open spec fn view(&self) -> Seq<BlockView> {
        self.blocks@.map_values(|b: Block| b@)
    }
}

/// Every block after the first may follow the one before it.
pub open spec fn chain_valid(c: Seq<BlockView>) -> bool {
    forall|i: int| 1 <= i < c.len() ==> #[trigger] valid_after(c[i], c[i - 1])
}

/// The chain that fork choice keeps when it keeps one.
pub open spec fn chosen(local: Seq<BlockView>, remote: Seq<BlockView>) -> Option<Seq<BlockView>> {
    let vl = chain_valid(local);
    let vr = chain_valid(remote);
    if vl && vr {
        Some(if local.len() >= remote.len() { local } else { remote })
    } else if vr {
        Some(remote)
    } else if vl {
        Some(local)
    } else {
        None
    }
}

impl BlockChain {
    /// A chain that holds one genesis block.
    pub fn new() -> (r: Option<Self>)
        ensures
            r matches Some(c) ==> {
                &&& c@.len() == 1
                &&& c@[0].naked.id == 0
                &&& c@[0].naked.data == "genesis"@
                &&& meets_difficulty(bin_string(c@[0].hash))
                &&& meets_difficulty(bin_string(c@[0].naked.p_hash))
                &&& from_some_seed(c@[0].naked.p_hash)
                &&& is_mined(c@[0])
                &&& chain_valid(c@)
            },
            r is None ==> genesis_can_fail(),
    {
        match Block::genesis() {
            Some(g) => {
                let mut blocks: Vec<Block> = Vec::with_capacity(2);
                blocks.push(g);
                let c = BlockChain { blocks };
                assert(c@.len() == 1);
                Some(c)
            },
            None => None,
        }
    }

    /// Appends `block` when it may follow the current tip; otherwise leaves
    /// the chain as it is and names the first rule the block breaks.
    pub fn try_add_block(&mut self, block: Block) -> (r: Result<(), BlockError>)
        requires
            old(self)@.len() >= 1,
        ensures
            r == (match first_violation(block@, old(self)@.last()) {
                None => Ok(()),
                Some(e) => Err(e),
            }),
            r is Ok ==> final(self)@ == old(self)@.push(block@),
            r is Err ==> final(self)@ == old(self)@,
            chain_valid(old(self)@) ==> chain_valid(final(self)@),
    {
        let n = self.blocks.len();
        let r = block.check(&self.blocks[n - 1]);
        proof {
            assert(old(self)@.last() == self.blocks@[n - 1]@);
        }
        if r.is_ok() {
            self.blocks.push(block);
            proof {
                assert(self@ =~= old(self)@.push(block@));
                if chain_valid(old(self)@) {
                    lemma_append_keeps_chain_valid(old(self)@, block@);
                }
            }
        }
        r
    }

    /// Whether every block after genesis may follow the one before it.
    pub fn validate_chain(&self) -> (r: bool)
        ensures
            r == chain_valid(self@),
    {
        let n = self.blocks.len();
        let mut i: usize = 1;
        while i < n
            invariant
                1 <= i,
                n == self.blocks.len(),
                forall|k: int| 1 <= k < i && k < n ==> #[trigger] valid_after(self@[k], self@[k - 1]),
            decreases n - i,
        {
            if !self.blocks[i].validate(&self.blocks[i - 1]) {
                assert(!valid_after(self@[i as int], self@[i - 1]));
                return false;
            }
            i += 1;
        }
        true
    }

    /// Fork choice: of the valid chains, the longer one, the local one on a
    /// tie; an error when neither is valid.
    pub fn upgrade_chain(self, remote: BlockChain) -> (r: Result<BlockChain, MergeError>)
        ensures
            chosen(self@, remote@) matches Some(c) ==> r matches Ok(k) && k@ == c,
            chosen(self@, remote@) is None ==> r == Err::<BlockChain, MergeError>(
                MergeError::BothInvalid,
            ),
    {
        let valid_local = self.validate_chain();
        let valid_remote = remote.validate_chain();
        if valid_local && valid_remote {
            if self.blocks.len() >= remote.blocks.len() {
                Ok(self)
            } else {
                Ok(remote)
            }
        } else if valid_remote {
            Ok(remote)
        } else if valid_local {
            Ok(self)
        } else {
            Err(MergeError::BothInvalid)
        }
    }

    /// Mines a block that follows the current tip, holding `data`; `None` when
    /// the tip's id is the largest or no nonce meets the difficulty rule.
    pub fn derive_from_last(&self, data: &str) -> (r: Option<Block>)
        requires
            self@.len() >= 1,
        ensures
            r matches Some(b) ==> {
                &&& b@.naked.id == self@.last().naked.id + 1
                &&& b@.naked.p_hash == self@.last().hash
                &&& b@.naked.data == data@
                &&& is_mined(b@)
            },
            self@.last().naked.id == u64::MAX ==> r is None,
            r is None ==> self@.last().naked.id == u64::MAX || unminable_at_some_time(
                (self@.last().naked.id + 1) as u64,
                data@,
                self@.last().hash,
            ),
    {
        let lb = &self.blocks[self.blocks.len() - 1];
        if lb.naked.id == u64::MAX {
            return None;
        }
        Block::new(lb.naked.id + 1, data, lb.hash)
    }
}

/// Appending a block that may follow the tip keeps a valid chain valid.
pub proof fn lemma_append_keeps_chain_valid(c: Seq<BlockView>, b: BlockView)
    requires
        chain_valid(c),
        c.len() >= 1,
        valid_after(b, c.last()),
    ensures
        chain_valid(c.push(b)),
{
    let d = c.push(b);
    assert forall|i: int| 1 <= i < d.len() implies #[trigger] valid_after(d[i], d[i - 1]) by {
        if i < c.len() {
            assert(valid_after(c[i], c[i - 1]));
        }
    }
}

/// A mined block that names the tip's digest and the next id is accepted
/// after the tip.
pub proof fn lemma_derived_block_accepted(c: Seq<BlockView>, b: BlockView)
    requires
        c.len() >= 1,
        b.wf(),
        b.naked.id == c.last().naked.id + 1,
        b.naked.p_hash == c.last().hash,
        is_mined(b),
    ensures
        valid_after(b, c.last()),
        first_violation(b, c.last()) is None,
{
    lemma_hex_and_bin_agree(b.hash);
}

/// A block with a wrong previous digest or a non-sequential id is rejected.
pub proof fn lemma_misplaced_block_rejected(b: BlockView, prev: BlockView)
    requires
        b.naked.p_hash != prev.hash || b.naked.id != prev.naked.id + 1,
    ensures
        !valid_after(b, prev),
        first_violation(b, prev) is Some,
{
}

/// A block that mining returned passes the digest checks of validation: the
/// digest is reproduced from its payload and nonce, and its hexadecimal form
/// has the prefix too.
pub proof fn lemma_mined_block_rehashes(b: BlockView)
    requires
        b.wf(),
        is_mined(b),
    ensures
        b.hash == block_digest(b.naked, b.nonce),
        meets_difficulty(hex_string(b.hash)),
{
    lemma_hex_and_bin_agree(b.hash);
}

/// The same block with byte `j` of its digest set to `v`.
pub open spec fn with_digest_byte(b: BlockView, j: int, v: u8) -> BlockView {
    BlockView { hash: b.hash.update(j, v), nonce: b.nonce, naked: b.naked }
}

/// Changing any one byte of any stored digest of a valid chain of two or more
/// blocks makes the chain invalid.
pub proof fn lemma_tampered_digest_detected(c: Seq<BlockView>, i: int, j: int, v: u8)
    requires
        chain_valid(c),
        c.len() >= 2,
        0 <= i < c.len(),
        0 <= j < c[i].hash.len(),
        c[i].hash[j] != v,
    ensures
        !chain_valid(c.update(i, with_digest_byte(c[i], j, v))),
{
    let t = with_digest_byte(c[i], j, v);
    let d = c.update(i, t);
    assert(t.hash[j] != c[i].hash[j]);
    assert(t.hash != c[i].hash);
    if i == 0 {
        assert(valid_after(c[1], c[1 - 1]));
        assert(d[1] == c[1]);
        assert(!valid_after(d[1], d[1 - 1]));
    } else {
        assert(valid_after(c[i], c[i - 1]));
        assert(d[i - 1] == c[i - 1]);
        assert(!valid_after(d[i], d[i - 1]));
    }
}

} // verus!
