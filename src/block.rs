//! Block payloads, mining, and the rules that link a block to its predecessor.
use vstd::prelude::*;
use vstd::utf8::encode_utf8;

use crate::encoding::{
    bin_meets_difficulty, bin_string, hex_meets_difficulty, hex_string, meets_difficulty,
};
use crate::hashing::{
    block_json, block_json_text, now_timestamp, random_seed, seed_json, seed_json_text, sha256,
    sha256_digest,
};

verus! {

/// A block's content and link to its predecessor, before proof of work.
pub struct NakedBlock {
    pub id: u64,
    pub data: String,
    pub timestamp: i64,
    pub p_hash: [u8; 32],
}

/// What a payload holds, as mathematical values.
pub struct PayloadView {
    pub id: u64,
    pub data: Seq<char>,
    pub timestamp: i64,
    pub p_hash: Seq<u8>,
}

impl View for NakedBlock {
    type V = PayloadView;

    open spec fn view(&self) -> PayloadView {
        PayloadView { id: self.id, data: self.data@, timestamp: self.timestamp, p_hash: self.p_hash@ }
    }
}

/// A payload with the nonce and digest found by mining it.
pub struct Block {
    pub hash: [u8; 32],
    pub nonce: u64,
    pub naked: NakedBlock,
}

/// What a block holds, as mathematical values.
pub struct BlockView {
    pub hash: Seq<u8>,
    pub nonce: u64,
    pub naked: PayloadView,
}

impl View for Block {
    type V = BlockView;

    open spec fn view(&self) -> BlockView {
        BlockView { hash: self.hash@, nonce: self.nonce, naked: self.naked@ }
    }
}

impl BlockView {
    /// Both digests have the width of a SHA-256 digest, as every `Block` has.
    pub open spec fn wf(self) -> bool {
        self.hash.len() == 32 && self.naked.p_hash.len() == 32
    }
}

/// The rule that a candidate block breaks, with the candidate's id.
#[derive(Debug, Clone, Copy, PartialEq, Eq, Structural)]
pub enum BlockError {
    /// Its previous digest is not the predecessor's digest.
    WrongPreviousHash { id: u64 },
    /// Its id does not follow the predecessor's id.
    NotNextId { id: u64, prev_id: u64 },
    /// The hexadecimal form of its digest lacks the difficulty prefix.
    InvalidDifficulty { id: u64 },
    /// Its digest is not the hash of its payload and nonce.
    InvalidHash { id: u64 },
}

/// The digest of a payload under a nonce: SHA-256 over the UTF-8 bytes of
/// the JSON object of its fields.
pub open spec fn block_digest(p: PayloadView, nonce: u64) -> Seq<u8> {
    sha256(encode_utf8(block_json(p.id, nonce, p.data, p.timestamp, p.p_hash)))
}

/// The digest tried at each step of the genesis search.
pub open spec fn seed_digest(seed: u64, nonce: u64) -> Seq<u8> {
    sha256(encode_utf8(seed_json(nonce, seed)))
}

/// Whether mining stops at `nonce` for payload `p`.
pub open spec fn mines_at(p: PayloadView, nonce: u64) -> bool {
    meets_difficulty(bin_string(block_digest(p, nonce)))
}

/// Whether the genesis search stops at `nonce` for `seed`.
pub open spec fn seed_stops_at(seed: u64, nonce: u64) -> bool {
    meets_difficulty(bin_string(seed_digest(seed, nonce)))
}

/// No 64-bit nonce mines payload `p`.
pub open spec fn unminable(p: PayloadView) -> bool {
    forall|n: u64| !mines_at(p, n)
}

/// No 64-bit nonce ends the genesis search for `seed`.
pub open spec fn seed_exhausted(seed: u64) -> bool {
    forall|n: u64| !seed_stops_at(seed, n)
}

/// `h` is the digest at which the genesis search for `seed` stops: the first
/// nonce whose seed digest meets the difficulty rule.
pub open spec fn first_seed_digest(h: Seq<u8>, seed: u64) -> bool {
    exists|n: u64| {
        &&& h == seed_digest(seed, n)
        &&& seed_stops_at(seed, n)
        &&& forall|m: u64| m < n ==> !seed_stops_at(seed, m)
    }
}

/// `h` is where the genesis search stops for some seed.
pub open spec fn from_some_seed(h: Seq<u8>) -> bool {
    exists|s: u64| #[trigger] first_seed_digest(h, s)
}

/// Mining fails on the payload of `id`, `data` and `p_hash` for some timestamp.
pub open spec fn unminable_at_some_time(id: u64, data: Seq<char>, p_hash: Seq<u8>) -> bool {
    exists|ts: i64| #[trigger] unminable(PayloadView { id, data, timestamp: ts, p_hash })
}

/// The genesis construction can fail only where some seed exhausts its
/// search, or where some genesis payload cannot be mined.
pub open spec fn genesis_can_fail() -> bool {
    (exists|s: u64| #[trigger] seed_exhausted(s)) || (exists|h: Seq<u8>|
        #[trigger] unminable_at_some_time(0, "genesis"@, h))
}

/// The stored digest is the hash of the payload and the nonce.
pub open spec fn hash_intact(b: BlockView) -> bool {
    b.hash == block_digest(b.naked, b.nonce)
}

/// What mining guarantees of the block it returns.
pub open spec fn is_mined(b: BlockView) -> bool {
    hash_intact(b) && meets_difficulty(bin_string(b.hash))
}

/// The first rule, in the order of the checks, that `b` breaks as the
/// successor of `prev`.
pub open spec fn first_violation(b: BlockView, prev: BlockView) -> Option<BlockError> {
    if b.naked.p_hash != prev.hash {
        Some(BlockError::WrongPreviousHash { id: b.naked.id })
    } else if b.naked.id != prev.naked.id + 1 {
        Some(BlockError::NotNextId { id: b.naked.id, prev_id: prev.naked.id })
    } else if !meets_difficulty(hex_string(b.hash)) {
        Some(BlockError::InvalidDifficulty { id: b.naked.id })
    } else if !hash_intact(b) {
        Some(BlockError::InvalidHash { id: b.naked.id })
    } else {
        None
    }
}

/// Whether `b` may follow `prev`.
pub open spec fn valid_after(b: BlockView, prev: BlockView) -> bool {
    &&& b.naked.p_hash == prev.hash
    &&& b.naked.id == prev.naked.id + 1
    &&& meets_difficulty(hex_string(b.hash))
    &&& hash_intact(b)
}

/// Whether two digests hold the same bytes.
pub fn same_digest(a: &[u8; 32], b: &[u8; 32]) -> (r: bool)
    ensures
        r == (a@ == b@),
{
    let mut i: usize = 0;
    while i < 32
        invariant
            i <= 32,
            a@.len() == 32,
            b@.len() == 32,
            forall|k: int| 0 <= k < i ==> a@[k] == b@[k],
        decreases 32 - i,
    {
        if a[i] != b[i] {
            return false;
        }
        i += 1;
    }
    assert(a@ =~= b@);
    true
}

impl NakedBlock {
    /// A payload stamped with the current time.
    pub fn new(id: u64, data: &str, p_hash: [u8; 32]) -> (r: Self)
        ensures
            r@.id == id,
            r@.data == data@,
            r@.p_hash == p_hash@,
    {
        Self::with_timestamp(id, data, now_timestamp(), p_hash)
    }

    /// A payload with the given timestamp.
    pub fn with_timestamp(id: u64, data: &str, timestamp: i64, p_hash: [u8; 32]) -> (r: Self)
        ensures
            r@ == (PayloadView { id, data: data@, timestamp, p_hash: p_hash@ }),
    {
        NakedBlock { id, data: data.to_owned(), timestamp, p_hash }
    }
}

impl Block {
    /// Mines a fresh payload stamped with the current time.
    pub fn new(id: u64, data: &str, p_hash: [u8; 32]) -> (r: Option<Self>)
        ensures
            r matches Some(b) ==> {
                &&& b@.naked.id == id
                &&& b@.naked.data == data@
                &&& b@.naked.p_hash == p_hash@
                &&& is_mined(b@)
            },
            r is None ==> unminable_at_some_time(id, data@, p_hash@),
    {
        Self::mine_block(NakedBlock::new(id, data, p_hash))
    }

    /// The hash of a payload under a nonce.
    pub fn gen_hash(naked: &NakedBlock, nonce: u64) -> (r: [u8; 32])
        ensures
            r@ == block_digest(naked@, nonce),
    {
        let text = block_json_text(naked.id, nonce, naked.data.as_str(), naked.timestamp, &naked.p_hash);
        sha256_digest(text.as_str().as_bytes())
    }

    /// The hash tried at `nonce` in the genesis search for `seed`.
    pub fn seed_hash(seed: u64, nonce: u64) -> (r: [u8; 32])
        ensures
            r@ == seed_digest(seed, nonce),
    {
        let text = seed_json_text(nonce, seed);
        sha256_digest(text.as_str().as_bytes())
    }

    /// Tries the nonces from zero upwards and returns the block for the first
    /// one whose digest meets the difficulty rule in binary form; `None` when
    /// no 64-bit nonce does.
    pub fn mine_block(nb: NakedBlock) -> (r: Option<Self>)
        ensures
            r matches Some(b) ==> {
                &&& b@.naked == nb@
                &&& is_mined(b@)
                &&& forall|n: u64| n < b.nonce ==> !mines_at(nb@, n)
            },
            r is None ==> unminable(nb@),
    {
        let mut nonce: u64 = 0;
        loop
            invariant
                forall|n: u64| n < nonce ==> !mines_at(nb@, n),
            decreases u64::MAX - nonce,
        {
            let hash = Self::gen_hash(&nb, nonce);
            if bin_meets_difficulty(&hash) {
                return Some(Block { hash, nonce, naked: nb });
            }
            if nonce == u64::MAX {
                return None;
            }
            nonce += 1;
        }
    }

    /// Mining that tries only the nonces below `attempts`; `None` when none of
    /// them meets the difficulty rule.
    pub fn mine_block_within(nb: NakedBlock, attempts: u64) -> (r: Option<Self>)
        ensures
            r matches Some(b) ==> {
                &&& b@.naked == nb@
                &&& is_mined(b@)
                &&& b.nonce < attempts
                &&& forall|n: u64| n < b.nonce ==> !mines_at(nb@, n)
            },
            r is None ==> forall|n: u64| n < attempts ==> !mines_at(nb@, n),
    {
        let mut nonce: u64 = 0;
        while nonce < attempts
            invariant
                forall|n: u64| n < nonce ==> !mines_at(nb@, n),
            decreases attempts - nonce,
        {
            let hash = Self::gen_hash(&nb, nonce);
            if bin_meets_difficulty(&hash) {
                return Some(Block { hash, nonce, naked: nb });
            }
            nonce += 1;
        }
        None
    }

    /// Searches the nonces from zero upwards for the first seed digest that
    /// meets the difficulty rule in binary form.
    pub fn search_seed(seed: u64) -> (r: Option<[u8; 32]>)
        ensures
            r matches Some(h) ==> first_seed_digest(h@, seed),
            r is None ==> seed_exhausted(seed),
    {
        let mut nonce: u64 = 0;
        loop
            invariant
                forall|n: u64| n < nonce ==> !seed_stops_at(seed, n),
            decreases u64::MAX - nonce,
        {
            let hash = Self::seed_hash(seed, nonce);
            if bin_meets_difficulty(&hash) {
                return Some(hash);
            }
            if nonce == u64::MAX {
                return None;
            }
            nonce += 1;
        }
    }

    /// A digest that itself meets the difficulty rule: where the genesis search
    /// stops for a random seed.
    pub fn rand_hash() -> (r: Option<[u8; 32]>)
        ensures
            r matches Some(h) ==> from_some_seed(h@) && meets_difficulty(bin_string(h@)),
            r is None ==> exists|s: u64| #[trigger] seed_exhausted(s),
    {
        Self::search_seed(random_seed())
    }

    /// The first block of a new chain: id 0, data `genesis`, linked to a
    /// digest from a random seed.
    pub fn genesis() -> (r: Option<Self>)
        ensures
            r matches Some(b) ==> {
                &&& b@.naked.id == 0
                &&& b@.naked.data == "genesis"@
                &&& meets_difficulty(bin_string(b@.naked.p_hash))
                &&& from_some_seed(b@.naked.p_hash)
                &&& is_mined(b@)
            },
            r is None ==> genesis_can_fail(),
    {
        match Self::rand_hash() {
            Some(h) => Self::new(0, "genesis", h),
            None => None,
        }
    }

    /// Whether this block names `prev_hash` as its predecessor's digest.
    pub fn validate_prev_hash(&self, prev_hash: &[u8; 32]) -> (r: bool)
        ensures
            r == (self@.naked.p_hash == prev_hash@),
    {
        same_digest(&self.naked.p_hash, prev_hash)
    }

    /// Whether this block's id follows `prev_id`.
    pub fn validate_id(&self, prev_id: u64) -> (r: bool)
        ensures
            r == (self.naked.id == prev_id + 1),
    {
        prev_id < u64::MAX && self.naked.id == prev_id + 1
    }

    /// Whether the hexadecimal form of this block's digest has the prefix.
    pub fn validate_dif(&self) -> (r: bool)
        ensures
            r == meets_difficulty(hex_string(self@.hash)),
    {
        hex_meets_difficulty(&self.hash)
    }

    /// Whether this block's digest is the hash of its payload and nonce.
    pub fn validate_hash(&self) -> (r: bool)
        ensures
            r == hash_intact(self@),
    {
        let h = Self::gen_hash(&self.naked, self.nonce);
        same_digest(&h, &self.hash)
    }

    /// Checks this block as the successor of `prev` and names the first rule
    /// it breaks.
    pub fn check(&self, prev: &Block) -> (r: Result<(), BlockError>)
        ensures
            r == (match first_violation(self@, prev@) {
                None => Ok(()),
                Some(e) => Err(e),
            }),
    {
        if !self.validate_prev_hash(&prev.hash) {
            Err(BlockError::WrongPreviousHash { id: self.naked.id })
        } else if !self.validate_id(prev.naked.id) {
            Err(BlockError::NotNextId { id: self.naked.id, prev_id: prev.naked.id })
        } else if !self.validate_dif() {
            Err(BlockError::InvalidDifficulty { id: self.naked.id })
        } else if !self.validate_hash() {
            Err(BlockError::InvalidHash { id: self.naked.id })
        } else {
            Ok(())
        }
    }

    /// Whether this block may follow `prev`.
    pub fn validate(&self, prev: &Block) -> (r: bool)
        ensures
            r == valid_after(self@, prev@),
    {
        self.check(prev).is_ok()
    }
}

} // verus!
