use quartz::block::BlockError;
use quartz::chain::{BlockChain, MergeError};
use quartz::encoding::to_bin;

fn chain_of(len: usize) -> BlockChain {
    let mut c = BlockChain::new().expect("a nonce exists");
    while c.blocks.len() < len {
        let b = c.derive_from_last("x").expect("a nonce exists");
        assert_eq!(c.try_add_block(b), Ok(()));
    }
    c
}

#[test]
fn new_chain_holds_genesis() {
    let c = BlockChain::new().expect("a nonce exists");
    assert_eq!(c.blocks.len(), 1);
    assert_eq!(c.blocks[0].naked.id, 0);
    assert!(to_bin(&c.blocks[0].hash).starts_with("00"));
    assert!(c.validate_chain());
}

#[test]
fn derive_mine_and_append() {
    let mut c = BlockChain::new().expect("a nonce exists");
    assert_eq!(c.blocks.len(), 1);
    assert_eq!(c.blocks.last().unwrap().naked.id, 0);
    let b = c.derive_from_last("foo").expect("a nonce exists");
    assert_eq!(b.naked.data, "foo");
    assert_eq!(c.try_add_block(b), Ok(()));
    assert_eq!(c.blocks.len(), 2);
    assert_eq!(c.blocks[1].naked.id, 1);
    assert_eq!(c.blocks[1].naked.p_hash, c.blocks[0].hash);
    assert!(c.validate_chain());
}

#[test]
fn built_chain_is_valid() {
    let c = chain_of(3);
    assert_eq!(c.blocks.len(), 3);
    assert!(c.validate_chain());
}

#[test]
fn tampered_previous_hash_is_not_appended() {
    let mut c = BlockChain::new().expect("a nonce exists");
    let mut b = c.derive_from_last("foo").expect("a nonce exists");
    b.naked.p_hash[0] ^= 0xff;
    assert_eq!(c.try_add_block(b), Err(BlockError::WrongPreviousHash { id: 1 }));
    assert_eq!(c.blocks.len(), 1);
}

#[test]
fn non_sequential_id_is_not_appended() {
    let mut c = BlockChain::new().expect("a nonce exists");
    let mut b = c.derive_from_last("foo").expect("a nonce exists");
    b.naked.id = 2;
    assert_eq!(c.try_add_block(b), Err(BlockError::NotNextId { id: 2, prev_id: 0 }));
    assert_eq!(c.blocks.len(), 1);
}

#[test]
fn changing_a_stored_digest_invalidates_the_chain() {
    for i in 0..2 {
        let mut c = chain_of(2);
        c.blocks[i].hash[17] ^= 1;
        assert!(!c.validate_chain());
    }
}

#[test]
fn genesis_alone_is_not_rechecked() {
    let mut c = BlockChain::new().expect("a nonce exists");
    c.blocks[0].hash[17] ^= 1;
    assert!(c.validate_chain());
}

#[test]
fn upgrade_keeps_the_longer_valid_chain() {
    let a = chain_of(3);
    let b = chain_of(5);
    let r = a.upgrade_chain(b).expect("both valid");
    assert_eq!(r.blocks.len(), 5);
}

#[test]
fn upgrade_tie_keeps_local() {
    let a = chain_of(2);
    let b = chain_of(2);
    let local_tip = a.blocks[1].hash;
    let r = a.upgrade_chain(b).expect("both valid");
    assert_eq!(r.blocks[1].hash, local_tip);
}

#[test]
fn upgrade_takes_valid_remote_over_invalid_local() {
    let mut a = chain_of(3);
    a.blocks[2].hash[20] ^= 1;
    let b = chain_of(2);
    let remote_tip = b.blocks[1].hash;
    let r = a.upgrade_chain(b).expect("remote valid");
    assert_eq!(r.blocks.len(), 2);
    assert_eq!(r.blocks[1].hash, remote_tip);
}

#[test]
fn upgrade_takes_valid_local_over_invalid_remote() {
    let a = chain_of(2);
    let mut b = chain_of(3);
    b.blocks[1].naked.id = 9;
    let r = a.upgrade_chain(b).expect("local valid");
    assert_eq!(r.blocks.len(), 2);
}

#[test]
fn upgrade_fails_when_both_are_invalid() {
    let mut a = chain_of(2);
    a.blocks[1].hash[30] ^= 1;
    let mut b = chain_of(2);
    b.blocks[1].hash[30] ^= 1;
    assert!(matches!(a.upgrade_chain(b), Err(MergeError::BothInvalid)));
}

#[test]
fn derive_from_largest_id_gives_none() {
    let mut c = BlockChain::new().expect("a nonce exists");
    c.blocks[0].naked.id = u64::MAX;
    assert!(c.derive_from_last("foo").is_none());
}
