use chain_state::account::Account;
use chain_state::hash::{H160, H256};
use chain_state::log::Log;
use chain_state::uint::U256;

fn h256(byte: u8) -> H256 {
    H256::from_bytes(vec![byte; 32]).unwrap()
}

fn h160(byte: u8) -> H160 {
    H160::from_bytes(vec![byte; 20]).unwrap()
}

#[test]
fn u256_arithmetic() {
    let two = U256::from_u64(2);
    let three = U256::from_u64(3);
    assert_eq!(two.checked_add(&three), Some(U256::from_u64(5)));
    assert_eq!(U256::max_value().checked_add(&U256::from_u64(1)), None);
    assert_eq!(U256::max_value().saturating_add(&three), U256::max_value());
    assert_eq!(three.checked_sub(&two), Some(U256::from_u64(1)));
    assert_eq!(two.checked_sub(&three), None);
    assert!(three.ge(&two));
    assert!(three.ge(&three));
    assert!(!two.ge(&three));
    assert!(U256::zero().is_zero());
    assert!(!two.is_zero());
}

#[test]
fn u256_minimal_big_endian_bytes() {
    assert_eq!(U256::zero().to_be_min_bytes(), Vec::<u8>::new());
    assert_eq!(U256::from_u64(1).to_be_min_bytes(), vec![1]);
    assert_eq!(U256::from_u64(256).to_be_min_bytes(), vec![1, 0]);
    assert_eq!(U256::from_u64(0xdead).to_be_min_bytes(), vec![0xde, 0xad]);
    assert_eq!(U256::from_be_min_bytes(&vec![1, 0]), Some(U256::from_u64(256)));
    // a leading zero is not minimal
    assert_eq!(U256::from_be_min_bytes(&vec![0, 1]), None);
    // more than 32 bytes cannot fit
    assert_eq!(U256::from_be_min_bytes(&vec![1; 33]), None);
    // a round trip through the byte form is the identity
    let v = U256::from_u64(0x0102030405060708);
    assert_eq!(U256::from_be_min_bytes(&v.to_be_min_bytes()), Some(v));
}

#[test]
fn account_balance_and_nonce_ops() {
    let mut a = Account::default();
    assert!(a.nonce().is_zero());
    assert!(a.balance().is_zero());
    a.inc_nonce();
    assert_eq!(*a.nonce(), U256::from_u64(1));
    a.add_balance(&U256::from_u64(10));
    assert_eq!(*a.balance(), U256::from_u64(10));
    a.sub_balance(&U256::from_u64(4));
    assert_eq!(*a.balance(), U256::from_u64(6));
    a.set_code(h256(0xcc));
    assert!(a.code_hash().equals(&h256(0xcc)));
}

#[test]
fn account_rlp_matches_the_rlp_crate() {
    let a = Account::new(U256::from_u64(1), U256::from_u64(0x0102), h256(0xaa), h256(0xbb));
    let enc = a.to_rlp();
    let mut s = rlp::RlpStream::new_list(4);
    s.append(&vec![1u8]);
    s.append(&vec![1u8, 2u8]);
    s.append(&vec![0xaau8; 32]);
    s.append(&vec![0xbbu8; 32]);
    assert_eq!(enc, s.out().to_vec());
}

#[test]
fn account_rlp_round_trip() {
    let a = Account::new(U256::from_u64(7), U256::from_u64(1_000_000), h256(0x11), h256(0x22));
    let enc = a.to_rlp();
    let back = Account::from_rlp(&enc).unwrap();
    assert_eq!(*back.nonce(), U256::from_u64(7));
    assert_eq!(*back.balance(), U256::from_u64(1_000_000));
    assert!(back.code_hash().equals(&h256(0x22)));
    assert_eq!(back.to_rlp(), enc);
}

#[test]
fn account_from_rlp_rejects_bad_input() {
    // not an account record at all
    assert!(Account::from_rlp(&vec![0x01]).is_err());
    // trailing garbage after a valid record
    let mut enc = Account::default().to_rlp();
    enc.push(0);
    assert!(Account::from_rlp(&enc).is_err());
    // three items instead of four
    let mut s = rlp::RlpStream::new_list(3);
    s.append(&vec![1u8]);
    s.append(&vec![2u8]);
    s.append(&vec![3u8]);
    assert!(Account::from_rlp(&s.out().to_vec()).is_err());
    // a nonce with a leading zero byte is not minimal
    let mut s = rlp::RlpStream::new_list(4);
    s.append(&vec![0u8, 1u8]);
    s.append(&vec![2u8]);
    s.append(&vec![0xaau8; 32]);
    s.append(&vec![0xbbu8; 32]);
    assert!(Account::from_rlp(&s.out().to_vec()).is_err());
    // a root hash that is not 32 bytes long
    let mut s = rlp::RlpStream::new_list(4);
    s.append(&vec![1u8]);
    s.append(&vec![2u8]);
    s.append(&vec![0xaau8; 31]);
    s.append(&vec![0xbbu8; 32]);
    assert!(Account::from_rlp(&s.out().to_vec()).is_err());
}

#[test]
fn log_rlp_matches_the_rlp_crate() {
    let log = Log::new(h160(0x01), vec![h256(0x02), h256(0x03)], vec![9, 9, 9]);
    let enc = log.to_rlp();
    let mut s = rlp::RlpStream::new_list(3);
    s.append(&vec![0x01u8; 20]);
    s.append_list::<Vec<u8>, Vec<u8>>(&[vec![0x02u8; 32], vec![0x03u8; 32]]);
    s.append(&vec![9u8, 9, 9]);
    assert_eq!(enc, s.out().to_vec());
}

#[test]
fn log_rlp_round_trip() {
    let log = Log::new(h160(0x10), vec![h256(0x20)], vec![1, 2, 3, 4]);
    let enc = log.to_rlp();
    let back = Log::from_rlp(&enc).unwrap();
    assert!(back.address.equals(&h160(0x10)));
    assert_eq!(back.topics.len(), 1);
    assert!(back.topics[0].equals(&h256(0x20)));
    assert_eq!(back.data, vec![1, 2, 3, 4]);
    assert_eq!(back.to_rlp(), enc);
}

#[test]
fn log_rlp_round_trip_without_topics() {
    let log = Log::new(h160(0x55), Vec::new(), Vec::new());
    let enc = log.to_rlp();
    let back = Log::from_rlp(&enc).unwrap();
    assert!(back.address.equals(&h160(0x55)));
    assert!(back.topics.is_empty());
    assert!(back.data.is_empty());
}

#[test]
fn log_from_rlp_rejects_bad_input() {
    // a topic that is not 32 bytes long
    let mut s = rlp::RlpStream::new_list(3);
    s.append(&vec![0x01u8; 20]);
    s.append_list::<Vec<u8>, Vec<u8>>(&[vec![0x02u8; 31]]);
    s.append(&vec![9u8]);
    assert!(Log::from_rlp(&s.out().to_vec()).is_err());
    // an address that is not 20 bytes long
    let mut s = rlp::RlpStream::new_list(3);
    s.append(&vec![0x01u8; 19]);
    s.append_list::<Vec<u8>, Vec<u8>>(&[vec![0x02u8; 32]]);
    s.append(&vec![9u8]);
    assert!(Log::from_rlp(&s.out().to_vec()).is_err());
    // trailing garbage after a valid record
    let mut enc = Log::new(h160(0x01), Vec::new(), Vec::new()).to_rlp();
    enc.push(0);
    assert!(Log::from_rlp(&enc).is_err());
}

#[test]
fn hashes_hold_their_bytes() {
    assert!(H256::from_bytes(vec![1; 31]).is_none());
    assert!(H160::from_bytes(vec![1; 21]).is_none());
    let h = h256(0x42);
    assert_eq!(h.as_bytes(), &vec![0x42u8; 32]);
    assert!(h.copied().equals(&h));
    assert!(!h.equals(&h256(0x43)));
    let zero = H256::zero();
    assert_eq!(zero.as_bytes(), &vec![0u8; 32]);
}
