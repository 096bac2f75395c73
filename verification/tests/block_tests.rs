//! Block hashing, the hash-string encoding, and transaction metadata.
use rustchain::Block;
use rustchain::ExecError;
use rustchain::Transaction;
use rustchain::TransactionData;
use rustchain::byte_vector_to_string;

fn sample_transaction() -> Transaction {
    Transaction::new(
        "John".to_string(),
        TransactionData::CreateUserAccount("John".to_string()),
        7,
    )
}

#[test]
fn byte_vector_to_string_maps_each_byte_to_its_char() {
    assert_eq!(byte_vector_to_string(&[72, 101, 108, 108, 111]), "Hello");
    assert_eq!(byte_vector_to_string(&[]), "");
    // Bytes above 127 become the characters with the same numeric value,
    // not a UTF-8 decoding of the bytes.
    assert_eq!(byte_vector_to_string(&[0, 255]), "\u{0}\u{ff}");
}

#[test]
fn fresh_block_has_no_hash_until_a_mutation() {
    let mut block = Block::new(None);
    assert!(block.hash.is_none());
    assert!(!block.verify_own_hash());
    assert_eq!(block.get_transaction_count(), 0);
    block.add_transaction(sample_transaction());
    assert_eq!(block.get_transaction_count(), 1);
    assert!(block.hash.is_some());
    assert!(block.verify_own_hash());
}

#[test]
fn block_hash_is_one_char_per_digest_byte() {
    let mut block = Block::new(None);
    block.add_transaction(sample_transaction());
    let digest = block.calculate_hash();
    assert_eq!(digest.len(), 64);
    let stored = block.hash.clone().expect("hash was just computed");
    assert_eq!(stored, byte_vector_to_string(&digest));
    assert_eq!(stored.chars().count(), 64);
}

#[test]
fn changing_the_sequence_number_changes_the_hash() {
    let mut block = Block::new(None);
    block.add_transaction(sample_transaction());
    let before = block.hash.clone().expect("hash set");
    block.set_unqnum(324);
    assert_eq!(block.unqnum, 324);
    let after = block.hash.clone().expect("hash set");
    assert!(block.verify_own_hash());
    assert_ne!(before, after);
}

#[test]
fn adding_a_transaction_changes_the_hash() {
    let mut block = Block::new(None);
    block.add_transaction(sample_transaction());
    let before = block.hash.clone().expect("hash set");
    block.add_transaction(sample_transaction());
    let after = block.hash.clone().expect("hash set");
    assert_ne!(before, after);
}

#[test]
fn same_content_hashes_the_same_but_instants_differ() {
    let t = sample_transaction();
    // The transaction hash is deterministic in the stored content.
    assert_eq!(t.calculate_hash(), t.calculate_hash());
    assert_eq!(t.calculate_hash().len(), 64);
    // Structurally identical blocks around the same transaction agree too.
    let mut a = Block::new(None);
    a.add_transaction(t.duplicate());
    let mut b = Block::new(None);
    b.add_transaction(t.duplicate());
    assert_eq!(a.hash, b.hash);
}

#[test]
fn transactions_are_unsigned_and_never_verify() {
    let t = sample_transaction();
    assert!(!t.is_signed());
    assert!(!t.check_signature());
}

#[test]
fn exec_error_messages_match_the_reported_text() {
    assert_eq!(ExecError::SenderMissing.message(), "Account does not exist");
    assert_eq!(ExecError::AccountAlreadyExists.message(), "User already exists!");
    assert_eq!(
        ExecError::TokenCreationOutsideGenesis.message(),
        "Token creation is only available on initial creation"
    );
    assert_eq!(
        ExecError::ReceiverMissing.message(),
        "Receiver Account does not exist"
    );
    assert_eq!(ExecError::Overspent.message(), "Overspent or Arithmetic error");
    assert_eq!(
        ExecError::NotImplemented.message(),
        "Unknown Transaction type (not implemented)"
    );
}
