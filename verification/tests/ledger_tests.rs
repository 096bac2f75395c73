//! End-to-end scenarios for the ledger: genesis, transfers, rejection of
//! ill-formed blocks, rollback, and tamper detection.
use rustchain::Account;
use rustchain::AccountType;
use rustchain::AppendError;
use rustchain::Block;
use rustchain::Blockchain;
use rustchain::ChainError;
use rustchain::ExecError;
use rustchain::Transaction;
use rustchain::TransactionData;
use rustchain::WorldState;

fn genesis_chain() -> Blockchain {
    let mut chain = Blockchain::new();
    let mut genesis = Block::new(None);
    for user in ["John", "Mereep"] {
        genesis.add_transaction(Transaction::new(
            user.to_string(),
            TransactionData::CreateUserAccount(user.to_string()),
            0,
        ));
        genesis.add_transaction(Transaction::new(
            user.to_string(),
            TransactionData::CreateTokens {
                receiver: user.to_string(),
                amount: 10_000,
            },
            0,
        ));
    }
    assert!(chain.append_block(genesis).is_ok());
    chain
}

fn balance(chain: &Blockchain, id: &str) -> u128 {
    chain.get_account_by_id(id).expect("account must exist").tokens()
}

#[test]
fn scenario_genesis_creates_funded_accounts() {
    let chain = genesis_chain();
    assert!(chain.check_validity().is_ok());
    assert_eq!(balance(&chain, "John"), 10_000);
    assert_eq!(balance(&chain, "Mereep"), 10_000);
    assert_eq!(chain.blocks.len(), 1);
}

#[test]
fn scenario_transfer_updates_both_balances() {
    let mut chain = genesis_chain();
    let mut block2 = Block::new(chain.get_last_block_hash());
    block2.add_transaction(Transaction::new(
        "John".to_string(),
        TransactionData::TransferTokens {
            to: "Mereep".to_string(),
            amount: 100,
        },
        0,
    ));
    block2.set_unqnum(324);
    assert!(chain.append_block(block2).is_ok());
    assert_eq!(balance(&chain, "John"), 9_900);
    assert_eq!(balance(&chain, "Mereep"), 10_100);
    assert!(chain.check_validity().is_ok());
}

#[test]
fn validity_holds_after_each_successful_append() {
    let mut chain = genesis_chain();
    assert!(chain.check_validity().is_ok());
    for i in 0..3u128 {
        let mut block = Block::new(chain.get_last_block_hash());
        block.add_transaction(Transaction::new(
            "John".to_string(),
            TransactionData::TransferTokens {
                to: "Mereep".to_string(),
                amount: 10 + i,
            },
            i,
        ));
        block.set_unqnum(i as i128 + 2);
        assert!(chain.append_block(block).is_ok());
        assert!(chain.check_validity().is_ok());
    }
}

#[test]
fn wrong_previous_hash_is_rejected_without_side_effects() {
    let mut chain = genesis_chain();
    let before_blocks = chain.blocks.len();
    let mut bad = Block::new(Some("not the tip".to_string()));
    bad.add_transaction(Transaction::new(
        "John".to_string(),
        TransactionData::TransferTokens {
            to: "Mereep".to_string(),
            amount: 1,
        },
        0,
    ));
    assert_eq!(chain.append_block(bad), Err(AppendError::BadLinkage));
    assert_eq!(chain.blocks.len(), before_blocks);
    assert_eq!(balance(&chain, "John"), 10_000);
    assert_eq!(balance(&chain, "Mereep"), 10_000);

    // A block claiming no predecessor is just as ill-linked on a non-empty
    // chain.
    let mut orphan = Block::new(None);
    orphan.add_transaction(Transaction::new(
        "John".to_string(),
        TransactionData::TransferTokens {
            to: "Mereep".to_string(),
            amount: 1,
        },
        0,
    ));
    assert_eq!(chain.append_block(orphan), Err(AppendError::BadLinkage));
}

#[test]
fn empty_block_is_rejected_without_side_effects() {
    let mut chain = genesis_chain();
    let empty = Block::new(chain.get_last_block_hash());
    assert_eq!(chain.append_block(empty), Err(AppendError::EmptyBlock));
    assert_eq!(chain.blocks.len(), 1);
    assert_eq!(balance(&chain, "John"), 10_000);
}

#[test]
fn failing_transaction_rolls_back_the_whole_block() {
    let mut chain = genesis_chain();
    let mut block = Block::new(chain.get_last_block_hash());
    // The first transaction succeeds, the second fails: nothing of the
    // block may remain applied.
    block.add_transaction(Transaction::new(
        "John".to_string(),
        TransactionData::CreateUserAccount("Carol".to_string()),
        0,
    ));
    block.add_transaction(Transaction::new(
        "John".to_string(),
        TransactionData::TransferTokens {
            to: "Nobody".to_string(),
            amount: 1,
        },
        0,
    ));
    assert_eq!(
        chain.append_block(block),
        Err(AppendError::Execution {
            index: 2,
            cause: ExecError::ReceiverMissing,
        })
    );
    assert!(chain.get_account_by_id("Carol").is_none());
    assert_eq!(chain.blocks.len(), 1);
    assert_eq!(balance(&chain, "John"), 10_000);
    assert_eq!(balance(&chain, "Mereep"), 10_000);
    assert!(chain.check_validity().is_ok());
}

#[test]
fn overspending_transfer_is_a_detected_error() {
    let mut chain = genesis_chain();
    let mut block = Block::new(chain.get_last_block_hash());
    block.add_transaction(Transaction::new(
        "John".to_string(),
        TransactionData::TransferTokens {
            to: "Mereep".to_string(),
            amount: 10_001,
        },
        0,
    ));
    assert_eq!(
        chain.append_block(block),
        Err(AppendError::Execution {
            index: 1,
            cause: ExecError::Overspent,
        })
    );
    assert_eq!(balance(&chain, "John"), 10_000);
    assert_eq!(balance(&chain, "Mereep"), 10_000);
}

#[test]
fn receiver_overflow_is_a_detected_error() {
    let mut chain = Blockchain::new();
    let mut genesis = Block::new(None);
    for user in ["Rich", "Poor"] {
        genesis.add_transaction(Transaction::new(
            user.to_string(),
            TransactionData::CreateUserAccount(user.to_string()),
            0,
        ));
    }
    genesis.add_transaction(Transaction::new(
        "Rich".to_string(),
        TransactionData::CreateTokens {
            receiver: "Rich".to_string(),
            amount: u128::MAX,
        },
        0,
    ));
    genesis.add_transaction(Transaction::new(
        "Poor".to_string(),
        TransactionData::CreateTokens {
            receiver: "Poor".to_string(),
            amount: 5,
        },
        0,
    ));
    assert!(chain.append_block(genesis).is_ok());
    let mut block = Block::new(chain.get_last_block_hash());
    block.add_transaction(Transaction::new(
        "Poor".to_string(),
        TransactionData::TransferTokens {
            to: "Rich".to_string(),
            amount: 5,
        },
        0,
    ));
    assert_eq!(
        chain.append_block(block),
        Err(AppendError::Execution {
            index: 1,
            cause: ExecError::Overspent,
        })
    );
    assert_eq!(balance(&chain, "Rich"), u128::MAX);
    assert_eq!(balance(&chain, "Poor"), 5);
}

#[test]
fn token_creation_outside_genesis_always_fails() {
    let mut chain = genesis_chain();
    let mut block = Block::new(chain.get_last_block_hash());
    block.add_transaction(Transaction::new(
        "John".to_string(),
        TransactionData::CreateTokens {
            receiver: "John".to_string(),
            amount: 1,
        },
        0,
    ));
    assert_eq!(
        chain.append_block(block),
        Err(AppendError::Execution {
            index: 1,
            cause: ExecError::TokenCreationOutsideGenesis,
        })
    );
    assert_eq!(balance(&chain, "John"), 10_000);
}

#[test]
fn tampering_with_a_committed_block_is_detected() {
    let mut chain = genesis_chain();
    let mut block2 = Block::new(chain.get_last_block_hash());
    block2.add_transaction(Transaction::new(
        "John".to_string(),
        TransactionData::TransferTokens {
            to: "Mereep".to_string(),
            amount: 100,
        },
        0,
    ));
    assert!(chain.append_block(block2).is_ok());
    assert!(chain.check_validity().is_ok());

    // Overwrite the committed transfer amount without recomputing the hash.
    chain.blocks[1].transactions[0].record = TransactionData::TransferTokens {
        to: "Mereep".to_string(),
        amount: 1_000,
    };
    assert!(!chain.blocks[1].verify_own_hash());
    assert_eq!(
        chain.check_validity(),
        Err(ChainError::HashMismatch { block: 2 })
    );
}

#[test]
fn clone_attack_leaves_the_original_chain_valid() {
    let mut chain = genesis_chain();
    let mut block2 = Block::new(chain.get_last_block_hash());
    block2.add_transaction(Transaction::new(
        "John".to_string(),
        TransactionData::TransferTokens {
            to: "Mereep".to_string(),
            amount: 100,
        },
        0,
    ));
    assert!(chain.append_block(block2).is_ok());

    let mut chain_attack = chain.duplicate();
    chain_attack.blocks[1].transactions[0].record = TransactionData::TransferTokens {
        to: "Mereep".to_string(),
        amount: 1_000,
    };
    assert_eq!(
        chain_attack.check_validity(),
        Err(ChainError::HashMismatch { block: 2 })
    );
    assert!(chain.check_validity().is_ok());
    assert_eq!(balance(&chain, "John"), 9_900);
}

#[test]
fn duplicate_account_creation_fails_and_rolls_back() {
    let mut chain = genesis_chain();
    let mut block = Block::new(chain.get_last_block_hash());
    block.add_transaction(Transaction::new(
        "John".to_string(),
        TransactionData::CreateUserAccount("John".to_string()),
        0,
    ));
    assert_eq!(
        chain.append_block(block),
        Err(AppendError::Execution {
            index: 1,
            cause: ExecError::AccountAlreadyExists,
        })
    );
}

#[test]
fn unknown_sender_is_rejected_outside_genesis() {
    let mut chain = genesis_chain();
    let mut block = Block::new(chain.get_last_block_hash());
    block.add_transaction(Transaction::new(
        "Stranger".to_string(),
        TransactionData::CreateUserAccount("Stranger".to_string()),
        0,
    ));
    assert_eq!(
        chain.append_block(block),
        Err(AppendError::Execution {
            index: 1,
            cause: ExecError::SenderMissing,
        })
    );
}

#[test]
fn change_store_value_is_not_implemented() {
    let mut chain = genesis_chain();
    let mut block = Block::new(chain.get_last_block_hash());
    block.add_transaction(Transaction::new(
        "John".to_string(),
        TransactionData::ChangeStoreValue {
            key: "k".to_string(),
            value: "v".to_string(),
        },
        0,
    ));
    assert_eq!(
        chain.append_block(block),
        Err(AppendError::Execution {
            index: 1,
            cause: ExecError::NotImplemented,
        })
    );
}

#[test]
fn user_ids_are_listed_in_creation_order() {
    let chain = genesis_chain();
    let ids = chain.get_user_ids();
    assert_eq!(ids, vec!["John".to_string(), "Mereep".to_string()]);
}

#[test]
fn execute_runs_against_a_substitute_world_state() {
    // The execution engine only needs the WorldState capabilities, so a bare
    // account map stands in for the whole ledger.
    let mut world = rustchain::AccountMap::new();
    world
        .create_account("Ann".to_string(), AccountType::User)
        .expect("fresh identity");
    assert!(matches!(
        world.create_account("Ann".to_string(), AccountType::User),
        Err(ExecError::AccountAlreadyExists)
    ));
    let fund = Transaction::new(
        "Ann".to_string(),
        TransactionData::CreateTokens {
            receiver: "Ann".to_string(),
            amount: 7,
        },
        1,
    );
    assert!(fund.execute(&mut world, &true).is_ok());
    let acc: &Account = world.get_account_by_id("Ann").expect("exists");
    assert_eq!(acc.tokens(), 7);
    let bad = Transaction::new(
        "Ann".to_string(),
        TransactionData::CreateTokens {
            receiver: "Ann".to_string(),
            amount: 1,
        },
        2,
    );
    assert_eq!(
        bad.execute(&mut world, &false),
        Err(ExecError::TokenCreationOutsideGenesis)
    );
}

#[test]
fn transfer_during_genesis_still_needs_existing_accounts() {
    let mut chain = Blockchain::new();
    let mut genesis = Block::new(None);
    genesis.add_transaction(Transaction::new(
        "Ghost".to_string(),
        TransactionData::TransferTokens {
            to: "Ghost".to_string(),
            amount: 1,
        },
        0,
    ));
    // The receiver is checked first, even during genesis.
    assert_eq!(
        chain.append_block(genesis),
        Err(AppendError::Execution {
            index: 1,
            cause: ExecError::ReceiverMissing,
        })
    );
}

#[test]
fn self_transfer_follows_the_read_before_write_order() {
    // Both balances are read before either write, so a self-transfer lands
    // on the pre-read receiver balance.
    let mut chain = genesis_chain();
    let mut block = Block::new(chain.get_last_block_hash());
    block.add_transaction(Transaction::new(
        "John".to_string(),
        TransactionData::TransferTokens {
            to: "John".to_string(),
            amount: 100,
        },
        0,
    ));
    assert!(chain.append_block(block).is_ok());
    assert_eq!(balance(&chain, "John"), 10_100);
}

fn two_block_chain() -> Blockchain {
    let mut chain = genesis_chain();
    let mut block2 = Block::new(chain.get_last_block_hash());
    block2.add_transaction(Transaction::new(
        "John".to_string(),
        TransactionData::TransferTokens {
            to: "Mereep".to_string(),
            amount: 100,
        },
        0,
    ));
    assert!(chain.append_block(block2).is_ok());
    chain
}

#[test]
fn rewritten_linkage_is_reported_with_both_hashes() {
    let mut chain = two_block_chain();
    chain.blocks[1].prev_hash = Some("bogus".to_string());
    // Recompute the stored hash so only the linkage is wrong.
    chain.blocks[1].update_hash();
    match chain.check_validity() {
        Err(ChainError::PrevHashMismatch {
            block,
            expected,
            actual,
        }) => {
            assert_eq!(block, 1);
            assert_eq!(expected, "bogus");
            assert_eq!(actual, chain.blocks[0].hash.clone().unwrap());
        }
        other => panic!("expected a linkage mismatch, got {:?}", other),
    }
}

#[test]
fn missing_previous_hash_is_reported() {
    let mut chain = two_block_chain();
    chain.blocks[1].prev_hash = None;
    chain.blocks[1].update_hash();
    assert_eq!(
        chain.check_validity(),
        Err(ChainError::MissingPrevHash { block: 2 })
    );
}

#[test]
fn genesis_with_a_previous_hash_is_reported() {
    let mut chain = genesis_chain();
    chain.blocks[0].prev_hash = Some("anything".to_string());
    chain.blocks[0].update_hash();
    assert_eq!(chain.check_validity(), Err(ChainError::GenesisPrevHashSet));
}
