//! The ledger: the ordered, hash-linked collection of blocks plus the
//! authoritative account state, with block-level atomicity and a read-only
//! chain audit.
use vstd::prelude::*;
use vstd::pervasive::unreached;
use crate::account::Account;
use crate::account::AccountType;
use crate::block::Block;
use crate::block::BlockV;
use crate::block::hash_ok;
use crate::block::opt_str_view;
use crate::errors::AppendError;
use crate::errors::ChainError;
use crate::errors::ExecError;
use crate::transaction::Transaction;
use crate::transaction::TxnV;
use crate::transaction::create_fits;
use crate::transaction::txn_step;
use crate::world::AccountMap;
use crate::world::WorldState;
use crate::world::WorldV;

verus! {

/// Mathematical content of the ledger.
#[verifier::ext_equal]
pub struct LedgerV {
    /// The committed blocks in order.
    pub blocks: Seq<BlockV>,
    /// The account state after every committed transaction.
    pub accounts: WorldV,
}

/// The stored hash of the most recently appended block; what a new block's
/// `prev_hash` must equal.
pub open spec fn tip_hash(blocks: Seq<BlockV>) -> Option<Seq<char>> {
    if blocks.len() == 0 {
        None
    } else {
        blocks.last().hash
    }
}

/// Executing a block's transactions in order: the resulting state, or the
/// 0-based position of the first failing transaction with its error.
pub open spec fn block_exec(w: WorldV, transactions: Seq<TxnV>, is_genesis: bool) -> Result<
    WorldV,
    (int, ExecError),
>
    decreases transactions.len(),
{
    if transactions.len() == 0 {
        Ok(w)
    } else {
        match txn_step(w, transactions.first(), is_genesis) {
            Err(e) => Err((0, e)),
            Ok(w2) => shift_exec_err(1, block_exec(w2, transactions.drop_first(), is_genesis)),
        }
    }
}

/// Shifts the failing position of an execution outcome.
pub open spec fn shift_exec_err(offset: int, r: Result<WorldV, (int, ExecError)>) -> Result<
    WorldV,
    (int, ExecError),
> {
    match r {
        Ok(w) => Ok(w),
        Err((j, e)) => Err((offset + j, e)),
    }
}

/// Every token creation reached before the first failure credits a balance
/// it fits into (see `create_fits`).
pub open spec fn block_creates_fit(w: WorldV, transactions: Seq<TxnV>, is_genesis: bool) -> bool
    decreases transactions.len(),
{
    if transactions.len() == 0 {
        true
    } else {
        create_fits(w, transactions.first(), is_genesis) && match txn_step(
            w,
            transactions.first(),
            is_genesis,
        ) {
            Ok(w2) => block_creates_fit(w2, transactions.drop_first(), is_genesis),
            Err(_) => true,
        }
    }
}

/// Every transaction of the block is unsigned. A present signature never
/// verifies (verification is a stub), so this is what the audit accepts.
pub open spec fn sigs_ok(b: BlockV) -> bool {
    forall|t: int| 0 <= t < b.transactions.len() ==> (#[trigger] b.transactions[t].signature) is None
}

/// The linkage check for the block at position `i`: the genesis block points
/// nowhere, every later block points at its predecessor's stored hash.
pub open spec fn link_ok(blocks: Seq<BlockV>, i: int) -> bool {
    if i == 0 {
        blocks[0].prev_hash is None
    } else {
        blocks[i].prev_hash is Some && blocks[i].prev_hash == blocks[i - 1].hash
    }
}

/// All three audit checks for the block at position `i`.
pub open spec fn block_ok(blocks: Seq<BlockV>, i: int) -> bool {
    hash_ok(blocks[i]) && link_ok(blocks, i) && sigs_ok(blocks[i])
}

/// What `check_validity` decides: every block passes every check.
pub open spec fn chain_valid(blocks: Seq<BlockV>) -> bool {
    forall|i: int| 0 <= i < blocks.len() ==> #[trigger] block_ok(blocks, i)
}

/// `t` is the position of the first signed transaction of the block.
pub open spec fn first_signed_at(b: BlockV, t: int) -> bool {
    &&& 0 <= t < b.transactions.len()
    &&& b.transactions[t].signature is Some
    &&& forall|s: int| 0 <= s < t ==> (#[trigger] b.transactions[s].signature) is None
}

/// The error the audit reports for the block at position `i`, assuming all
/// earlier blocks passed: the checks run hash, then linkage, then
/// signatures. Block numbers in errors are 1-based, except the ill-linked
/// block of `PrevHashMismatch`, which is reported by its 0-based position.
pub open spec fn failure_described(blocks: Seq<BlockV>, i: int, e: ChainError) -> bool {
    if !hash_ok(blocks[i]) {
        e == (ChainError::HashMismatch { block: (i + 1) as usize })
    } else if i == 0 && !(blocks[0].prev_hash is None) {
        e == ChainError::GenesisPrevHashSet
    } else if i > 0 && blocks[i].prev_hash is None {
        e == (ChainError::MissingPrevHash { block: (i + 1) as usize })
    } else if i > 0 && blocks[i].prev_hash != blocks[i - 1].hash {
        e matches ChainError::PrevHashMismatch { block, expected, actual } && block == i as usize
            && expected@ == blocks[i].prev_hash->Some_0 && actual@ == blocks[i - 1].hash->Some_0
    } else {
        exists|t: int|
            #[trigger] first_signed_at(blocks[i], t) && e == (ChainError::InvalidSignature {
                block: (i + 1) as usize,
                transaction: (t + 1) as usize,
            })
    }
}

/// A complete diagnosis: `i` is the first block that fails a check, and `e`
/// describes the first check it fails.
pub open spec fn audit_failure(blocks: Seq<BlockV>, i: int, e: ChainError) -> bool {
    &&& 0 <= i < blocks.len()
    &&& forall|j: int| 0 <= j < i ==> #[trigger] block_ok(blocks, j)
    &&& !block_ok(blocks, i)
    &&& failure_described(blocks, i, e)
}

/// Blockchain container: the blocks accepted so far and the account state
/// they produced.
#[derive(Debug)]
pub struct Blockchain {
    /// Store for all the blocks which are accepted. Public so that tamper
    /// demonstrations can reach into a committed block; the audit exists to
    /// catch exactly that.
    pub blocks: Vec<Block>,
    /// The account state: id of the account and the account itself.
    pub accounts: AccountMap,
    /// Store for transactions which are pending: a currently unused,
    /// reserved buffer.
    pending_transactions: Vec<Transaction>,
}

impl View for Blockchain {
    type V = LedgerV;

    closed spec fn view(&self) -> LedgerV {
        LedgerV {
            blocks: self.blocks@.map_values(|b: Block| b@),
            accounts: self.accounts@,
        }
    }
}

impl WorldState for Blockchain {
    closed spec fn world(&self) -> WorldV {
        self.accounts@
    }

    closed spec fn well_formed(&self) -> bool {
        self.accounts.well_formed()
    }

    fn get_user_ids(&self) -> (ids: Vec<String>) {
        proof {
            self.accounts.lemma_dom();
        }
        self.accounts.keys()
    }

    fn get_account_by_id_mut(&mut self, id: &str) -> (r: Option<&mut Account>)
        ensures
            final(self)@.blocks == old(self)@.blocks,
    {
        self.accounts.get_mut(id)
    }

    fn get_account_by_id(&self, id: &str) -> (r: Option<&Account>) {
        self.accounts.get(id)
    }

    fn create_account(&mut self, id: String, account_type: AccountType) -> (r: Result<
        (),
        ExecError,
    >)
        ensures
            final(self)@.blocks == old(self)@.blocks,
    {
        if !self.accounts.contains_key(id.as_str()) {
            let account = Account::new(account_type);
            self.accounts.insert_new(id, account);
            Ok(())
        } else {
            Err(ExecError::AccountAlreadyExists)
        }
    }
}

/// Whether two optional hash strings hold the same text.
fn opt_hash_eq(a: &Option<String>, b: &Option<String>) -> (r: bool)
    ensures
        r == (opt_str_view(*a) == opt_str_view(*b)),
{
    match (a, b) {
        (None, None) => true,
        (Some(x), Some(y)) => *x == *y,
        _ => false,
    }
}

impl Blockchain {
    /// Create new chain: no blocks, no accounts.
    pub fn new() -> (r: Self)
        ensures
            r.well_formed(),
            r@.blocks == Seq::<BlockV>::empty(),
            r@.accounts == WorldV::empty(),
    {
        let r = Blockchain {
            blocks: Vec::new(),
            accounts: AccountMap::new(),
            pending_transactions: Vec::new(),
        };
        proof {
            assert(r@.blocks =~= Seq::<BlockV>::empty());
        }
        r
    }

    /// The stored hash of the last block, or nothing if the chain is empty.
    pub fn get_last_block_hash(&self) -> (r: Option<String>)
        ensures
            opt_str_view(r) == tip_hash(self@.blocks),
    {
        if self.blocks.len() == 0 {
            return None;
        }
        match &self.blocks[self.blocks.len() - 1].hash {
            Some(h) => Some(h.clone()),
            None => None,
        }
    }

    /// Append a block. The block must link to the current tip and hold at
    /// least one transaction; its transactions are then executed in order
    /// against the account state. On the first failure the state is restored
    /// verbatim and the block is rejected, so a block's transactions either
    /// all apply or none do.
    pub fn append_block(&mut self, block: Block) -> (r: Result<(), AppendError>)
        requires
            old(self).well_formed(),
            block_creates_fit(
                old(self)@.accounts,
                block@.transactions,
                old(self)@.blocks.len() == 0,
            ),
        ensures
            final(self).well_formed(),
            match r {
                Ok(()) => {
                    &&& block@.prev_hash == tip_hash(old(self)@.blocks)
                    &&& block@.transactions.len() > 0
                    &&& block_exec(
                        old(self)@.accounts,
                        block@.transactions,
                        old(self)@.blocks.len() == 0,
                    ) == Ok::<WorldV, (int, ExecError)>(final(self)@.accounts)
                    &&& final(self)@.blocks == old(self)@.blocks.push(block@)
                },
                Err(e) => {
                    &&& final(self)@ == old(self)@
                    &&& match e {
                        AppendError::BadLinkage => block@.prev_hash != tip_hash(old(self)@.blocks),
                        AppendError::EmptyBlock => block@.prev_hash == tip_hash(old(self)@.blocks)
                            && block@.transactions.len() == 0,
                        AppendError::Execution { index, cause } => {
                            &&& block@.prev_hash == tip_hash(old(self)@.blocks)
                            &&& block@.transactions.len() > 0
                            &&& index >= 1
                            &&& block_exec(
                                old(self)@.accounts,
                                block@.transactions,
                                old(self)@.blocks.len() == 0,
                            ) == Err::<WorldV, (int, ExecError)>((index - 1, cause))
                        },
                    }
                },
            },
    {
        let ghost bv = block@;
        let ghost w0 = self@.accounts;
        // Check if block is first in the chain (genesis).
        let is_genesis = self.blocks.len() == 0;

        let tip = self.get_last_block_hash();
        if !opt_hash_eq(&block.prev_hash, &tip) {
            return Err(AppendError::BadLinkage);
        }

        if block.get_transaction_count() == 0 {
            return Err(AppendError::EmptyBlock);
        }

        // Snapshot of the account state, restored verbatim if any
        // transaction of the block fails.
        let old_state = self.accounts.duplicate();

        let n = block.transactions.len();
        proof {
            assert(bv.transactions.skip(0) =~= bv.transactions);
        }
        let mut i: usize = 0;
        while i < n
            invariant
                self.accounts.well_formed(),
                old_state.well_formed(),
                old_state@ == w0,
                bv == block@,
                n == bv.transactions.len(),
                i <= n,
                self@.blocks == old(self)@.blocks,
                w0 == old(self)@.accounts,
                is_genesis == (old(self)@.blocks.len() == 0),
                bv.prev_hash == tip_hash(old(self)@.blocks),
                block_creates_fit(self.accounts@, bv.transactions.skip(i as int), is_genesis),
                block_exec(w0, bv.transactions, is_genesis) == shift_exec_err(
                    i as int,
                    block_exec(self.accounts@, bv.transactions.skip(i as int), is_genesis),
                ),
            decreases n - i,
        {
            let ghost rest = bv.transactions.skip(i as int);
            proof {
                assert(rest.first() == bv.transactions[i as int]);
                assert(rest.drop_first() =~= bv.transactions.skip(i + 1));
            }
            // Execute the transaction against the live account state.
            match block.transactions[i].execute(&mut self.accounts, &is_genesis) {
                Err(err) => {
                    // Recover state in case of fail, then reject the block.
                    self.accounts = old_state;
                    proof {
                        assert(self@ =~= old(self)@);
                        assert(block_exec(w0, bv.transactions, is_genesis) == Err::<
                            WorldV,
                            (int, ExecError),
                        >((i as int, err)));
                    }
                    return Err(AppendError::Execution { index: i + 1, cause: err });
                },
                Ok(()) => {},
            }
            i += 1;
        }
        proof {
            assert(bv.transactions.skip(n as int) =~= Seq::<TxnV>::empty());
        }
        self.blocks.push(block);
        proof {
            assert(self@.blocks =~= old(self)@.blocks.push(bv));
        }
        Ok(())
    }

    /// The read-only audit: recomputes every block's hash, re-checks every
    /// linkage, and re-checks every declared signature, reporting the first
    /// failure. Succeeds exactly when the whole chain is valid.
    pub fn check_validity(&self) -> (r: Result<(), ChainError>)
        ensures
            r is Ok <==> chain_valid(self@.blocks),
            r matches Err(e) ==> exists|i: int| #[trigger] audit_failure(self@.blocks, i, e),
    {
        let ghost bs = self@.blocks;
        let n = self.blocks.len();
        let mut block_num: usize = 0;
        while block_num < n
            invariant
                bs == self@.blocks,
                n == bs.len(),
                block_num <= n,
                forall|j: int| 0 <= j < block_num ==> #[trigger] block_ok(bs, j),
            decreases n - block_num,
        {
            let block = &self.blocks[block_num];
            // Check if the block's saved hash matches the calculated hash.
            if !block.verify_own_hash() {
                let e = ChainError::HashMismatch { block: block_num + 1 };
                proof {
                    assert(!block_ok(bs, block_num as int));
                    assert(audit_failure(bs, block_num as int, e));
                }
                return Err(e);
            }
            // Check that the previous-hash link points at the actual
            // previous block.
            if block_num == 0 {
                // The genesis block should point to nowhere.
                if block.prev_hash.is_some() {
                    let e = ChainError::GenesisPrevHashSet;
                    proof {
                        assert(!block_ok(bs, 0));
                        assert(audit_failure(bs, 0, e));
                    }
                    return Err(e);
                }
            } else {
                match &block.prev_hash {
                    None => {
                        let e = ChainError::MissingPrevHash { block: block_num + 1 };
                        proof {
                            assert(!block_ok(bs, block_num as int));
                            assert(audit_failure(bs, block_num as int, e));
                        }
                        return Err(e);
                    },
                    Some(prev_hash_proposed) => {
                        proof {
                            assert(block_ok(bs, block_num - 1));
                        }
                        let prev_hash_actual = match &self.blocks[block_num - 1].hash {
                            Some(h) => h,
                            None => unreached(),
                        };
                        if !(*prev_hash_proposed == *prev_hash_actual) {
                            let e = ChainError::PrevHashMismatch {
                                block: block_num,
                                expected: prev_hash_proposed.clone(),
                                actual: prev_hash_actual.clone(),
                            };
                            proof {
                                assert(!block_ok(bs, block_num as int));
                                assert(audit_failure(bs, block_num as int, e));
                            }
                            return Err(e);
                        }
                    },
                }
            }
            // Check if the transactions are signed correctly.
            let t_count = block.transactions.len();
            let mut transaction_num: usize = 0;
            while transaction_num < t_count
                invariant
                    bs == self@.blocks,
                    n == bs.len(),
                    block_num < n,
                    block == &self.blocks[block_num as int],
                    t_count == bs[block_num as int].transactions.len(),
                    transaction_num <= t_count,
                    forall|j: int| 0 <= j < block_num ==> #[trigger] block_ok(bs, j),
                    hash_ok(bs[block_num as int]),
                    link_ok(bs, block_num as int),
                    forall|s: int|
                        0 <= s < transaction_num ==> (#[trigger] bs[block_num as int].transactions[s].signature) is None,
                decreases t_count - transaction_num,
            {
                let transaction = &block.transactions[transaction_num];
                if transaction.is_signed() && !transaction.check_signature() {
                    let e = ChainError::InvalidSignature {
                        block: block_num + 1,
                        transaction: transaction_num + 1,
                    };
                    proof {
                        assert(first_signed_at(bs[block_num as int], transaction_num as int));
                        assert(!sigs_ok(bs[block_num as int]));
                        assert(!block_ok(bs, block_num as int));
                        assert(audit_failure(bs, block_num as int, e));
                    }
                    return Err(e);
                }
                transaction_num += 1;
            }
            proof {
                assert(sigs_ok(bs[block_num as int]));
                assert(block_ok(bs, block_num as int));
            }
            block_num += 1;
        }
        Ok(())
    }

    /// An independent copy of the whole chain and account state.
    pub fn duplicate(&self) -> (r: Self)
        requires
            self.well_formed(),
        ensures
            r.well_formed(),
            r@ == self@,
    {
        let mut blocks: Vec<Block> = Vec::new();
        let mut i: usize = 0;
        while i < self.blocks.len()
            invariant
                i <= self.blocks@.len(),
                blocks@.len() == i,
                forall|m: int| 0 <= m < i ==> blocks@[m]@ == self.blocks@[m]@,
            decreases self.blocks@.len() - i,
        {
            blocks.push(self.blocks[i].duplicate());
            i += 1;
        }
        let r = Blockchain {
            blocks,
            accounts: self.accounts.duplicate(),
            pending_transactions: Vec::new(),
        };
        proof {
            assert(r@.blocks =~= self@.blocks);
        }
        r
    }
}

/// A chain with no blocks passes the audit.
pub proof fn lemma_empty_chain_valid()
    ensures
        chain_valid(Seq::<BlockV>::empty()),
{
}

/// Appending a well-formed block (stored hash correct, every transaction
/// unsigned) that links to the current tip keeps the chain valid: after any
/// sequence of successful appends of such blocks, the audit succeeds.
pub proof fn lemma_append_preserves_validity(blocks: Seq<BlockV>, b: BlockV)
    requires
        chain_valid(blocks),
        hash_ok(b),
        sigs_ok(b),
        b.prev_hash == tip_hash(blocks),
    ensures
        chain_valid(blocks.push(b)),
{
    let bs = blocks.push(b);
    assert forall|i: int| 0 <= i < bs.len() implies #[trigger] block_ok(bs, i) by {
        if i < blocks.len() {
            assert(block_ok(blocks, i));
            assert(bs[i] == blocks[i]);
            if i > 0 {
                assert(bs[i - 1] == blocks[i - 1]);
            }
        } else {
            if blocks.len() > 0 {
                assert(block_ok(blocks, blocks.len() - 1));
            }
        }
    }
}

/// Overwriting anything a committed block's hash covers (for instance a
/// transaction payload) without recomputing the stored hash makes the whole
/// chain invalid: the audit is guaranteed to fail on such a chain.
pub proof fn lemma_tamper_invalidates(blocks: Seq<BlockV>, i: int)
    requires
        0 <= i < blocks.len(),
        !hash_ok(blocks[i]),
    ensures
        !chain_valid(blocks),
{
    assert(!block_ok(blocks, i));
}

} // verus!
