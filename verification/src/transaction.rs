//! Transactions: immutable state-transition intents, their content hashes,
//! and their execution against a world state.
use vstd::prelude::*;
use vstd::pervasive::unreached;
use crate::account::AccountType;
use crate::account::AccountV;
use crate::errors::ExecError;
use crate::hashes::blake2b_digest;
use crate::hashes::blake2b_of;
use crate::world::WorldState;
use crate::world::WorldV;

verus! {

/// The kinds of state transition a transaction can request.
#[derive(Debug, PartialEq)]
pub enum TransactionData {
    /// Store for a new user account.
    CreateUserAccount(String),
    /// Changing or creating a value in an account's store (declared but not
    /// executed: an unimplemented transaction kind).
    ChangeStoreValue { key: String, value: String },
    /// Moving tokens from the sender to another owner.
    TransferTokens { to: String, amount: u128 },
    /// Creating tokens, only permitted during genesis.
    CreateTokens { receiver: String, amount: u128 },
}

/// Mathematical content of a transaction payload.
pub enum RecordV {
    CreateUserAccount { id: Seq<char> },
    ChangeStoreValue { key: Seq<char>, value: Seq<char> },
    TransferTokens { to: Seq<char>, amount: u128 },
    CreateTokens { receiver: Seq<char>, amount: u128 },
}

impl View for TransactionData {
    type V = RecordV;

    open spec fn view(&self) -> RecordV {
        match self {
            TransactionData::CreateUserAccount(id) => RecordV::CreateUserAccount { id: id@ },
            TransactionData::ChangeStoreValue { key, value } => RecordV::ChangeStoreValue {
                key: key@,
                value: value@,
            },
            TransactionData::TransferTokens { to, amount } => RecordV::TransferTokens {
                to: to@,
                amount: *amount,
            },
            TransactionData::CreateTokens { receiver, amount } => RecordV::CreateTokens {
                receiver: receiver@,
                amount: *amount,
            },
        }
    }
}

impl TransactionData {
    /// An independent copy of the payload.
    pub fn duplicate(&self) -> (r: Self)
        ensures
            r@ == self@,
    {
        match self {
            TransactionData::CreateUserAccount(id) => TransactionData::CreateUserAccount(
                id.clone(),
            ),
            TransactionData::ChangeStoreValue { key, value } => TransactionData::ChangeStoreValue {
                key: key.clone(),
                value: value.clone(),
            },
            TransactionData::TransferTokens { to, amount } => TransactionData::TransferTokens {
                to: to.clone(),
                amount: *amount,
            },
            TransactionData::CreateTokens { receiver, amount } => TransactionData::CreateTokens {
                receiver: receiver.clone(),
                amount: *amount,
            },
        }
    }
}

/// Mathematical content of a transaction.
#[verifier::ext_equal]
pub struct TxnV {
    /// Sequence number (uniqueness is not enforced anywhere in this scope).
    pub unqnum: u128,
    /// The sending identity.
    pub from: Seq<char>,
    /// Wall-clock creation timestamp in nanoseconds; part of the hashed
    /// content, so structurally identical transactions created at different
    /// instants hash differently.
    pub created_at: u128,
    /// The requested state transition.
    pub record: RecordV,
    /// The signature, if one is attached.
    pub signature: Option<Seq<char>>,
}

/// A single state-transition intent plus hashing and signature-presence
/// metadata.
#[derive(Debug)]
pub struct Transaction {
    /// Unique number.
    unqnum: u128,
    /// Account id of the sender.
    from: String,
    /// Time the transaction was created, in nanoseconds since the epoch.
    created_at: u128,
    /// Transaction type and its information. Public so that integrity tests
    /// can overwrite a stored payload and watch the audit catch it; this is
    /// a deliberate trust-boundary violation hook, not a supported write
    /// path.
    pub record: TransactionData,
    /// Signature of the message (basic auth).
    signature: Option<String>,
}

impl View for Transaction {
    type V = TxnV;

    closed spec fn view(&self) -> TxnV {
        TxnV {
            unqnum: self.unqnum,
            from: self.from@,
            created_at: self.created_at,
            record: self.record@,
            signature: match self.signature {
                Some(ref s) => Some(s@),
                None => None,
            },
        }
    }
}

/// The rendered text of a transaction's hashed content: a deterministic
/// function of the four fields alone (what `format!` prints for the tuple of
/// them through the derived `Debug` implementations).
pub uninterp spec fn txn_repr(
    created_at: u128,
    record: RecordV,
    from: Seq<char>,
    unqnum: u128,
) -> Seq<u8>;

/// Relies on std's `format!` over the derived `Debug` implementations: the
/// rendered bytes are a deterministic function of the four fields alone.
#[verifier::external_body]
fn txn_repr_bytes(
    created_at: u128,
    record: &TransactionData,
    from: &String,
    unqnum: u128,
) -> (r: Vec<u8>)
    ensures
        r@ == txn_repr(created_at, record@, from@, unqnum),
{
    format!("{:?}", (created_at, record, from, unqnum)).into_bytes()
}

/// Relies on std's `SystemTime::now`: a wall-clock timestamp (nanoseconds
/// since the epoch, or zero if the clock reads before it). Nothing is
/// promised of the value.
#[verifier::external_body]
fn current_time_nanos() -> u128 {
    match std::time::SystemTime::now().duration_since(std::time::UNIX_EPOCH) {
        Ok(elapsed) => elapsed.as_nanos(),
        Err(_) => 0,
    }
}

/// The content hash of a transaction: the digest of its rendered content.
pub open spec fn txn_hash_bytes(t: TxnV) -> Seq<u8> {
    blake2b_of(txn_repr(t.created_at, t.record, t.from, t.unqnum))
}

/// The effect of one transaction on a world state: either the new state or
/// the error that the execution engine reports.
///
/// A transfer reads both balances before either write. When the receiver is
/// the sender itself, the later receiver write therefore lands on the
/// pre-read balance and the account ends at its old balance plus `amount`: a
/// self-transfer increases supply outside genesis. The engine computes it
/// so, and this transition states it rather than hide it.
pub open spec fn txn_step(w: WorldV, t: TxnV, is_genesis: bool) -> Result<WorldV, ExecError> {
    if !w.contains_key(t.from) && !is_genesis {
        Err(ExecError::SenderMissing)
    } else {
        match t.record {
            RecordV::CreateUserAccount { id } => {
                if w.contains_key(id) {
                    Err(ExecError::AccountAlreadyExists)
                } else {
                    Ok(w.insert(id, AccountV::fresh(AccountType::User)))
                }
            },
            RecordV::CreateTokens { receiver, amount } => {
                if !is_genesis {
                    Err(ExecError::TokenCreationOutsideGenesis)
                } else if w.contains_key(receiver) {
                    Ok(
                        w.insert(
                            receiver,
                            (AccountV {
                                tokens: (w[receiver].tokens + amount) as u128,
                                ..w[receiver]
                            }),
                        ),
                    )
                } else {
                    Err(ExecError::ReceiverMissing)
                }
            },
            RecordV::TransferTokens { to, amount } => {
                if !w.contains_key(to) {
                    Err(ExecError::ReceiverMissing)
                } else if !w.contains_key(t.from) {
                    Err(ExecError::SenderMissing)
                } else if w[to].tokens + amount <= u128::MAX && amount <= w[t.from].tokens {
                    Ok(
                        w.insert(
                            t.from,
                            (AccountV { tokens: (w[t.from].tokens - amount) as u128, ..w[t.from] }),
                        ).insert(
                            to,
                            (AccountV { tokens: (w[to].tokens + amount) as u128, ..w[to] }),
                        ),
                    )
                } else {
                    Err(ExecError::Overspent)
                }
            },
            RecordV::ChangeStoreValue { .. } => Err(ExecError::NotImplemented),
        }
    }
}

/// Token creation originates supply with plain addition, guarded only by the
/// genesis restriction; the one input on which that addition cannot be
/// represented is excluded from execution.
pub open spec fn create_fits(w: WorldV, t: TxnV, is_genesis: bool) -> bool {
    match t.record {
        RecordV::CreateTokens { receiver, amount } => (is_genesis && w.contains_key(receiver))
            ==> w[receiver].tokens + amount <= u128::MAX,
        _ => true,
    }
}

impl Transaction {
    /// A fresh, unsigned transaction stamped with the current wall-clock
    /// time.
    pub fn new(from: String, transaction_data: TransactionData, unqnum: u128) -> (r: Self)
        ensures
            r@.from == from@,
            r@.record == transaction_data@,
            r@.unqnum == unqnum,
            r@.signature is None,
    {
        Transaction {
            from,
            unqnum,
            record: transaction_data,
            created_at: current_time_nanos(),
            signature: None,
        }
    }

    /// Changes the world state according to the transaction's command.
    /// Succeeds exactly when the abstract transition does, reports the same
    /// error it does, and leaves the state untouched on failure.
    pub fn execute<T: WorldState>(&self, world_state: &mut T, is_initial: &bool) -> (r: Result<
        (),
        ExecError,
    >)
        requires
            old(world_state).well_formed(),
            create_fits(old(world_state).world(), self@, *is_initial),
        ensures
            final(world_state).well_formed(),
            match r {
                Ok(()) => txn_step(old(world_state).world(), self@, *is_initial) == Ok::<
                    WorldV,
                    ExecError,
                >(final(world_state).world()),
                Err(e) => txn_step(old(world_state).world(), self@, *is_initial) == Err::<
                    WorldV,
                    ExecError,
                >(e) && final(world_state).world() == old(world_state).world(),
            },
    {
        let ghost w0 = old(world_state).world();
        // No one off the chain can execute transactions: the sender must
        // already exist, except while the genesis block originates state.
        let sender_exists = match world_state.get_account_by_id(self.from.as_str()) {
            Some(_) => true,
            None => false,
        };
        if !sender_exists && !*is_initial {
            return Err(ExecError::SenderMissing);
        }
        match &self.record {
            TransactionData::CreateUserAccount(account) => world_state.create_account(
                account.clone(),
                AccountType::User,
            ),
            TransactionData::CreateTokens { receiver, amount } => {
                if !*is_initial {
                    return Err(ExecError::TokenCreationOutsideGenesis);
                }
                // The receiving account must exist even during genesis.
                match world_state.get_account_by_id_mut(receiver.as_str()) {
                    Some(account) => {
                        account.credit(*amount);
                        Ok(())
                    },
                    None => Err(ExecError::ReceiverMissing),
                }
            },
            TransactionData::TransferTokens { to, amount } => {
                let recv_tokens: u128;
                let sender_tokens: u128;
                match world_state.get_account_by_id_mut(to.as_str()) {
                    Some(recv) => {
                        recv_tokens = recv.tokens();
                    },
                    None => {
                        return Err(ExecError::ReceiverMissing);
                    },
                }
                proof {
                    assert(world_state.world() =~= w0);
                }
                match world_state.get_account_by_id_mut(self.from.as_str()) {
                    Some(sender) => {
                        sender_tokens = sender.tokens();
                    },
                    None => {
                        proof {
                            assert(world_state.world() =~= w0);
                        }
                        return Err(ExecError::SenderMissing);
                    },
                }
                proof {
                    assert(world_state.world() =~= w0);
                }
                let balance_recv_new = recv_tokens.checked_add(*amount);
                let balance_sender_new = sender_tokens.checked_sub(*amount);
                if balance_recv_new.is_some() && balance_sender_new.is_some() {
                    // Both balances are written back-to-back: no later
                    // transaction can observe a half-applied transfer.
                    match world_state.get_account_by_id_mut(self.from.as_str()) {
                        Some(sender) => sender.set_tokens(balance_sender_new.unwrap()),
                        None => unreached(),
                    }
                    match world_state.get_account_by_id_mut(to.as_str()) {
                        Some(recv) => recv.set_tokens(balance_recv_new.unwrap()),
                        None => unreached(),
                    }
                    Ok(())
                } else {
                    Err(ExecError::Overspent)
                }
            },
            TransactionData::ChangeStoreValue { .. } => {
                // Not implemented transaction type.
                Err(ExecError::NotImplemented)
            },
        }
    }

    /// The content hash: the digest of `(created_at, record, from, unqnum)`.
    pub fn calculate_hash(&self) -> (r: Vec<u8>)
        ensures
            r@ == txn_hash_bytes(self@),
            r@.len() == 64,
    {
        let message = txn_repr_bytes(self.created_at, &self.record, &self.from, self.unqnum);
        blake2b_digest(message.as_slice())
    }

    /// Whether the signature, if any, verifies. A transaction with no
    /// signature never verifies; verification itself is an unimplemented
    /// stub, so a present signature never verifies either — callers must not
    /// treat "signed" as "valid".
    pub fn check_signature(&self) -> (r: bool)
        ensures
            !r,
    {
        if !self.is_signed() {
            return false;
        }
        false
    }

    /// Whether a signature is attached.
    pub fn is_signed(&self) -> (r: bool)
        ensures
            r == (self@.signature is Some),
    {
        self.signature.is_some()
    }

    /// An independent copy with the same content.
    pub fn duplicate(&self) -> (r: Self)
        ensures
            r@ == self@,
    {
        Transaction {
            unqnum: self.unqnum,
            from: self.from.clone(),
            created_at: self.created_at,
            record: self.record.duplicate(),
            signature: match &self.signature {
                Some(s) => Some(s.clone()),
                None => None,
            },
        }
    }
}

/// A successful transfer moves exactly `amount` from sender to receiver:
/// the sender's balance never underflows (an overdraft is a detected error,
/// not a wraparound) and the receiver's never silently overflows.
pub proof fn lemma_transfer_bounds(w: WorldV, t: TxnV, is_genesis: bool, to: Seq<char>, amount: u128)
    requires
        t.record == (RecordV::TransferTokens { to, amount }),
        txn_step(w, t, is_genesis) is Ok,
    ensures
        w.contains_key(t.from) && w.contains_key(to),
        amount <= w[t.from].tokens,
        w[to].tokens + amount <= u128::MAX,
        txn_step(w, t, is_genesis)->Ok_0[to].tokens == w[to].tokens + amount,
        to != t.from ==> txn_step(w, t, is_genesis)->Ok_0[t.from].tokens == w[t.from].tokens
            - amount,
{
}

/// Token creation outside genesis always fails, whatever the account state.
pub proof fn lemma_create_tokens_needs_genesis(w: WorldV, t: TxnV, receiver: Seq<char>, amount: u128)
    requires
        t.record == (RecordV::CreateTokens { receiver, amount }),
    ensures
        txn_step(w, t, false) is Err,
{
}

} // verus!
