//! Blocks: ordered batches of transactions with linkage to the previous
//! block and a self-describing content hash.
use vstd::prelude::*;
use crate::hashes::blake2b_digest;
use crate::hashes::blake2b_of;
use crate::hashes::byte_vector_to_string;
use crate::hashes::chars_of_bytes;
use crate::transaction::Transaction;
use crate::transaction::TxnV;
use crate::transaction::txn_hash_bytes;

verus! {

/// Mathematical content of a block.
#[verifier::ext_equal]
pub struct BlockV {
    /// The stored content hash, if one has been computed.
    pub hash: Option<Seq<char>>,
    /// The stored hash of the predecessor, if the block claims one.
    pub prev_hash: Option<Seq<char>>,
    /// The block's sequence number (opaque metadata, not validated).
    pub unqnum: i128,
    /// The transactions, in append order.
    pub transactions: Seq<TxnV>,
}

/// The view of an optional hash string.
pub open spec fn opt_str_view(o: Option<String>) -> Option<Seq<char>> {
    match o {
        Some(s) => Some(s@),
        None => None,
    }
}

/// The rendered text of a block's linkage metadata: a deterministic function
/// of the previous hash and the sequence number alone (what `format!` prints
/// for the pair of them).
pub uninterp spec fn block_meta_repr(prev_hash: Option<Seq<char>>, unqnum: i128) -> Seq<u8>;

/// Relies on std's `format!` over the `Debug` implementations of `Option`,
/// `String` and `i128`: the rendered bytes are a deterministic function of
/// the two values alone.
#[verifier::external_body]
fn block_meta_repr_bytes(prev_hash: &Option<String>, unqnum: i128) -> (r: Vec<u8>)
    ensures
        r@ == block_meta_repr(opt_str_view(*prev_hash), unqnum),
{
    format!("{:?}", (prev_hash, &unqnum)).into_bytes()
}

/// The ordered concatenation of every transaction's own content hash.
pub open spec fn txn_hashes_concat(transactions: Seq<TxnV>) -> Seq<u8>
    decreases transactions.len(),
{
    if transactions.len() == 0 {
        Seq::empty()
    } else {
        txn_hashes_concat(transactions.drop_last()) + txn_hash_bytes(transactions.last())
    }
}

/// The bytes a block's content hash is computed over: each transaction's
/// hash in order, then the rendered linkage metadata.
pub open spec fn block_message(b: BlockV) -> Seq<u8> {
    txn_hashes_concat(b.transactions) + block_meta_repr(b.prev_hash, b.unqnum)
}

/// A block's content digest.
pub open spec fn block_digest_bytes(b: BlockV) -> Seq<u8> {
    blake2b_of(block_message(b))
}

/// A block's content hash in its string form.
pub open spec fn block_hash_chars(b: BlockV) -> Seq<char> {
    chars_of_bytes(block_digest_bytes(b))
}

/// Whether the stored hash exists and equals the recomputed content hash.
pub open spec fn hash_ok(b: BlockV) -> bool {
    b.hash == Some(block_hash_chars(b))
}

/// An ordered batch of transactions plus linkage. The fields are public:
/// blocks are mutated freely before submission, and reaching into a stored
/// block to overwrite its contents is the deliberate tamper-simulation hook
/// that the integrity audit is tested against.
#[derive(Debug)]
pub struct Block {
    /// The stored content hash.
    pub hash: Option<String>,
    /// The hash this block claims its predecessor has.
    pub prev_hash: Option<String>,
    /// Sequence number.
    pub unqnum: i128,
    /// The transactions, in append order.
    pub transactions: Vec<Transaction>,
}

impl View for Block {
    type V = BlockV;

    open spec fn view(&self) -> BlockV {
        BlockV {
            hash: opt_str_view(self.hash),
            prev_hash: opt_str_view(self.prev_hash),
            unqnum: self.unqnum,
            transactions: self.transactions@.map_values(|t: Transaction| t@),
        }
    }
}

impl Block {
    /// A fresh block pointing at the given predecessor hash, with no
    /// transactions and no hash yet.
    pub fn new(prev_hash: Option<String>) -> (r: Self)
        ensures
            r@.unqnum == 0,
            r@.hash is None,
            r@.prev_hash == opt_str_view(prev_hash),
            r@.transactions == Seq::<TxnV>::empty(),
    {
        let r = Block { unqnum: 0, hash: None, prev_hash, transactions: Vec::new() };
        proof {
            assert(r@.transactions =~= Seq::<TxnV>::empty());
        }
        r
    }

    /// Changes the sequence number and updates the stored hash.
    pub fn set_unqnum(&mut self, unqnum: i128)
        ensures
            final(self)@.transactions == old(self)@.transactions,
            final(self)@.prev_hash == old(self)@.prev_hash,
            final(self)@.unqnum == unqnum,
            hash_ok(final(self)@),
    {
        self.unqnum = unqnum;
        self.update_hash();
    }

    /// The content hash of the whole block including its transactions: the
    /// digest of every transaction's hash in order followed by the linkage
    /// metadata.
    pub fn calculate_hash(&self) -> (r: Vec<u8>)
        ensures
            r@ == block_digest_bytes(self@),
            r@.len() == 64,
    {
        let ghost tv = self@.transactions;
        let mut message: Vec<u8> = Vec::new();
        let mut i: usize = 0;
        while i < self.transactions.len()
            invariant
                i <= self.transactions@.len(),
                tv == self@.transactions,
                tv.len() == self.transactions@.len(),
                message@ == txn_hashes_concat(tv.take(i as int)),
            decreases self.transactions@.len() - i,
        {
            let mut transaction_hash = self.transactions[i].calculate_hash();
            message.append(&mut transaction_hash);
            proof {
                assert(tv.take(i + 1).drop_last() =~= tv.take(i as int));
                assert(tv.take(i + 1).last() == tv[i as int]);
            }
            i += 1;
        }
        proof {
            assert(tv.take(tv.len() as int) =~= tv);
        }
        let mut meta = block_meta_repr_bytes(&self.prev_hash, self.unqnum);
        message.append(&mut meta);
        blake2b_digest(message.as_slice())
    }

    /// Appends a transaction and updates the stored hash.
    pub fn add_transaction(&mut self, transaction: Transaction)
        ensures
            final(self)@.transactions == old(self)@.transactions.push(transaction@),
            final(self)@.prev_hash == old(self)@.prev_hash,
            final(self)@.unqnum == old(self)@.unqnum,
            hash_ok(final(self)@),
    {
        let ghost tv = transaction@;
        self.transactions.push(transaction);
        proof {
            assert(self@.transactions =~= old(self)@.transactions.push(tv));
        }
        self.update_hash();
    }

    /// Will return the amount of transactions.
    pub fn get_transaction_count(&self) -> (n: usize)
        ensures
            n == self@.transactions.len(),
    {
        self.transactions.len()
    }

    /// Recomputes the stored hash from everything currently inside the
    /// block. Public only so that integrity demonstrations can reach it.
    pub fn update_hash(&mut self)
        ensures
            final(self)@.transactions == old(self)@.transactions,
            final(self)@.prev_hash == old(self)@.prev_hash,
            final(self)@.unqnum == old(self)@.unqnum,
            hash_ok(final(self)@),
    {
        let digest = self.calculate_hash();
        self.hash = Some(byte_vector_to_string(digest.as_slice()));
    }

    /// True iff a hash is stored and it equals the freshly recomputed
    /// content hash.
    pub fn verify_own_hash(&self) -> (r: bool)
        ensures
            r == hash_ok(self@),
    {
        match &self.hash {
            None => false,
            Some(stored) => {
                let digest = self.calculate_hash();
                let computed = byte_vector_to_string(digest.as_slice());
                *stored == computed
            },
        }
    }

    /// An independent copy with the same content.
    pub fn duplicate(&self) -> (r: Self)
        ensures
            r@ == self@,
    {
        let hash = match &self.hash {
            Some(h) => Some(h.clone()),
            None => None,
        };
        let prev_hash = match &self.prev_hash {
            Some(h) => Some(h.clone()),
            None => None,
        };
        let mut transactions: Vec<Transaction> = Vec::new();
        let mut i: usize = 0;
        while i < self.transactions.len()
            invariant
                i <= self.transactions@.len(),
                transactions@.len() == i,
                forall|m: int| 0 <= m < i ==> transactions@[m]@ == self.transactions@[m]@,
            decreases self.transactions@.len() - i,
        {
            transactions.push(self.transactions[i].duplicate());
            i += 1;
        }
        let r = Block { hash, prev_hash, unqnum: self.unqnum, transactions };
        proof {
            assert(r@.transactions =~= self@.transactions);
        }
        r
    }
}

} // verus!
