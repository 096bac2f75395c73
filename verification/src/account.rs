//! A single identity's account: a token balance plus a key/value store.
use vstd::prelude::*;

verus! {

/// The kind of an account.
#[derive(Debug, Clone, Copy, PartialEq, Eq, Structural)]
pub enum AccountType {
    /// A common user account.
    User,
}

/// Mathematical content of an account.
#[verifier::ext_equal]
pub struct AccountV {
    /// Amount of tokens held.
    pub tokens: u128,
    /// The key/value entries of the account's store, in insertion order.
    pub store: Seq<(Seq<char>, Seq<char>)>,
    /// The account's kind.
    pub account_type: AccountType,
}

impl AccountV {
    /// The content of a freshly created account: no tokens, empty store.
    pub open spec fn fresh(account_type: AccountType) -> AccountV {
        AccountV { tokens: 0, store: Seq::empty(), account_type }
    }
}

/// An account. Created exactly once per identity and mutated only through
/// transaction execution.
#[derive(Debug)]
pub struct Account {
    /// Store for the account's data.
    store: Vec<(String, String)>,
    /// Account type.
    account_type: AccountType,
    /// Amount of tokens.
    tokens: u128,
}

impl View for Account {
    type V = AccountV;

    closed spec fn view(&self) -> AccountV {
        AccountV {
            tokens: self.tokens,
            store: self.store@.map_values(|p: (String, String)| (p.0@, p.1@)),
            account_type: self.account_type,
        }
    }
}

impl Account {
    /// Constructor: an empty account of the given kind.
    pub fn new(account_type: AccountType) -> (r: Self)
        ensures
            r@ == AccountV::fresh(account_type),
    {
        let r = Self { tokens: 0, account_type, store: Vec::new() };
        proof {
            assert(r@.store =~= Seq::<(Seq<char>, Seq<char>)>::empty());
        }
        r
    }

    /// The current token balance.
    pub fn tokens(&self) -> (t: u128)
        ensures
            t == self@.tokens,
    {
        self.tokens
    }

    /// Overwrites the token balance, leaving everything else unchanged.
    pub fn set_tokens(&mut self, tokens: u128)
        ensures
            final(self)@ == (AccountV { tokens, ..old(self)@ }),
    {
        self.tokens = tokens;
    }

    /// Adds `amount` to the balance. The caller must know the sum fits.
    pub fn credit(&mut self, amount: u128)
        requires
            old(self)@.tokens + amount <= u128::MAX,
        ensures
            final(self)@ == (AccountV {
                tokens: (old(self)@.tokens + amount) as u128,
                ..old(self)@
            }),
    {
        self.tokens = self.tokens + amount;
    }

    /// An independent copy with the same content.
    pub fn duplicate(&self) -> (r: Self)
        ensures
            r@ == self@,
    {
        let mut store: Vec<(String, String)> = Vec::new();
        let mut i: usize = 0;
        while i < self.store.len()
            invariant
                i <= self.store@.len(),
                store@ == self.store@.take(i as int),
            decreases self.store@.len() - i,
        {
            let p = &self.store[i];
            store.push((p.0.clone(), p.1.clone()));
            proof {
                assert(store@ =~= self.store@.take(i + 1));
            }
            i += 1;
        }
        proof {
            assert(self.store@.take(self.store@.len() as int) =~= self.store@);
        }
        Self { store, account_type: self.account_type, tokens: self.tokens }
    }
}

} // verus!
