//! The world state: the mapping of identities to accounts, and the
//! capability interface through which the execution engine reaches it.
use vstd::prelude::*;
use crate::account::Account;
use crate::account::AccountType;
use crate::account::AccountV;
use crate::errors::ExecError;

verus! {

/// The abstract world state: identity to account content.
pub type WorldV = Map<Seq<char>, AccountV>;

/// The views of a sequence of identity strings.
pub open spec fn key_seq_of(ids: Seq<String>) -> Seq<Seq<char>> {
    ids.map_values(|s: String| s@)
}

/// The map described by parallel sequences of identities and accounts; a
/// later entry shadows an earlier one with the same identity (well-formed
/// states have none).
pub open spec fn map_of(ids: Seq<String>, accounts: Seq<Account>) -> WorldV
    decreases ids.len(),
{
    if ids.len() == 0 || accounts.len() == 0 {
        Map::empty()
    } else {
        map_of(ids.drop_last(), accounts.drop_last()).insert(ids.last()@, accounts.last()@)
    }
}

proof fn lemma_key_seq_drop_last(ids: Seq<String>)
    requires
        ids.len() > 0,
    ensures
        key_seq_of(ids.drop_last()) =~= key_seq_of(ids).drop_last(),
{
}

proof fn lemma_map_of_contains(ids: Seq<String>, accounts: Seq<Account>, k: Seq<char>)
    requires
        ids.len() == accounts.len(),
    ensures
        map_of(ids, accounts).contains_key(k) <==> key_seq_of(ids).contains(k),
    decreases ids.len(),
{
    if ids.len() > 0 {
        lemma_map_of_contains(ids.drop_last(), accounts.drop_last(), k);
        lemma_key_seq_drop_last(ids);
        let keys = key_seq_of(ids);
        if map_of(ids, accounts).contains_key(k) {
            if k == ids.last()@ {
                assert(keys[ids.len() - 1] == k);
            } else {
                let i = choose|i: int| 0 <= i < keys.drop_last().len() && keys.drop_last()[i] == k;
                assert(keys[i] == k);
            }
        }
        if keys.contains(k) {
            let i = choose|i: int| 0 <= i < keys.len() && keys[i] == k;
            if i < ids.len() - 1 {
                assert(keys.drop_last()[i] == k);
            } else {
                assert(k == ids.last()@);
            }
        }
    }
}

proof fn lemma_no_dup_drop_last(keys: Seq<Seq<char>>)
    requires
        keys.len() > 0,
        keys.no_duplicates(),
    ensures
        keys.drop_last().no_duplicates(),
{
    assert forall|i: int, j: int|
        0 <= i < keys.drop_last().len() && 0 <= j < keys.drop_last().len() && i != j implies keys.drop_last()[i]
        != keys.drop_last()[j] by {
        assert(keys[i] != keys[j]);
    }
}

proof fn lemma_map_of_index(ids: Seq<String>, accounts: Seq<Account>, i: int)
    requires
        ids.len() == accounts.len(),
        key_seq_of(ids).no_duplicates(),
        0 <= i < ids.len(),
    ensures
        map_of(ids, accounts).contains_key(ids[i]@),
        map_of(ids, accounts)[ids[i]@] == accounts[i]@,
    decreases ids.len(),
{
    lemma_key_seq_drop_last(ids);
    lemma_no_dup_drop_last(key_seq_of(ids));
    if i < ids.len() - 1 {
        lemma_map_of_index(ids.drop_last(), accounts.drop_last(), i);
        assert(key_seq_of(ids)[i] != key_seq_of(ids)[ids.len() - 1]);
    }
}

/// Updating the account at position `i` updates the described map at the
/// identity stored there.
pub broadcast proof fn lemma_map_of_update(
    ids: Seq<String>,
    accounts: Seq<Account>,
    i: int,
    account: Account,
)
    requires
        ids.len() == accounts.len(),
        key_seq_of(ids).no_duplicates(),
        0 <= i < ids.len(),
    ensures
        #[trigger] map_of(ids, accounts.update(i, account)) == map_of(ids, accounts).insert(
            ids[i]@,
            account@,
        ),
    decreases ids.len(),
{
    let n = ids.len();
    lemma_key_seq_drop_last(ids);
    lemma_no_dup_drop_last(key_seq_of(ids));
    if i == n - 1 {
        assert(accounts.update(i, account).drop_last() =~= accounts.drop_last());
        assert(map_of(ids, accounts.update(i, account)) =~= map_of(ids, accounts).insert(
            ids[i]@,
            account@,
        ));
    } else {
        assert(accounts.update(i, account).drop_last() =~= accounts.drop_last().update(i, account));
        lemma_map_of_update(ids.drop_last(), accounts.drop_last(), i, account);
        assert(key_seq_of(ids)[i] != key_seq_of(ids)[n - 1]);
        assert(map_of(ids, accounts.update(i, account)) =~= map_of(ids, accounts).insert(
            ids[i]@,
            account@,
        ));
    }
}

proof fn lemma_map_of_push(ids: Seq<String>, accounts: Seq<Account>, id: String, account: Account)
    requires
        ids.len() == accounts.len(),
    ensures
        map_of(ids.push(id), accounts.push(account)) == map_of(ids, accounts).insert(id@, account@),
{
    assert(ids.push(id).drop_last() =~= ids);
    assert(accounts.push(account).drop_last() =~= accounts);
    assert(map_of(ids.push(id), accounts.push(account)) =~= map_of(ids, accounts).insert(
        id@,
        account@,
    ));
}

proof fn lemma_map_of_dom(ids: Seq<String>, accounts: Seq<Account>)
    requires
        ids.len() == accounts.len(),
    ensures
        map_of(ids, accounts).dom() =~= key_seq_of(ids).to_set(),
{
    assert forall|k: Seq<char>|
        map_of(ids, accounts).dom().contains(k) <==> key_seq_of(ids).to_set().contains(k) by {
        lemma_map_of_contains(ids, accounts, k);
    }
}

proof fn lemma_map_of_congruence(ids: Seq<String>, accounts1: Seq<Account>, accounts2: Seq<Account>)
    requires
        ids.len() == accounts1.len(),
        accounts1.len() == accounts2.len(),
        forall|i: int| 0 <= i < accounts1.len() ==> accounts1[i]@ == accounts2[i]@,
    ensures
        map_of(ids, accounts1) == map_of(ids, accounts2),
    decreases ids.len(),
{
    if ids.len() > 0 {
        lemma_map_of_congruence(ids.drop_last(), accounts1.drop_last(), accounts2.drop_last());
        assert(accounts1.last()@ == accounts2.last()@);
        assert(map_of(ids, accounts1) =~= map_of(ids, accounts2));
    }
}

/// The ledger's store of accounts: identities and accounts kept in matching
/// insertion order, each identity present at most once.
#[derive(Debug)]
pub struct AccountMap {
    ids: Vec<String>,
    accounts: Vec<Account>,
}

impl View for AccountMap {
    type V = WorldV;

    closed spec fn view(&self) -> WorldV {
        map_of(self.ids@, self.accounts@)
    }
}

impl AccountMap {
    /// The identities in insertion order.
    pub closed spec fn key_seq(&self) -> Seq<Seq<char>> {
        key_seq_of(self.ids@)
    }

    /// Internal consistency: one account per identity, no identity twice.
    pub closed spec fn well_formed(&self) -> bool {
        self.ids@.len() == self.accounts@.len() && self.key_seq().no_duplicates()
    }

    /// The described map's domain is exactly the set of stored identities.
    pub proof fn lemma_dom(&self)
        requires
            self.well_formed(),
        ensures
            self@.dom() == self.key_seq().to_set(),
            self.key_seq().no_duplicates(),
    {
        lemma_map_of_dom(self.ids@, self.accounts@);
    }

    /// An empty store.
    pub fn new() -> (r: Self)
        ensures
            r.well_formed(),
            r@ == WorldV::empty(),
            r.key_seq() == Seq::<Seq<char>>::empty(),
    {
        let r = Self { ids: Vec::new(), accounts: Vec::new() };
        proof {
            assert(r.key_seq() =~= Seq::<Seq<char>>::empty());
        }
        r
    }

    fn find(&self, id: &str) -> (r: Option<usize>)
        requires
            self.well_formed(),
        ensures
            match r {
                Some(i) => i < self.ids@.len() && self.ids@[i as int]@ == id@,
                None => !key_seq_of(self.ids@).contains(id@),
            },
    {
        let key: String = id.to_owned();
        let n = self.ids.len();
        let mut j: usize = 0;
        while j < n
            invariant
                n == self.ids@.len(),
                j <= n,
                key@ == id@,
                forall|m: int| 0 <= m < j ==> self.ids@[m]@ != id@,
            decreases n - j,
        {
            if self.ids[j] == key {
                return Some(j);
            }
            j += 1;
        }
        proof {
            if key_seq_of(self.ids@).contains(id@) {
                let w = choose|w: int|
                    0 <= w < key_seq_of(self.ids@).len() && key_seq_of(self.ids@)[w] == id@;
                assert(self.ids@[w]@ == id@);
            }
        }
        None
    }

    /// Whether an account exists for the identity.
    pub fn contains_key(&self, id: &str) -> (r: bool)
        requires
            self.well_formed(),
        ensures
            r == self@.contains_key(id@),
    {
        proof {
            lemma_map_of_contains(self.ids@, self.accounts@, id@);
        }
        match self.find(id) {
            Some(i) => {
                proof {
                    assert(key_seq_of(self.ids@)[i as int] == id@);
                }
                true
            },
            None => false,
        }
    }

    /// Read-only lookup.
    pub fn get(&self, id: &str) -> (r: Option<&Account>)
        requires
            self.well_formed(),
        ensures
            match r {
                Some(account) => self@.contains_key(id@) && account@ == self@[id@],
                None => !self@.contains_key(id@),
            },
    {
        proof {
            lemma_map_of_contains(self.ids@, self.accounts@, id@);
        }
        match self.find(id) {
            Some(i) => {
                proof {
                    lemma_map_of_index(self.ids@, self.accounts@, i as int);
                }
                Some(&self.accounts[i])
            },
            None => None,
        }
    }

    /// Mutable lookup: the returned borrow writes through to the stored
    /// account, so the final map holds whatever value the caller leaves in it.
    pub fn get_mut(&mut self, id: &str) -> (r: Option<&mut Account>)
        requires
            old(self).well_formed(),
        ensures
            final(self).well_formed(),
            final(self).key_seq() == old(self).key_seq(),
            r is Some <==> old(self)@.contains_key(id@),
            r is None ==> *final(self) == *old(self),
            r is Some ==> (*r.unwrap())@ == old(self)@[id@] && final(self)@ == old(self)@.insert(
                id@,
                (*final(r.unwrap()))@,
            ),
    {
        broadcast use lemma_map_of_update;

        proof {
            lemma_map_of_contains(self.ids@, self.accounts@, id@);
        }
        match self.find(id) {
            Some(i) => {
                proof {
                    assert(key_seq_of(self.ids@)[i as int] == id@);
                    lemma_map_of_index(self.ids@, self.accounts@, i as int);
                }
                Some(&mut self.accounts[i])
            },
            None => None,
        }
    }

    /// Adds an account under a fresh identity.
    pub fn insert_new(&mut self, id: String, account: Account)
        requires
            old(self).well_formed(),
            !old(self)@.contains_key(id@),
        ensures
            final(self).well_formed(),
            final(self)@ == old(self)@.insert(id@, account@),
            final(self).key_seq() == old(self).key_seq().push(id@),
    {
        proof {
            lemma_map_of_contains(self.ids@, self.accounts@, id@);
            lemma_map_of_push(self.ids@, self.accounts@, id, account);
        }
        let ghost old_keys = self.key_seq();
        let ghost new_key = id@;
        self.ids.push(id);
        self.accounts.push(account);
        proof {
            assert(self.key_seq() =~= old_keys.push(new_key));
            assert forall|m: int| 0 <= m < old_keys.len() implies old_keys[m] != new_key by {
                if old_keys[m] == new_key {
                    assert(old_keys.contains(new_key));
                }
            }
        }
    }

    /// The identities with accounts, in insertion order.
    pub fn keys(&self) -> (r: Vec<String>)
        requires
            self.well_formed(),
        ensures
            key_seq_of(r@) == self.key_seq(),
    {
        let mut r: Vec<String> = Vec::new();
        let mut i: usize = 0;
        while i < self.ids.len()
            invariant
                i <= self.ids@.len(),
                r@ == self.ids@.take(i as int),
            decreases self.ids@.len() - i,
        {
            r.push(self.ids[i].clone());
            proof {
                assert(r@ =~= self.ids@.take(i + 1));
            }
            i += 1;
        }
        proof {
            assert(self.ids@.take(self.ids@.len() as int) =~= self.ids@);
        }
        r
    }

    /// An independent copy describing the same map.
    pub fn duplicate(&self) -> (r: Self)
        requires
            self.well_formed(),
        ensures
            r.well_formed(),
            r@ == self@,
            r.key_seq() == self.key_seq(),
    {
        let ids = self.keys();
        let mut accounts: Vec<Account> = Vec::new();
        let mut i: usize = 0;
        while i < self.accounts.len()
            invariant
                i <= self.accounts@.len(),
                accounts@.len() == i,
                forall|m: int| 0 <= m < i ==> accounts@[m]@ == self.accounts@[m]@,
            decreases self.accounts@.len() - i,
        {
            accounts.push(self.accounts[i].duplicate());
            i += 1;
        }
        let r = Self { ids, accounts };
        proof {
            assert(key_seq_of(r.ids@) =~= key_seq_of(self.ids@));
            lemma_map_of_ids_congruence(r.ids@, self.ids@, self.accounts@);
            lemma_map_of_congruence(r.ids@, r.accounts@, self.accounts@);
        }
        r
    }
}

proof fn lemma_map_of_ids_congruence(ids1: Seq<String>, ids2: Seq<String>, accounts: Seq<Account>)
    requires
        ids1.len() == ids2.len(),
        accounts.len() == ids1.len(),
        key_seq_of(ids1) == key_seq_of(ids2),
    ensures
        map_of(ids1, accounts) == map_of(ids2, accounts),
    decreases ids1.len(),
{
    if ids1.len() > 0 {
        lemma_key_seq_drop_last(ids1);
        lemma_key_seq_drop_last(ids2);
        lemma_map_of_ids_congruence(ids1.drop_last(), ids2.drop_last(), accounts.drop_last());
        assert(ids1.last()@ == key_seq_of(ids1).last());
        assert(map_of(ids1, accounts) =~= map_of(ids2, accounts));
    }
}

/// The capability interface to a mutable world state: enumerate identities,
/// fetch an account read-only or mutably, and create accounts. The ledger is
/// the production implementer; substitute states can stand in for testing.
pub trait WorldState: Sized {
    /// The abstract state reached through this capability.
    spec fn world(&self) -> WorldV;

    /// Internal consistency of the state carrier, preserved by every
    /// operation.
    spec fn well_formed(&self) -> bool;

    /// All identities with an account, without duplicates.
    fn get_user_ids(&self) -> (ids: Vec<String>)
        requires
            self.well_formed(),
        ensures
            key_seq_of(ids@).no_duplicates(),
            key_seq_of(ids@).to_set() == self.world().dom(),
    ;

    /// Mutable lookup: the returned borrow writes through to the state.
    fn get_account_by_id_mut(&mut self, id: &str) -> (r: Option<&mut Account>)
        requires
            old(self).well_formed(),
        ensures
            final(self).well_formed(),
            r is Some <==> old(self).world().contains_key(id@),
            r is None ==> *final(self) == *old(self),
            r is Some ==> (*r.unwrap())@ == old(self).world()[id@]
                && final(self).world() == old(self).world().insert(id@, (*final(r.unwrap()))@),
    ;

    /// Read-only lookup.
    fn get_account_by_id(&self, id: &str) -> (r: Option<&Account>)
        requires
            self.well_formed(),
        ensures
            match r {
                Some(account) => self.world().contains_key(id@) && account@ == self.world()[id@],
                None => !self.world().contains_key(id@),
            },
    ;

    /// Adds a new account, failing if the identity is taken.
    fn create_account(&mut self, id: String, account_type: AccountType) -> (r: Result<
        (),
        ExecError,
    >)
        requires
            old(self).well_formed(),
        ensures
            final(self).well_formed(),
            r is Ok <==> !old(self).world().contains_key(id@),
            r is Ok ==> final(self).world() == old(self).world().insert(
                id@,
                AccountV::fresh(account_type),
            ),
            r is Err ==> r == Err::<(), ExecError>(ExecError::AccountAlreadyExists)
                && final(self).world() == old(self).world(),
    ;
}


impl WorldState for AccountMap {
    open spec fn world(&self) -> WorldV {
        self.view()
    }

    open spec fn well_formed(&self) -> bool {
        AccountMap::well_formed(self)
    }

    fn get_user_ids(&self) -> (ids: Vec<String>) {
        proof {
            self.lemma_dom();
        }
        self.keys()
    }

    fn get_account_by_id_mut(&mut self, id: &str) -> (r: Option<&mut Account>) {
        self.get_mut(id)
    }

    fn get_account_by_id(&self, id: &str) -> (r: Option<&Account>) {
        self.get(id)
    }

    fn create_account(&mut self, id: String, account_type: AccountType) -> (r: Result<
        (),
        ExecError,
    >) {
        if !self.contains_key(id.as_str()) {
            let account = Account::new(account_type);
            self.insert_new(id, account);
            Ok(())
        } else {
            Err(ExecError::AccountAlreadyExists)
        }
    }
}

} // verus!
