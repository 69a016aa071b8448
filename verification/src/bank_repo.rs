//! The ledger store: an in-memory collection of accounts with creation,
//! lookup, listing, and transfer operations.
//!
//! Owner names are unique case-insensitively. A transfer is one
//! read-validate-write sequence over `&mut self`; a caller that shares the
//! store between tasks must hold it behind one exclusive lock for the whole
//! call, which makes the sequence a single critical section.

use vstd::prelude::*;

use crate::domain::{Account, AccountView, Currency, MonetaryAmounts, Transfer, TransferView};
use crate::errors::BankError;

verus! {

/// What `str::to_lowercase` returns, as a function of the characters alone.
pub uninterp spec fn lower_of(s: Seq<char>) -> Seq<char>;

/// Relies on `str::to_lowercase`: Unicode lowercasing, a pure function of
/// the input characters.
#[verifier::external_body]
fn lowercase(s: &str) -> (r: String)
    ensures
        r@ == lower_of(s@),
{
    s.to_lowercase()
}

/// Relies on `std::time::SystemTime::now`: the current wall-clock time, in
/// whole seconds since the Unix epoch, with a total conversion (0 for a
/// clock set before the epoch). Nothing is assumed of the value.
#[verifier::external_body]
fn now_seconds() -> i64 {
    match std::time::SystemTime::now().duration_since(std::time::UNIX_EPOCH) {
        Ok(d) => i64::try_from(d.as_secs()).unwrap_or(i64::MAX),
        Err(_) => 0,
    }
}

/// The case-insensitive key under which an account is found.
pub open spec fn acct_key(a: AccountView) -> Seq<char> {
    lower_of(a.owner)
}

/// The index of the first account stored under `key`, if any.
pub open spec fn find_index(s: Seq<AccountView>, key: Seq<char>) -> Option<int>
    decreases s.len(),
{
    if s.len() == 0 {
        None
    } else if acct_key(s[0]) == key {
        Some(0int)
    } else {
        match find_index(s.drop_first(), key) {
            Some(i) => Some(i + 1),
            None => None,
        }
    }
}

/// The first account stored under `key`, if any.
pub open spec fn find_account(s: Seq<AccountView>, key: Seq<char>) -> Option<AccountView> {
    match find_index(s, key) {
        Some(i) => Some(s[i]),
        None => None,
    }
}

/// The found index is in range, its account matches the key, nothing before
/// it matches; absence of an index means nothing matches at all.
pub proof fn lemma_find_index(s: Seq<AccountView>, key: Seq<char>)
    ensures
        match find_index(s, key) {
            Some(i) => 0 <= i < s.len() && acct_key(s[i]) == key && forall|j: int|
                0 <= j < i ==> acct_key(#[trigger] s[j]) != key,
            None => forall|j: int| 0 <= j < s.len() ==> acct_key(#[trigger] s[j]) != key,
        },
    decreases s.len(),
{
    if s.len() > 0 && acct_key(s[0]) != key {
        lemma_find_index(s.drop_first(), key);
        match find_index(s.drop_first(), key) {
            Some(i0) => {
                assert(s[i0 + 1] == s.drop_first()[i0]);
                assert forall|j: int| 0 <= j < i0 + 1 implies acct_key(#[trigger] s[j]) != key by {
                    if j > 0 {
                        assert(s[j] == s.drop_first()[j - 1]);
                    }
                }
            },
            None => {
                assert forall|j: int| 0 <= j < s.len() implies acct_key(#[trigger] s[j]) != key by {
                    if j > 0 {
                        assert(s[j] == s.drop_first()[j - 1]);
                    }
                }
            },
        }
    }
}

/// A match at `i` with no match before it is exactly where the scan stops.
pub proof fn lemma_find_index_first(s: Seq<AccountView>, key: Seq<char>, i: int)
    requires
        0 <= i < s.len(),
        acct_key(s[i]) == key,
        forall|j: int| 0 <= j < i ==> acct_key(#[trigger] s[j]) != key,
    ensures
        find_index(s, key) == Some(i),
    decreases s.len(),
{
    if i > 0 {
        assert(forall|j: int| 0 <= j < s.len() - 1 ==> #[trigger] s.drop_first()[j] == s[j + 1]);
        lemma_find_index_first(s.drop_first(), key, i - 1);
    }
}

/// Replacing an account by one stored under the same key moves no lookup.
pub proof fn lemma_find_index_update(s: Seq<AccountView>, key: Seq<char>, i: int, a: AccountView)
    requires
        0 <= i < s.len(),
        acct_key(a) == acct_key(s[i]),
    ensures
        find_index(s.update(i, a), key) == find_index(s, key),
    decreases s.len(),
{
    if i == 0 {
        if acct_key(s[0]) != key {
            assert(s.update(0, a).drop_first() =~= s.drop_first());
        }
    } else {
        assert(s.update(i, a).drop_first() =~= s.drop_first().update(i - 1, a));
        lemma_find_index_update(s.drop_first(), key, i - 1, a);
    }
}

/// Appending an account under a key that is not yet stored makes that key
/// found, and moves no other lookup.
pub proof fn lemma_find_index_push(s: Seq<AccountView>, key: Seq<char>, a: AccountView)
    requires
        find_index(s, key) is None,
    ensures
        acct_key(a) == key ==> find_index(s.push(a), key) == Some(s.len() as int),
        acct_key(a) != key ==> find_index(s.push(a), key) is None,
    decreases s.len(),
{
    if s.len() > 0 {
        assert(acct_key(s[0]) != key);
        assert(find_index(s.drop_first(), key) is None);
        assert(s.push(a)[0] == s[0]);
        assert(s.push(a).drop_first() =~= s.drop_first().push(a));
        lemma_find_index_push(s.drop_first(), key, a);
        if acct_key(a) != key {
            assert(find_index(s.drop_first().push(a), key) is None);
            assert(find_index(s.push(a), key) is None);
        }
    } else {
        assert(s.push(a)[0] == a);
        assert(s.push(a).len() == 1);
        assert(s.push(a).drop_first() =~= Seq::<AccountView>::empty());
        assert(find_index(Seq::<AccountView>::empty(), key) is None);
    }
}

/// True when source and destination are the same account.
pub open spec fn self_transfer(from: AccountView, to: AccountView) -> bool {
    from.id == to.id
}

/// True when the transfer currency differs from either account's currency.
pub open spec fn currency_mismatch(from: AccountView, to: AccountView, td: TransferView) -> bool {
    from.currency != td.currency || to.currency != td.currency
}

/// True when the source balance cannot cover the transfer.
pub open spec fn insufficient_funds(from: AccountView, td: TransferView) -> bool {
    from.balance < td.value
}

/// True when crediting the destination would not fit the balance type.
pub open spec fn credit_overflow(to: AccountView, td: TransferView) -> bool {
    to.balance + td.value > u64::MAX
}

/// A transfer between two resolved accounts passes every check.
pub open spec fn transfer_admissible(from: AccountView, to: AccountView, td: TransferView) -> bool {
    &&& !self_transfer(from, to)
    &&& !currency_mismatch(from, to, td)
    &&& !insufficient_funds(from, td)
    &&& !credit_overflow(to, td)
}

/// An account with its balance replaced.
pub open spec fn with_balance(a: AccountView, balance: u64) -> AccountView {
    AccountView {
        id: a.id,
        balance: balance,
        currency: a.currency,
        owner: a.owner,
        created_at: a.created_at,
    }
}

/// The ledger state a successful transfer leaves behind, or `None` where the
/// transfer fails (and the state stays as it was).
pub open spec fn transfer_step(s: Seq<AccountView>, td: TransferView) -> Option<Seq<AccountView>> {
    let fi = find_index(s, lower_of(td.from_account));
    let ti = find_index(s, lower_of(td.to_account));
    if fi is Some && ti is Some {
        let i = fi->0;
        let j = ti->0;
        if transfer_admissible(s[i], s[j], td) {
            Some(
                s.update(i, with_balance(s[i], (s[i].balance - td.value) as u64)).update(
                    j,
                    with_balance(s[j], (s[j].balance + td.value) as u64),
                ),
            )
        } else {
            None
        }
    } else {
        None
    }
}

/// A repository of accounts keyed by identifier, for a data layer to
/// implement in place of the in-memory store.
pub trait AccountRepository {
    /// Stores a new account record.
    fn create(&mut self, account: Account) -> Result<(), BankError>;

    /// Loads the account with the given identifier.
    fn get(&self, id: u64) -> Result<Account, BankError>;

    /// Replaces the stored data of an account.
    fn update(&mut self, account: Account) -> Result<(), BankError>;
}

/// The in-memory ledger store. One instance holds every account of the
/// process; callers that share it take it behind one exclusive lock.
pub struct InMemoryBankService {
    accounts: Vec<Account>,
    next_id: u64,
}

impl View for InMemoryBankService {
    type V = Seq<AccountView>;

    closed spec fn view(&self) -> Seq<AccountView> {
        self.accounts@.map_values(|a: Account| a@)
    }
}

impl InMemoryBankService {
    /// The identifier the store will assign to the next account.
    pub closed spec fn spec_next_id(&self) -> u64 {
        self.next_id
    }

    /// Well-formed store: every identifier is below the allocation counter,
    /// identifiers are distinct, and owner keys are distinct.
    pub open spec fn wf(&self) -> bool {
        wf_state(self@, self.spec_next_id())
    }
}

/// Well-formed ledger state: every identifier is below the allocation
/// counter, identifiers are distinct, and owner keys are distinct.
pub open spec fn wf_state(s: Seq<AccountView>, next_id: u64) -> bool {
    &&& forall|i: int| 0 <= i < s.len() ==> #[trigger] s[i].id < next_id
    &&& forall|i: int, j: int| 0 <= i < j < s.len() ==> #[trigger] s[i].id != #[trigger] s[j].id
    &&& forall|i: int, j: int|
        0 <= i < j < s.len() ==> acct_key(#[trigger] s[i]) != acct_key(#[trigger] s[j])
}

impl InMemoryBankService {

    /// Creates an empty store.
    pub fn new() -> (r: Self)
        ensures
            r@ == Seq::<AccountView>::empty(),
            r.wf(),
            r.spec_next_id() == 0,
    {
        let r = InMemoryBankService { accounts: Vec::new(), next_id: 0 };
        proof {
            assert(r@ =~= Seq::<AccountView>::empty());
        }
        r
    }

    /// Finds the index of the account stored under the owner's folded name.
    fn find_idx(&self, owner: &str) -> (r: Option<usize>)
        ensures
            match r {
                Some(i) => find_index(self@, lower_of(owner@)) == Some(i as int),
                None => find_index(self@, lower_of(owner@)) is None,
            },
    {
        let key = lowercase(owner);
        let n = self.accounts.len();
        let mut i: usize = 0;
        while i < n
            invariant
                n == self.accounts@.len(),
                i <= n,
                key@ == lower_of(owner@),
                forall|j: int| 0 <= j < i ==> acct_key(#[trigger] self@[j]) != lower_of(owner@),
            decreases n - i,
        {
            let cand = lowercase(self.accounts[i].owner_name.as_str());
            if cand == key {
                proof {
                    assert(acct_key(self@[i as int]) == lower_of(owner@));
                    lemma_find_index_first(self@, lower_of(owner@), i as int);
                }
                return Some(i);
            }
            i += 1;
        }
        proof {
            lemma_find_index(self@, lower_of(owner@));
        }
        None
    }

    /// Whether some account's owner name matches `owner` case-insensitively.
    pub fn is_owner_exists(&self, owner: &str) -> (r: bool)
        ensures
            r == (find_account(self@, lower_of(owner@)) is Some),
    {
        self.find_idx(owner).is_some()
    }

    /// Returns a copy of the account whose owner name matches `owner`
    /// case-insensitively, or `NotFound` when no account matches.
    pub fn get_client(&self, owner: &str) -> (r: Result<Account, BankError>)
        ensures
            match find_account(self@, lower_of(owner@)) {
                Some(a) => r matches Ok(acc) && acc@ == a,
                None => r matches Err(e) && e matches BankError::NotFound(_),
            },
    {
        match self.find_idx(owner) {
            Some(i) => {
                proof {
                    lemma_find_index(self@, lower_of(owner@));
                }
                Ok(self.accounts[i].clone())
            },
            None => Err(BankError::not_found("client not found".to_owned())),
        }
    }

    /// Returns a snapshot copy of every account in the store.
    pub fn clients_all(&self) -> (r: Vec<Account>)
        ensures
            r@.len() == self@.len(),
            forall|i: int| 0 <= i < r@.len() ==> #[trigger] r@[i]@ == self@[i],
    {
        let mut out: Vec<Account> = Vec::new();
        let n = self.accounts.len();
        let mut i: usize = 0;
        while i < n
            invariant
                n == self.accounts@.len(),
                i <= n,
                out@.len() == i,
                forall|j: int| 0 <= j < i ==> #[trigger] out@[j]@ == self@[j],
            decreases n - i,
        {
            out.push(self.accounts[i].clone());
            i += 1;
        }
        out
    }

    /// Opens an account with the given creation time. The owner name must
    /// not collide case-insensitively with a stored one; on success the
    /// account is appended exactly as requested, under a fresh identifier.
    pub fn open_account_at(
        &mut self,
        owner: String,
        balance: MonetaryAmounts,
        currency: Currency,
        created_at: i64,
    ) -> (r: Result<Account, BankError>)
        ensures
            find_account(old(self)@, lower_of(owner@)) is Some ==> (r matches Err(e)
                && e matches BankError::Database(_) && final(self)@ == old(self)@
                && final(self).spec_next_id() == old(self).spec_next_id()),
            find_account(old(self)@, lower_of(owner@)) is None && old(self).spec_next_id()
                == u64::MAX ==> (r matches Err(e) && e matches BankError::Database(_)
                && final(self)@ == old(self)@
                && final(self).spec_next_id() == old(self).spec_next_id()),
            find_account(old(self)@, lower_of(owner@)) is None && old(self).spec_next_id()
                < u64::MAX ==> (r matches Ok(a) && a@ == (AccountView {
                id: old(self).spec_next_id(),
                balance: balance,
                currency: currency,
                owner: owner@,
                created_at: created_at,
            }) && final(self)@ == old(self)@.push(a@)
                && final(self).spec_next_id() == old(self).spec_next_id() + 1),
            old(self).wf() ==> final(self).wf(),
    {
        if self.is_owner_exists(owner.as_str()) {
            return Err(BankError::db_err("the owner already has an account".to_owned()));
        }
        if self.next_id == u64::MAX {
            return Err(BankError::db_err("account identifiers exhausted".to_owned()));
        }

        let ghost s0 = self@;
        let account_id = self.next_id;
        let client = Account { id: account_id, balance, currency, owner_name: owner, created_at };
        let result = client.clone();

        proof {
            lemma_find_index(s0, lower_of(client.owner_name@));
        }
        self.accounts.push(client);
        self.next_id = account_id + 1;

        proof {
            assert(self@ =~= s0.push(result@));
            if old(self).wf() {
                assert forall|i: int, j: int| 0 <= i < j < self@.len() implies acct_key(
                    #[trigger] self@[i],
                ) != acct_key(#[trigger] self@[j]) by {
                    if j == self@.len() - 1 {
                        assert(acct_key(s0[i]) != lower_of(result.owner_name@));
                    }
                }
            }
        }

        Ok(result)
    }

    /// Creates a new client account, stamped with the current time. Same
    /// contract as [`Self::open_account_at`], except that the creation time
    /// is whatever the clock returned.
    pub fn new_client(
        &mut self,
        owner: String,
        balance: MonetaryAmounts,
        currency: Currency,
    ) -> (r: Result<Account, BankError>)
        ensures
            find_account(old(self)@, lower_of(owner@)) is Some ==> (r matches Err(e)
                && e matches BankError::Database(_) && final(self)@ == old(self)@
                && final(self).spec_next_id() == old(self).spec_next_id()),
            find_account(old(self)@, lower_of(owner@)) is None && old(self).spec_next_id()
                == u64::MAX ==> (r matches Err(e) && e matches BankError::Database(_)
                && final(self)@ == old(self)@
                && final(self).spec_next_id() == old(self).spec_next_id()),
            find_account(old(self)@, lower_of(owner@)) is None && old(self).spec_next_id()
                < u64::MAX ==> (r matches Ok(a) && a@.id == old(self).spec_next_id() && a@.balance
                == balance && a@.currency == currency && a@.owner == owner@
                && final(self)@ == old(self)@.push(a@)
                && final(self).spec_next_id() == old(self).spec_next_id() + 1),
            old(self).wf() ==> final(self).wf(),
    {
        let created_at = now_seconds();
        self.open_account_at(owner, balance, currency, created_at)
    }

    /// Checks a transfer between two resolved accounts: self-transfer, then
    /// currency match, then sufficient funds, then headroom of the
    /// destination balance; the first failing check wins.
    pub fn validate_transfer(
        from_client: &Account,
        to_client: &Account,
        transfer_data: &Transfer,
    ) -> (r: Result<(), BankError>)
        ensures
            self_transfer(from_client@, to_client@) ==> (r matches Err(e)
                && e matches BankError::Validation(_)),
            !self_transfer(from_client@, to_client@) && currency_mismatch(
                from_client@,
                to_client@,
                transfer_data@,
            ) ==> (r matches Err(e) && e matches BankError::Validation(_)),
            !self_transfer(from_client@, to_client@) && !currency_mismatch(
                from_client@,
                to_client@,
                transfer_data@,
            ) && insufficient_funds(from_client@, transfer_data@) ==> (r matches Err(e)
                && e matches BankError::InsufficientFunds),
            !self_transfer(from_client@, to_client@) && !currency_mismatch(
                from_client@,
                to_client@,
                transfer_data@,
            ) && !insufficient_funds(from_client@, transfer_data@) && credit_overflow(
                to_client@,
                transfer_data@,
            ) ==> (r matches Err(e) && e matches BankError::Validation(_)),
            transfer_admissible(from_client@, to_client@, transfer_data@) <==> r is Ok,
    {
        if from_client.id == to_client.id {
            return Err(BankError::validation("transfer within a single account".to_owned()));
        }

        if from_client.currency != transfer_data.amount.currency || to_client.currency
            != transfer_data.amount.currency {
            return Err(BankError::validation("the transfer must be in the accounts' currency".to_owned()));
        }

        if from_client.balance < transfer_data.amount.value {
            return Err(BankError::InsufficientFunds);
        }

        if to_client.balance > u64::MAX - transfer_data.amount.value {
            return Err(BankError::validation("the destination balance would overflow".to_owned()));
        }

        Ok(())
    }

    /// Moves `transfer_data.amount` from the source to the destination
    /// account, both named by owner. Fails with `NotFound` when either owner
    /// is missing, and with the kind [`Self::validate_transfer`] gives when a
    /// check fails; a failed transfer leaves every balance as it was.
    pub fn transfer(&mut self, transfer_data: Transfer) -> (r: Result<(), BankError>)
        ensures
            transfer_step(old(self)@, transfer_data@) matches Some(s2) ==> r is Ok && final(self)@
                == s2,
            transfer_step(old(self)@, transfer_data@) is None ==> final(self)@ == old(self)@,
            r is Ok <==> transfer_step(old(self)@, transfer_data@) is Some,
            final(self).spec_next_id() == old(self).spec_next_id(),
            find_index(old(self)@, lower_of(transfer_data@.from_account)) is None ==> (
            r matches Err(e) && e matches BankError::NotFound(_)),
            find_index(old(self)@, lower_of(transfer_data@.from_account)) is Some && find_index(
                old(self)@,
                lower_of(transfer_data@.to_account),
            ) is None ==> (r matches Err(e) && e matches BankError::NotFound(_)),
            ({
                let fi = find_index(old(self)@, lower_of(transfer_data@.from_account));
                let ti = find_index(old(self)@, lower_of(transfer_data@.to_account));
                fi is Some && ti is Some ==> {
                    let f = old(self)@[fi->0];
                    let t = old(self)@[ti->0];
                    &&& (self_transfer(f, t) ==> (r matches Err(e)
                        && e matches BankError::Validation(_)))
                    &&& (!self_transfer(f, t) && currency_mismatch(f, t, transfer_data@) ==> (
                    r matches Err(e) && e matches BankError::Validation(_)))
                    &&& (!self_transfer(f, t) && !currency_mismatch(f, t, transfer_data@)
                        && insufficient_funds(f, transfer_data@) ==> (r matches Err(e)
                        && e matches BankError::InsufficientFunds))
                    &&& (!self_transfer(f, t) && !currency_mismatch(f, t, transfer_data@)
                        && !insufficient_funds(f, transfer_data@) && credit_overflow(
                        t,
                        transfer_data@,
                    ) ==> (r matches Err(e) && e matches BankError::Validation(_)))
                }
            }),
            old(self).wf() ==> final(self).wf(),
    {
        let from_idx = match self.find_idx(transfer_data.from_account.as_str()) {
            Some(i) => i,
            None => {
                return Err(BankError::not_found("source client not found".to_owned()));
            },
        };
        let to_idx = match self.find_idx(transfer_data.to_account.as_str()) {
            Some(i) => i,
            None => {
                return Err(BankError::not_found("destination client not found".to_owned()));
            },
        };

        proof {
            lemma_find_index(self@, lower_of(transfer_data@.from_account));
            lemma_find_index(self@, lower_of(transfer_data@.to_account));
        }

        let from_client = self.accounts[from_idx].clone();
        let to_client = self.accounts[to_idx].clone();

        match Self::validate_transfer(&from_client, &to_client, &transfer_data) {
            Ok(()) => {},
            Err(err) => {
                return Err(err);
            },
        }

        proof {
            // distinct identifiers mean distinct indices
            assert(from_idx != to_idx);
        }

        let new_from = from_client.balance - transfer_data.amount.value;
        let new_to = to_client.balance + transfer_data.amount.value;

        let ghost s0 = self@;
        self.accounts[from_idx].balance = new_from;
        self.accounts[to_idx].balance = new_to;

        proof {
            let td = transfer_data@;
            let i = from_idx as int;
            let j = to_idx as int;
            assert(self@ =~= s0.update(i, with_balance(s0[i], new_from)).update(
                j,
                with_balance(s0[j], new_to),
            ));
            if old(self).wf() {
                assert(final(self).wf());
            }
        }

        Ok(())
    }
}

impl Default for InMemoryBankService {
    /// An empty store, as [`InMemoryBankService::new`] builds it.
    fn default() -> (r: Self)
        ensures
            r@ == Seq::<AccountView>::empty(),
            r.wf(),
            r.spec_next_id() == 0,
    {
        InMemoryBankService::new()
    }
}

} // verus!
