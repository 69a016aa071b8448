//! Core value types of the ledger: currencies, accounts, and the transient
//! request records for opening an account and transferring money.

use vstd::prelude::*;

verus! {

/// A money amount in the minor unit of its currency (e.g. 150 = 1.50 USD).
pub type MonetaryAmounts = u64;

/// The closed set of currencies an account can be denominated in.
#[derive(Clone, Copy, Debug, PartialEq, Eq, Structural)]
pub enum Currency {
    /// United States dollar.
    Usd,
    /// Russian rouble.
    Rub,
    /// Euro.
    Eur,
}

/// A ledger entry: one customer account.
#[derive(Debug)]
pub struct Account {
    /// Unique identifier, assigned by the store at creation, immutable.
    pub id: u64,
    /// Current balance, in the minor unit of `currency`. Never negative.
    pub balance: MonetaryAmounts,
    /// The account's currency, immutable after creation.
    pub currency: Currency,
    /// The owner's name; unique case-insensitively across the store.
    pub owner_name: String,
    /// Creation time, in seconds since the Unix epoch, immutable.
    pub created_at: i64,
}

/// The mathematical value of an [`Account`]: the same fields with the owner
/// name as a sequence of characters.
pub ghost struct AccountView {
    pub id: u64,
    pub balance: MonetaryAmounts,
    pub currency: Currency,
    pub owner: Seq<char>,
    pub created_at: i64,
}

impl View for Account {
    type V = AccountView;

    open spec fn view(&self) -> AccountView {
        AccountView {
            id: self.id,
            balance: self.balance,
            currency: self.currency,
            owner: self.owner_name@,
            created_at: self.created_at,
        }
    }
}

impl Clone for Account {
    fn clone(&self) -> (r: Self)
        ensures
            r@ == self@,
    {
        Account {
            id: self.id,
            balance: self.balance,
            currency: self.currency,
            owner_name: self.owner_name.clone(),
            created_at: self.created_at,
        }
    }
}

/// A request to open a new account.
#[derive(Debug)]
pub struct CreateAccount {
    /// Opening balance; zero is allowed.
    pub initial_balance: MonetaryAmounts,
    /// The currency the account is denominated in.
    pub currency: Currency,
    /// The owner's name.
    pub owner_name: String,
}

impl Clone for CreateAccount {
    fn clone(&self) -> (r: Self)
        ensures
            r.initial_balance == self.initial_balance,
            r.currency == self.currency,
            r.owner_name@ == self.owner_name@,
    {
        CreateAccount {
            initial_balance: self.initial_balance,
            currency: self.currency,
            owner_name: self.owner_name.clone(),
        }
    }
}

/// A money amount tagged with its currency.
#[derive(Debug)]
pub struct Amount {
    /// The numeric value, in the minor unit of `currency`.
    pub value: MonetaryAmounts,
    /// The currency the value is expressed in.
    pub currency: Currency,
}

impl Clone for Amount {
    fn clone(&self) -> (r: Self)
        ensures
            r.value == self.value,
            r.currency == self.currency,
    {
        Amount { value: self.value, currency: self.currency }
    }
}

/// A request to move money between two accounts, named by their owners.
#[derive(Debug)]
pub struct Transfer {
    /// How much to move, and in which currency.
    pub amount: Amount,
    /// Owner name of the source account.
    pub from_account: String,
    /// Owner name of the destination account.
    pub to_account: String,
}

/// The mathematical value of a [`Transfer`].
pub ghost struct TransferView {
    pub value: MonetaryAmounts,
    pub currency: Currency,
    pub from_account: Seq<char>,
    pub to_account: Seq<char>,
}

impl View for Transfer {
    type V = TransferView;

    open spec fn view(&self) -> TransferView {
        TransferView {
            value: self.amount.value,
            currency: self.amount.currency,
            from_account: self.from_account@,
            to_account: self.to_account@,
        }
    }
}

impl Clone for Transfer {
    fn clone(&self) -> (r: Self)
        ensures
            r@ == self@,
    {
        Transfer {
            amount: self.amount.clone(),
            from_account: self.from_account.clone(),
            to_account: self.to_account.clone(),
        }
    }
}

} // verus!
