//! Token accounts and the transfer primitive: a fixed amount of one asset
//! kind moves between two accounts, by the signature of the source's owner or
//! by the proof of a derived authority, wholly or not at all.

use vstd::prelude::*;
use crate::address::Address;
use crate::authority::AuthorityProof;
use crate::table::{Key, Table};

verus! {

/// Who may spend from a token account.
#[derive(Clone, Copy, Debug, PartialEq, Eq)]
pub enum Holder {
    /// A user, who signs.
    Wallet(Address),
    /// A derived authority, for which a program presents its seeds. Such an
    /// account is a holding account.
    Authority(Address),
}

/// A token account is found by its holder and its asset kind.
#[derive(Clone, Copy, Debug, PartialEq, Eq)]
pub struct TokenKey {
    pub holder: Holder,
    pub mint: Address,
}

impl Key for Holder {
    fn same(&self, other: &Holder) -> (r: bool) {
        match (self, other) {
            (Holder::Wallet(a), Holder::Wallet(b)) => a.same(b),
            (Holder::Authority(a), Holder::Authority(b)) => a.same(b),
            _ => false,
        }
    }
}

impl Key for TokenKey {
    fn same(&self, other: &TokenKey) -> (r: bool) {
        self.holder.same(&other.holder) && self.mint.same(&other.mint)
    }
}

/// The account in which the user `owner` keeps tokens of `mint`.
pub open spec fn wallet_of(owner: Address, mint: Address) -> TokenKey {
    TokenKey { holder: Holder::Wallet(owner), mint }
}

/// The holding account of the derived authority `authority` for `mint`.
pub open spec fn holding_of(authority: Address, mint: Address) -> TokenKey {
    TokenKey { holder: Holder::Authority(authority), mint }
}

impl TokenKey {
    /// The account in which the user `owner` keeps tokens of `mint`.
    pub fn wallet(owner: Address, mint: Address) -> (r: TokenKey)
        ensures
            r == wallet_of(owner, mint),
    {
        TokenKey { holder: Holder::Wallet(owner), mint }
    }

    /// The holding account of the derived authority `authority` for `mint`.
    pub fn holding(authority: Address, mint: Address) -> (r: TokenKey)
        ensures
            r == holding_of(authority, mint),
    {
        TokenKey { holder: Holder::Authority(authority), mint }
    }
}

/// How a transfer or a closure is authorized: one of two ways, never both.
#[derive(Clone, Copy, Debug)]
pub enum Authorization {
    /// The signature of this user.
    Signature(Address),
    /// The proof of a derived authority.
    Proof(AuthorityProof),
}

impl Authorization {
    /// Whether the authorization lets its bearer spend what `holder` holds.
    pub open spec fn covers(self, holder: Holder) -> bool {
        match (self, holder) {
            (Authorization::Signature(signer), Holder::Wallet(owner)) => signer == owner,
            (Authorization::Proof(proof), Holder::Authority(address)) => proof@ == address,
            _ => false,
        }
    }

    /// Whether the authorization lets its bearer spend what `holder` holds.
    pub fn check(&self, holder: &Holder) -> (r: bool)
        ensures
            r == self.covers(*holder),
    {
        match (self, holder) {
            (Authorization::Signature(signer), Holder::Wallet(owner)) => signer.same(owner),
            (Authorization::Proof(proof), Holder::Authority(address)) => proof.address().same(
                address,
            ),
            _ => false,
        }
    }
}

/// Why the ledger refused an operation.
#[derive(Clone, Copy, Debug, PartialEq, Eq, Structural)]
pub enum TokenError {
    /// The source account does not exist.
    SourceNotFound,
    /// The destination account does not exist.
    DestinationNotFound,
    /// The source holds less than the amount.
    InsufficientFunds,
    /// The authorization is not that of the account's holder.
    OwnerMismatch,
    /// The destination cannot hold that much more.
    Overflow,
    /// An account exists under this key already.
    AlreadyInUse,
    /// The account to close still holds tokens.
    NonEmptyAccount,
}

/// Why a transfer of `amount` from `from` to `to` fails on `tokens`, if it
/// does; `authorized` says whether the authorization presented is that of the
/// source's holder.
pub open spec fn transfer_failure(
    tokens: Map<TokenKey, u64>,
    from: TokenKey,
    to: TokenKey,
    amount: u64,
    authorized: bool,
) -> Option<TokenError> {
    if !tokens.dom().contains(from) {
        Some(TokenError::SourceNotFound)
    } else if !tokens.dom().contains(to) {
        Some(TokenError::DestinationNotFound)
    } else if tokens[from] < amount {
        Some(TokenError::InsufficientFunds)
    } else if !authorized {
        Some(TokenError::OwnerMismatch)
    } else if from != to && tokens[to] + amount > u64::MAX {
        Some(TokenError::Overflow)
    } else {
        None
    }
}

/// The balances after `amount` has moved from `from` to `to`: one debit and
/// one credit.
pub open spec fn transferred(
    tokens: Map<TokenKey, u64>,
    from: TokenKey,
    to: TokenKey,
    amount: u64,
) -> Map<TokenKey, u64> {
    if from == to {
        tokens
    } else {
        tokens.insert(from, (tokens[from] - amount) as u64).insert(
            to,
            (tokens[to] + amount) as u64,
        )
    }
}

/// Why closing the account `account` fails on `tokens`, if it does;
/// `authorized` says whether the authorization presented is that of its holder.
pub open spec fn close_failure(
    tokens: Map<TokenKey, u64>,
    account: TokenKey,
    authorized: bool,
) -> Option<TokenError> {
    if !tokens.dom().contains(account) {
        Some(TokenError::SourceNotFound)
    } else if tokens[account] != 0 {
        Some(TokenError::NonEmptyAccount)
    } else if !authorized {
        Some(TokenError::OwnerMismatch)
    } else {
        None
    }
}

/// The token accounts with their balances. Its view maps each account that
/// exists to the amount it holds.
#[derive(Debug)]
pub struct Ledger {
    accounts: Table<TokenKey, u64>,
}

impl Ledger {
    /// No account occurs twice.
    pub closed spec fn wf(&self) -> bool {
        self.accounts.wf()
    }

    /// The map from each account that exists to the amount it holds.
    pub closed spec fn view(&self) -> Map<TokenKey, u64> {
        self.accounts@
    }

    /// A ledger without accounts.
    pub fn new() -> (r: Ledger)
        ensures
            r.wf(),
            r@ == Map::<TokenKey, u64>::empty(),
    {
        Ledger { accounts: Table::new() }
    }

    /// What the account holds, if it exists.
    pub fn amount(&self, account: &TokenKey) -> (r: Option<u64>)
        requires
            self.wf(),
        ensures
            r == if self@.dom().contains(*account) {
                Some(self@[*account])
            } else {
                None
            },
    {
        self.accounts.get(account)
    }

    /// Opens an empty account, unless one exists under this key.
    pub fn open(&mut self, account: TokenKey) -> (r: Result<(), TokenError>)
        requires
            old(self).wf(),
        ensures
            final(self).wf(),
            match r {
                Ok(()) => {
                    &&& !old(self)@.dom().contains(account)
                    &&& final(self)@ == old(self)@.insert(account, 0)
                },
                Err(e) => {
                    &&& old(self)@.dom().contains(account)
                    &&& final(self)@ == old(self)@
                    &&& e == TokenError::AlreadyInUse
                },
            },
    {
        if self.accounts.contains_key(&account) {
            Err(TokenError::AlreadyInUse)
        } else {
            self.accounts.insert(account, 0);
            Ok(())
        }
    }

    /// Opens an empty account where none exists under this key.
    pub fn open_if_needed(&mut self, account: TokenKey)
        requires
            old(self).wf(),
        ensures
            final(self).wf(),
            final(self)@ == opened(old(self)@, account),
    {
        if !self.accounts.contains_key(&account) {
            self.accounts.insert(account, 0);
        }
    }

    /// Issues `amount` new tokens to an account, which is opened if needed.
    /// Nothing changes where the account cannot hold that much more.
    pub fn mint_to(&mut self, account: TokenKey, amount: u64) -> (r: Result<(), TokenError>)
        requires
            old(self).wf(),
        ensures
            final(self).wf(),
            match r {
                Ok(()) => {
                    &&& balance(old(self)@, account) + amount <= u64::MAX
                    &&& final(self)@ == old(self)@.insert(
                        account,
                        (balance(old(self)@, account) + amount) as u64,
                    )
                },
                Err(e) => {
                    &&& balance(old(self)@, account) + amount > u64::MAX
                    &&& final(self)@ == old(self)@
                    &&& e == TokenError::Overflow
                },
            },
    {
        let held = match self.accounts.get(&account) {
            Some(held) => held,
            None => 0,
        };
        match held.checked_add(amount) {
            Some(sum) => {
                self.accounts.insert(account, sum);
                Ok(())
            },
            None => Err(TokenError::Overflow),
        }
    }

    /// A copy of the ledger on which an operation of several steps can work,
    /// to be put in the ledger's place once every step has succeeded.
    pub fn snapshot(&self) -> (r: Ledger)
        requires
            self.wf(),
        ensures
            r.wf(),
            r@ == self@,
    {
        Ledger { accounts: self.accounts.snapshot() }
    }
}

/// What `account` holds on `tokens`; nothing where it does not exist.
pub open spec fn balance(tokens: Map<TokenKey, u64>, account: TokenKey) -> u64 {
    if tokens.dom().contains(account) {
        tokens[account]
    } else {
        0
    }
}

/// `tokens` with `account` opened if it did not exist.
pub open spec fn opened(tokens: Map<TokenKey, u64>, account: TokenKey) -> Map<TokenKey, u64> {
    if tokens.dom().contains(account) {
        tokens
    } else {
        tokens.insert(account, 0)
    }
}

/// Moves `amount` tokens of `mint` from the account of `from` to that of
/// `to`. The source is debited and the destination credited, or nothing
/// changes and the error says why.
pub fn transfer_tokens(
    tokens: &mut Ledger,
    from: &Holder,
    to: &Holder,
    amount: u64,
    mint: &Address,
    authority: &Authorization,
) -> (r: Result<(), TokenError>)
    requires
        old(tokens).wf(),
    ensures
        final(tokens).wf(),
        match r {
            Ok(()) => {
                &&& transfer_failure(
                    old(tokens)@,
                    TokenKey { holder: *from, mint: *mint },
                    TokenKey { holder: *to, mint: *mint },
                    amount,
                    authority.covers(*from),
                ) is None
                &&& final(tokens)@ == transferred(
                    old(tokens)@,
                    TokenKey { holder: *from, mint: *mint },
                    TokenKey { holder: *to, mint: *mint },
                    amount,
                )
            },
            Err(e) => {
                &&& transfer_failure(
                    old(tokens)@,
                    TokenKey { holder: *from, mint: *mint },
                    TokenKey { holder: *to, mint: *mint },
                    amount,
                    authority.covers(*from),
                ) == Some(e)
                &&& final(tokens)@ == old(tokens)@
            },
        },
{
    let source = TokenKey { holder: *from, mint: *mint };
    let destination = TokenKey { holder: *to, mint: *mint };
    let held = match tokens.accounts.get(&source) {
        Some(held) => held,
        None => {
            return Err(TokenError::SourceNotFound);
        },
    };
    let received = match tokens.accounts.get(&destination) {
        Some(received) => received,
        None => {
            return Err(TokenError::DestinationNotFound);
        },
    };
    if held < amount {
        return Err(TokenError::InsufficientFunds);
    }
    if !authority.check(from) {
        return Err(TokenError::OwnerMismatch);
    }
    if source.same(&destination) {
        return Ok(());
    }
    match received.checked_add(amount) {
        Some(sum) => {
            tokens.accounts.insert(source, held - amount);
            tokens.accounts.insert(destination, sum);
            Ok(())
        },
        None => Err(TokenError::Overflow),
    }
}

/// Closes an empty token account. The account ceases to exist, or nothing
/// changes and the error says why.
pub fn close_ata(tokens: &mut Ledger, account: &TokenKey, authority: &Authorization) -> (r: Result<
    (),
    TokenError,
>)
    requires
        old(tokens).wf(),
    ensures
        final(tokens).wf(),
        match r {
            Ok(()) => {
                &&& close_failure(old(tokens)@, *account, authority.covers(account.holder))
                    is None
                &&& final(tokens)@ == old(tokens)@.remove(*account)
            },
            Err(e) => {
                &&& close_failure(old(tokens)@, *account, authority.covers(account.holder))
                    == Some(e)
                &&& final(tokens)@ == old(tokens)@
            },
        },
{
    match tokens.accounts.get(account) {
        None => Err(TokenError::SourceNotFound),
        Some(held) => {
            if held != 0 {
                Err(TokenError::NonEmptyAccount)
            } else if !authority.check(&account.holder) {
                Err(TokenError::OwnerMismatch)
            } else {
                tokens.accounts.remove(account);
                Ok(())
            }
        },
    }
}

} // verus!
